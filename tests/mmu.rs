use nds_core::hw::HW;
use nds_core::mmu::{HaltMode, HALTCNT, POWCNT2, WRAMCNT};

#[test]
fn byte_of_a_value() {
    assert_eq!(HW::read_byte_from_value(&0x1234_5678u32, 0), 0x78);
    assert_eq!(HW::read_byte_from_value(&0x1234_5678u32, 3), 0x12);
    assert_eq!(HW::read_byte_from_value(&0xABCDu16, 1), 0xAB);
    assert_eq!(HW::read_byte_from_value(&0x5Au8, 0), 0x5A);
}

#[test]
fn write_one_byte_of_a_value() {
    let mut v = 0x1234_5678u32;
    HW::write_byte_to_value(&mut v, 2, 0xEE);
    assert_eq!(v, 0x12EE_5678);
    let mut h = 0xABCDu16;
    HW::write_byte_to_value(&mut h, 0, 0x01);
    assert_eq!(h, 0xAB01);
    let mut b = 0u8;
    HW::write_byte_to_value(&mut b, 0, 0xFF);
    assert_eq!(b, 0xFF);
}

#[test]
fn wram_split() {
    let w = WRAMCNT::new(0);
    assert_eq!((w.arm7_mask, w.arm9_offset, w.arm9_mask), (0, 0, 0x7FFF));
    let mut w = WRAMCNT::new(3);
    assert_eq!((w.arm7_offset, w.arm7_mask, w.arm9_mask), (0, 0x7FFF, 0));
    w.write(0xFD);
    assert_eq!(w.read(), 1);
    assert_eq!((w.arm7_offset, w.arm7_mask, w.arm9_offset, w.arm9_mask), (0, 0x3FFF, 0x4000, 0x3FFF));
    w.write(2);
    assert_eq!((w.arm7_offset, w.arm7_mask, w.arm9_offset, w.arm9_mask), (0x4000, 0x3FFF, 0, 0x3FFF));
}

#[test]
fn power_control() {
    let mut p = POWCNT2::new();
    assert_eq!(p.read(0), 1);
    p.write(0, 0x2);
    assert_eq!(p.read(0), 2);
    assert_eq!(p.read(1), 0);
}

#[test]
fn halt_control() {
    let mut h = HALTCNT::new();
    assert!(!h.halted());
    h.write(0x80);
    assert!(h.halted());
    assert_eq!(h.read(), 0x80);
    h.unhalt();
    assert_eq!(h.mode, HaltMode::Running);
    assert_eq!(HaltMode::from_bits(1), HaltMode::GBA);
}


#[test]
fn little_endian_reads() {
    let mem = vec![0x78u8, 0x56, 0x34, 0x12, 0xFF];
    assert_eq!(HW::read_mem::<u32>(&mem, 0), 0x1234_5678);
    assert_eq!(HW::read_mem::<u16>(&mem, 1), 0x3456);
    assert_eq!(HW::read_mem::<u8>(&mem, 4), 0xFF);
    assert_eq!(HW::read_mem::<u32>(&mem, 1), 0xFF12_3456);
}

#[test]
fn little_endian_writes_touch_only_their_bytes() {
    let mut mem = vec![0xAAu8; 6];
    HW::write_mem::<u32>(&mut mem, 1, 0x1122_3344);
    assert_eq!(mem, vec![0xAA, 0x44, 0x33, 0x22, 0x11, 0xAA]);
    HW::write_mem::<u16>(&mut mem, 4, 0xBEEF);
    assert_eq!(mem, vec![0xAA, 0x44, 0x33, 0x22, 0xEF, 0xBE]);
    HW::write_mem::<u8>(&mut mem, 0, 0x01);
    assert_eq!(mem[0], 0x01);
    assert_eq!(HW::read_mem::<u16>(&mem, 4), 0xBEEF);
}
