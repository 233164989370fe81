use nds_core::dma::{DMAChannel, DMAOccasion};
use nds_core::mmu::{AccessType, RamBus};

/// 0x1000 bytes holding a pattern, 3 cycles for a first access, 1 after.
fn memory() -> RamBus {
    let mut bus = RamBus::new(0x1000, 3, 1);
    for (i, b) in bus.mem.iter_mut().enumerate() {
        *b = (i % 251) as u8;
    }
    bus
}

fn half_at(bus: &RamBus, addr: usize) -> u32 {
    u16::from_le_bytes([bus.mem[addr], bus.mem[addr + 1]]) as u32
}

fn channel(src: u32, dest: u32, count: u32, src_ctrl: u8, dest_ctrl: u8, wide: bool) -> DMAChannel {
    let mut c = DMAChannel::new();
    c.sad_latch = src;
    c.dad_latch = dest;
    c.count_latch = count;
    c.cnt.src_addr_ctrl = src_ctrl;
    c.cnt.dest_addr_ctrl = dest_ctrl;
    c.cnt.transfer_32 = wide;
    c.cnt.enable = true;
    c
}

#[test]
fn increment_run_moves_both_latches_by_the_transfer_size() {
    let mut bus = memory();
    let before: Vec<u32> = (0..4).map(|i| half_at(&bus, 0x100 + 2 * i)).collect();
    let mut c = channel(0x100, 0x200, 4, 0, 0, false);
    let report = c.run(&mut bus, false);
    assert_eq!(c.sad_latch, 0x108);
    assert_eq!(c.dad_latch, 0x208);
    assert_eq!(report.transfers, vec![(0x100, 0x200), (0x102, 0x202), (0x104, 0x204), (0x106, 0x206)]);
    assert_eq!(
        report.accesses,
        vec![
            (AccessType::N, 0x100, 3),
            (AccessType::N, 0x200, 3),
            (AccessType::S, 0x102, 1),
            (AccessType::S, 0x202, 1),
            (AccessType::S, 0x104, 1),
            (AccessType::S, 0x204, 1),
            (AccessType::S, 0x106, 1),
            (AccessType::S, 0x206, 1),
        ]
    );
    assert_eq!(report.cycles, 2 + 12);
    assert_eq!(report.values, before);
    for i in 0..4 {
        assert_eq!(half_at(&bus, 0x200 + 2 * i), before[i]);
    }
    assert_eq!(bus.mem[0x208], (0x208 % 251) as u8);
}

#[test]
fn reload_mode_restores_the_destination_latch() {
    let mut bus = memory();
    let mut c = channel(0x100, 0x300, 3, 0, 3, true);
    let report = c.run(&mut bus, true);
    let dests: Vec<u32> = report.transfers.iter().map(|t| t.1).collect();
    assert_eq!(dests, vec![0x300, 0x304, 0x308]);
    assert_eq!(c.dad_latch, 0x300);
    assert_eq!(c.sad_latch, 0x10C);
    assert_eq!(&bus.mem[0x300..0x30C], &memory().mem[0x100..0x10C]);
}

#[test]
fn decrement_and_fixed_modes() {
    let mut bus = memory();
    let mut c = channel(0x110, 0x400, 3, 1, 2, false);
    let report = c.run(&mut bus, false);
    assert_eq!(report.transfers, vec![(0x110, 0x400), (0x10E, 0x400), (0x10C, 0x400)]);
    assert_eq!(c.sad_latch, 0x10A);
    assert_eq!(c.dad_latch, 0x400);
    assert_eq!(half_at(&bus, 0x400), half_at(&memory(), 0x10C));
}

#[test]
fn addresses_are_aligned_to_the_unit() {
    let mut bus = memory();
    let mut c = channel(0x103, 0x207, 1, 0, 0, true);
    assert_eq!(c.run(&mut bus, false).transfers, vec![(0x100, 0x204)]);
    let mut c = channel(0x103, 0x207, 1, 0, 0, false);
    assert_eq!(c.run(&mut bus, false).transfers, vec![(0x102, 0x206)]);
}

#[test]
fn empty_run_costs_two_cycles() {
    let mut bus = memory();
    let mut c = channel(0x100, 0x200, 0, 0, 0, false);
    let report = c.run(&mut bus, false);
    assert_eq!(report.cycles, 2);
    assert!(report.accesses.is_empty());
    assert_eq!(c.sad_latch, 0x100);
    assert_eq!(bus.mem, memory().mem);
}

#[test]
fn repeat_keeps_only_non_immediate_channels_enabled() {
    let mut bus = memory();
    let mut c = channel(0x100, 0x200, 1, 0, 0, false);
    c.cnt.repeat = true;
    c.cnt.start_timing = DMAOccasion::Immediate;
    c.run(&mut bus, false);
    assert!(!c.cnt.enable);
    let mut c = channel(0x100, 0x200, 1, 0, 0, false);
    c.cnt.repeat = true;
    c.cnt.start_timing = DMAOccasion::HBlank;
    c.run(&mut bus, false);
    assert!(c.cnt.enable);
    let mut c = channel(0x100, 0x200, 1, 0, 0, false);
    c.cnt.start_timing = DMAOccasion::VBlank;
    c.run(&mut bus, false);
    assert!(!c.cnt.enable);
}

#[test]
fn addresses_wrap_around_and_unmapped_reads_are_zero() {
    let mut bus = memory();
    let mut c = channel(0xFFFF_FFFE, 0x2, 2, 0, 1, false);
    let report = c.run(&mut bus, false);
    assert_eq!(report.transfers, vec![(0xFFFF_FFFE, 0x2), (0x0, 0x0)]);
    assert_eq!(report.values[0], 0);
    assert_eq!(c.sad_latch, 0x2);
    assert_eq!(c.dad_latch, 0xFFFF_FFFE);
}
