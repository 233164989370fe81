use vstd::prelude::*;

use crate::hw::HW;
use crate::spu::{replace_byte, spec_replace_byte};

verus! {

/// Whether a memory access starts a burst (non-sequential) or continues one.
#[derive(Clone, Copy, Debug, PartialEq, Eq, Structural)]
pub enum AccessType {
    N,
    S,
}

/// The size of one memory access.
#[derive(Clone, Copy, Debug, PartialEq, Eq, Structural)]
pub enum Width {
    Byte,
    Half,
    Word,
}

/// One call made on a `Bus`, with what it returned.
#[derive(Clone, Copy, Debug, PartialEq, Eq, Structural)]
pub enum BusOp {
    /// (on the ARM9 side, kind, address, width, cycles returned)
    AccessTime(bool, AccessType, u32, Width, u16),
    /// (on the ARM9 side, address, width, value returned)
    Read(bool, u32, Width, u32),
    /// (on the ARM9 side, address, width, value written)
    Write(bool, u32, Width, u32),
}

/// The memory of the two CPUs as the DMA executor and the audio channels see
/// it. `arm9` selects the CPU whose view of memory is used. Values travel in
/// the low bits of a `u32`. `ops` is the log of the calls made so far: each
/// call appends itself and what it returned.
pub trait Bus {
    spec fn ops(&self) -> Seq<BusOp>;

    /// Wait-state cycles of one access.
    fn access_time(&mut self, arm9: bool, kind: AccessType, addr: u32, width: Width) -> (r: u16)
        ensures
            final(self).ops() == old(self).ops().push(BusOp::AccessTime(arm9, kind, addr, width, r)),
    ;

    fn read(&mut self, arm9: bool, addr: u32, width: Width) -> (r: u32)
        ensures
            final(self).ops() == old(self).ops().push(BusOp::Read(arm9, addr, width, r)),
    ;

    fn write(&mut self, arm9: bool, addr: u32, width: Width, value: u32)
        ensures
            final(self).ops() == old(self).ops().push(BusOp::Write(arm9, addr, width, value)),
    ;
}

/// A flat memory that both CPUs share, with fixed wait states. Accesses that
/// do not fit in it read 0 and write nothing.
pub struct RamBus {
    pub mem: Vec<u8>,
    pub n_cycles: u16,
    pub s_cycles: u16,
    pub log: Ghost<Seq<BusOp>>,
}

/// Bytes in an access of `width`.
pub open spec fn width_bytes(width: Width) -> nat {
    match width {
        Width::Byte => 1,
        Width::Half => 2,
        Width::Word => 4,
    }
}

impl RamBus {
    pub fn new(size: usize, n_cycles: u16, s_cycles: u16) -> (r: RamBus)
        ensures
            r.mem@.len() == size,
            forall|i: int| 0 <= i < size ==> #[trigger] r.mem@[i] == 0,
            r.n_cycles == n_cycles,
            r.s_cycles == s_cycles,
            r.log@ == Seq::<BusOp>::empty(),
    {
        let mut mem: Vec<u8> = Vec::new();
        let mut i: usize = 0;
        while i < size
            invariant
                i <= size,
                mem@.len() == i,
                forall|k: int| 0 <= k < i ==> #[trigger] mem@[k] == 0,
            decreases size - i,
        {
            mem.push(0);
            i = i + 1;
        }
        RamBus { mem, n_cycles, s_cycles, log: Ghost(Seq::empty()) }
    }

    fn fits(&self, addr: u32, width: Width) -> (r: bool)
        ensures
            r <==> addr + width_bytes(width) <= self.mem@.len(),
    {
        let n: usize = match width {
            Width::Byte => 1,
            Width::Half => 2,
            Width::Word => 4,
        };
        self.mem.len() >= n && (addr as usize) <= self.mem.len() - n
    }
}

impl Bus for RamBus {
    closed spec fn ops(&self) -> Seq<BusOp> {
        self.log@
    }

    fn access_time(&mut self, arm9: bool, kind: AccessType, addr: u32, width: Width) -> (r: u16) {
        let r = match kind {
            AccessType::N => self.n_cycles,
            AccessType::S => self.s_cycles,
        };
        self.log = Ghost(self.log@.push(BusOp::AccessTime(arm9, kind, addr, width, r)));
        r
    }

    fn read(&mut self, arm9: bool, addr: u32, width: Width) -> (r: u32) {
        let r: u32 = if !self.fits(addr, width) {
            0
        } else {
            match width {
                Width::Byte => HW::read_mem::<u8>(&self.mem, addr) as u32,
                Width::Half => HW::read_mem::<u16>(&self.mem, addr) as u32,
                Width::Word => HW::read_mem::<u32>(&self.mem, addr),
            }
        };
        self.log = Ghost(self.log@.push(BusOp::Read(arm9, addr, width, r)));
        r
    }

    fn write(&mut self, arm9: bool, addr: u32, width: Width, value: u32) {
        if self.fits(addr, width) {
            match width {
                Width::Byte => HW::write_mem::<u8>(&mut self.mem, addr, u8::from_u32(value)),
                Width::Half => HW::write_mem::<u16>(&mut self.mem, addr, u16::from_u32(value)),
                Width::Word => HW::write_mem::<u32>(&mut self.mem, addr, value),
            }
        }
        self.log = Ghost(self.log@.push(BusOp::Write(arm9, addr, width, value)));
    }
}

/// A value that one memory access moves: `u8`, `u16` or `u32`.
pub trait MemoryValue: Copy + Sized {
    /// Bytes in one value.
    spec fn spec_size() -> nat;

    /// The value as an unsigned number.
    spec fn spec_value(self) -> u32;

    fn size() -> (r: u32)
        ensures
            r == Self::spec_size(),
            r == 1 || r == 2 || r == 4,
    ;

    fn width() -> (r: Width)
        ensures
            r == width_of_size(Self::spec_size()),
    ;

    fn to_u32(self) -> (r: u32)
        ensures
            r == self.spec_value(),
            r & low_mask(Self::spec_size()) == r,
    ;

    /// Keeps the low bytes of `v` that fit.
    fn from_u32(v: u32) -> (r: Self)
        ensures
            r.spec_value() == v & low_mask(Self::spec_size()),
    ;
}

/// The access width of a value of `size` bytes.
pub open spec fn width_of_size(size: nat) -> Width {
    if size == 1 {
        Width::Byte
    } else if size == 2 {
        Width::Half
    } else {
        Width::Word
    }
}

/// The bits of a value of `size` bytes.
pub open spec fn low_mask(size: nat) -> u32 {
    if size == 1 {
        0xFF
    } else if size == 2 {
        0xFFFF
    } else {
        0xFFFF_FFFF
    }
}

impl MemoryValue for u8 {
    open spec fn spec_size() -> nat {
        1
    }

    open spec fn spec_value(self) -> u32 {
        self as u32
    }

    fn size() -> (r: u32) {
        1
    }

    fn width() -> (r: Width) {
        Width::Byte
    }

    fn to_u32(self) -> (r: u32) {
        let r = self as u32;
        assert(r & 0xFF == r) by (bit_vector)
            requires
                r <= 0xFF,
        ;
        r
    }

    fn from_u32(v: u32) -> (r: Self) {
        assert((v & 0xFF) <= 0xFF) by (bit_vector);
        (v & 0xFF) as u8
    }
}

impl MemoryValue for u16 {
    open spec fn spec_size() -> nat {
        2
    }

    open spec fn spec_value(self) -> u32 {
        self as u32
    }

    fn size() -> (r: u32) {
        2
    }

    fn width() -> (r: Width) {
        Width::Half
    }

    fn to_u32(self) -> (r: u32) {
        let r = self as u32;
        assert(r & 0xFFFF == r) by (bit_vector)
            requires
                r <= 0xFFFF,
        ;
        r
    }

    fn from_u32(v: u32) -> (r: Self) {
        assert((v & 0xFFFF) <= 0xFFFF) by (bit_vector);
        (v & 0xFFFF) as u16
    }
}

impl MemoryValue for u32 {
    open spec fn spec_size() -> nat {
        4
    }

    open spec fn spec_value(self) -> u32 {
        self
    }

    fn size() -> (r: u32) {
        4
    }

    fn width() -> (r: Width) {
        Width::Word
    }

    fn to_u32(self) -> (r: u32) {
        assert(self & 0xFFFF_FFFF == self) by (bit_vector);
        self
    }

    fn from_u32(v: u32) -> (r: Self) {
        assert(v & 0xFFFF_FFFF == v) by (bit_vector);
        v
    }
}

/// Byte `i` of `v`, counting from the least significant.
pub open spec fn byte_of(v: u32, i: u32) -> u8 {
    ((v >> (8 * i)) & 0xFF) as u8
}

/// Replacing byte `i` of a word changes that byte alone.
pub proof fn lemma_replace_byte(w: u32, i: u32, v: u8, j: u32)
    requires
        i < 4,
        j < 4,
    ensures
        byte_of(spec_replace_byte(w, i, v), j) == if i == j {
            v
        } else {
            byte_of(w, j)
        },
{
    let x = v as u32;
    let r = spec_replace_byte(w, i, v);
    assert(x <= 0xFF);
    if i == j {
        assert(((((w & !(0xFFu32 << (8 * i))) | (x << (8 * i))) >> (8 * j)) & 0xFF) == x) by (bit_vector)
            requires
                i < 4,
                j < 4,
                i == j,
                x <= 0xFF,
        ;
    } else {
        assert(((((w & !(0xFFu32 << (8 * i))) | (x << (8 * i))) >> (8 * j)) & 0xFF) == ((w >> (8
            * j)) & 0xFF)) by (bit_vector)
            requires
                i < 4,
                j < 4,
                i != j,
                x <= 0xFF,
        ;
    }
}

/// Masking a word to its low `size` bytes keeps those bytes.
proof fn lemma_mask_keeps_bytes(w: u32, size: nat, j: u32)
    requires
        size == 1 || size == 2 || size == 4,
        j < size,
    ensures
        byte_of(w & low_mask(size), j) == byte_of(w, j),
{
    if size == 1 {
        assert((((w & 0xFF) >> (8 * j)) & 0xFF) == ((w >> (8 * j)) & 0xFF)) by (bit_vector)
            requires
                j < 1,
        ;
    } else if size == 2 {
        assert((((w & 0xFFFF) >> (8 * j)) & 0xFF) == ((w >> (8 * j)) & 0xFF)) by (bit_vector)
            requires
                j < 2,
        ;
    } else {
        assert((((w & 0xFFFF_FFFF) >> (8 * j)) & 0xFF) == ((w >> (8 * j)) & 0xFF)) by (bit_vector);
    }
}

proof fn lemma_or_byte(v: u32, b: u32, i: u32)
    requires
        i < 4,
        b <= 0xFF,
        v >> (8 * i) == 0,
    ensures
        forall|j: u32|
            j < 4 ==> #[trigger] byte_of(v | (b << (8 * i)), j) == if j == i {
                b as u8
            } else {
                byte_of(v, j)
            },
        i < 3 ==> (v | (b << (8 * i))) >> (8 * (i + 1)) == 0,
{
    assert forall|j: u32| j < 4 implies #[trigger] byte_of(v | (b << (8 * i)), j) == if j == i {
        b as u8
    } else {
        byte_of(v, j)
    } by {
        if j == i {
            assert((((v | (b << (8 * i))) >> (8 * j)) & 0xFF) == b) by (bit_vector)
                requires
                    i < 4,
                    j == i,
                    b <= 0xFF,
                    v >> (8 * i) == 0,
            ;
        } else {
            assert((((v | (b << (8 * i))) >> (8 * j)) & 0xFF) == ((v >> (8 * j)) & 0xFF))
                by (bit_vector)
                requires
                    i < 4,
                    j < 4,
                    j != i,
                    b <= 0xFF,
                    v >> (8 * i) == 0,
            ;
        }
    }
    if i < 3 {
        assert((v | (b << (8 * i))) >> (8 * (i + 1)) == 0) by (bit_vector)
            requires
                i < 3,
                b <= 0xFF,
                v >> (8 * i) == 0,
        ;
    }
}

proof fn lemma_short_value_fits(v: u32, size: u32)
    requires
        size == 1 || size == 2 || size == 4,
        size < 4 ==> v >> (8 * size) == 0,
    ensures
        v & low_mask(size as nat) == v,
{
    if size == 1 {
        assert(v & 0xFF == v) by (bit_vector)
            requires
                v >> 8 == 0,
        ;
    } else if size == 2 {
        assert(v & 0xFFFF == v) by (bit_vector)
            requires
                v >> 16 == 0,
        ;
    } else {
        assert(v & 0xFFFF_FFFF == v) by (bit_vector);
    }
}

impl HW {
    /// The little-endian value of type `T` stored at `addr` of `mem`.
    pub fn read_mem<T: MemoryValue>(mem: &Vec<u8>, addr: u32) -> (r: T)
        requires
            addr + T::spec_size() <= mem@.len(),
        ensures
            forall|i: u32|
                i < T::spec_size() ==> #[trigger] byte_of(r.spec_value(), i) == mem@[addr + i],
            r.spec_value() & low_mask(T::spec_size()) == r.spec_value(),
    {
        let size = T::size();
        let len = mem.len();
        let mut v: u32 = 0;
        let mut i: u32 = 0;
        proof {
            assert(0u32 >> 0u32 == 0) by (bit_vector);
        }
        while i < size
            invariant
                size == T::spec_size(),
                size == 1 || size == 2 || size == 4,
                addr + size <= mem@.len(),
                len == mem@.len(),
                i <= size,
                i < 4 ==> v >> (8 * i) == 0,
                forall|j: u32| j < i ==> #[trigger] byte_of(v, j) == mem@[addr + j],
            decreases size - i,
        {
            let b = mem[addr as usize + i as usize] as u32;
            proof {
                lemma_or_byte(v, b, i);
            }
            v = v | (b << (8 * i));
            i = i + 1;
        }
        proof {
            lemma_short_value_fits(v, size);
        }
        T::from_u32(v)
    }

    /// Stores `value` little-endian at `addr` of `mem`; the other bytes stay.
    pub fn write_mem<T: MemoryValue>(mem: &mut Vec<u8>, addr: u32, value: T)
        requires
            addr + T::spec_size() <= old(mem)@.len(),
        ensures
            final(mem)@.len() == old(mem)@.len(),
            forall|k: int|
                0 <= k < old(mem)@.len() ==> #[trigger] final(mem)@[k] == if addr <= k < addr
                    + T::spec_size() {
                    byte_of(value.spec_value(), (k - addr) as u32)
                } else {
                    old(mem)@[k]
                },
    {
        let size = T::size();
        let len = mem.len();
        let v = value.to_u32();
        let mut i: u32 = 0;
        while i < size
            invariant
                size == T::spec_size(),
                size == 1 || size == 2 || size == 4,
                v == value.spec_value(),
                addr + size <= old(mem)@.len(),
                len == old(mem)@.len(),
                i <= size,
                mem@.len() == old(mem)@.len(),
                forall|k: int|
                    0 <= k < old(mem)@.len() ==> #[trigger] mem@[k] == if addr <= k < addr + i {
                        byte_of(v, (k - addr) as u32)
                    } else {
                        old(mem)@[k]
                    },
            decreases size - i,
        {
            proof {
                assert(((v >> (8 * i)) & 0xFF) <= 0xFF) by (bit_vector);
            }
            let b = ((v >> (8 * i)) & 0xFF) as u8;
            mem.set(addr as usize + i as usize, b);
            i = i + 1;
        }
    }

    /// Byte `byte` of a register value.
    pub fn read_byte_from_value<T: MemoryValue>(value: &T, byte: usize) -> (r: u8)
        requires
            byte < T::spec_size(),
        ensures
            r == byte_of(value.spec_value(), byte as u32),
    {
        let size = T::size();
        let v = value.to_u32();
        let b = byte as u32;
        assert(b < size);
        assert(((v >> (8 * b)) & 0xFF) <= 0xFF) by (bit_vector);
        ((v >> (8 * b)) & 0xFF) as u8
    }

    /// Replaces byte `byte` of a register value; the other bytes stay.
    pub fn write_byte_to_value<T: MemoryValue>(value: &mut T, byte: usize, new_value: u8)
        requires
            byte < T::spec_size(),
        ensures
            forall|j: u32|
                j < T::spec_size() ==> #[trigger] byte_of(final(value).spec_value(), j) == if j
                    == byte as u32 {
                    new_value
                } else {
                    byte_of(old(value).spec_value(), j)
                },
            final(value).spec_value() & low_mask(T::spec_size()) == final(value).spec_value(),
    {
        let size = T::size();
        let w = replace_byte(value.to_u32(), byte as u32, new_value);
        *value = T::from_u32(w);
        proof {
            let fresh = final(value).spec_value();
            assert forall|j: u32| j < T::spec_size() implies #[trigger] byte_of(fresh, j) == if j
                == byte as u32 {
                new_value
            } else {
                byte_of(old(value).spec_value(), j)
            } by {
                lemma_mask_keeps_bytes(w, T::spec_size(), j);
                lemma_replace_byte(old(value).spec_value(), byte as u32, new_value, j);
            }
            let m = low_mask(T::spec_size());
            assert((w & m) & m == w & m) by (bit_vector);
        }
    }
}

/// Size of the shared work RAM in bytes.
pub const SHARED_WRAM_SIZE: u32 = 0x8000;

/// How the shared work RAM is split between the two CPUs.
#[derive(Clone, Copy, Debug, PartialEq, Eq, Structural)]
pub struct WRAMCNT {
    pub value: u8,
    pub arm7_offset: u32,
    pub arm7_mask: u32,
    pub arm9_offset: u32,
    pub arm9_mask: u32,
}

/// The split that setting `value` selects: 0 gives all to the ARM9, 1 the
/// second half to the ARM9 and the first to the ARM7, 2 the reverse, 3 all to
/// the ARM7. A mask of 0 means no access. This is the hardware's split;
/// every field is set for every value, so the split never depends on the
/// setting before it.
pub open spec fn wram_split(value: u8) -> (u32, u32, u32, u32) {
    if value == 0 {
        (0, 0, 0, (SHARED_WRAM_SIZE - 1) as u32)
    } else if value == 1 {
        (0, (SHARED_WRAM_SIZE / 2 - 1) as u32, SHARED_WRAM_SIZE / 2, (SHARED_WRAM_SIZE / 2 - 1) as u32)
    } else if value == 2 {
        (SHARED_WRAM_SIZE / 2, (SHARED_WRAM_SIZE / 2 - 1) as u32, 0, (SHARED_WRAM_SIZE / 2 - 1) as u32)
    } else {
        (0, (SHARED_WRAM_SIZE - 1) as u32, 0, 0)
    }
}

impl WRAMCNT {
    pub open spec fn wf(&self) -> bool {
        &&& self.value <= 3
        &&& (self.arm7_offset, self.arm7_mask, self.arm9_offset, self.arm9_mask) == wram_split(
            self.value,
        )
    }

    pub fn new(value: u8) -> (r: WRAMCNT)
        requires
            value <= 3,
        ensures
            r.wf(),
            r.value == value,
    {
        let mut wramcnt = WRAMCNT { value, arm7_offset: 0, arm7_mask: 0, arm9_offset: 0, arm9_mask: 0 };
        wramcnt.changed();
        wramcnt
    }

    /// Recomputes the split from `value`.
    pub fn changed(&mut self)
        requires
            old(self).value <= 3,
        ensures
            final(self).wf(),
            final(self).value == old(self).value,
    {
        if self.value == 0 {
            self.arm7_offset = 0;
            self.arm7_mask = 0;
            self.arm9_offset = 0;
            self.arm9_mask = SHARED_WRAM_SIZE - 1;
        } else if self.value == 1 {
            self.arm7_offset = 0;
            self.arm7_mask = SHARED_WRAM_SIZE / 2 - 1;
            self.arm9_offset = SHARED_WRAM_SIZE / 2;
            self.arm9_mask = SHARED_WRAM_SIZE / 2 - 1;
        } else if self.value == 2 {
            self.arm7_offset = SHARED_WRAM_SIZE / 2;
            self.arm7_mask = SHARED_WRAM_SIZE / 2 - 1;
            self.arm9_offset = 0;
            self.arm9_mask = SHARED_WRAM_SIZE / 2 - 1;
        } else {
            self.arm7_offset = 0;
            self.arm7_mask = SHARED_WRAM_SIZE - 1;
            self.arm9_offset = 0;
            self.arm9_mask = 0;
        }
    }

    pub fn read(&self) -> (r: u8)
        ensures
            r == self.value,
    {
        self.value
    }

    /// Takes the low two bits of `value` as the new setting.
    pub fn write(&mut self, value: u8)
        ensures
            final(self).wf(),
            final(self).value == value & 0x3,
    {
        assert(value & 0x3 <= 3) by (bit_vector);
        self.value = value & 0x3;
        self.changed();
    }
}

/// The sound and wireless power switches.
#[derive(Clone, Copy, Debug, PartialEq, Eq, Structural)]
pub struct POWCNT2 {
    pub enable_sound: bool,
    pub enable_wifi: bool,
}

impl POWCNT2 {
    pub fn new() -> (r: POWCNT2)
        ensures
            r.enable_sound,
            !r.enable_wifi,
    {
        POWCNT2 { enable_sound: true, enable_wifi: false }
    }

    /// Byte 0: bit 0 sound, bit 1 wireless; the other bytes read 0.
    pub fn read(&self, byte: usize) -> (r: u8)
        ensures
            byte == 0 ==> r == (if self.enable_wifi { 2u8 } else { 0u8 }) | (if self.enable_sound { 1u8 } else { 0u8 }),
            byte != 0 ==> r == 0,
    {
        if byte == 0 {
            (if self.enable_wifi {
                2u8
            } else {
                0u8
            }) | (if self.enable_sound {
                1u8
            } else {
                0u8
            })
        } else {
            0
        }
    }

    pub fn write(&mut self, byte: usize, value: u8)
        ensures
            byte == 0 ==> final(self).enable_sound == (value & 0x1 != 0) && final(self).enable_wifi
                == ((value >> 1u8) & 0x1 != 0),
            byte != 0 ==> *final(self) == *old(self),
    {
        if byte == 0 {
            self.enable_sound = value & 0x1 != 0;
            self.enable_wifi = (value >> 1u8) & 0x1 != 0;
        }
    }
}

/// The power state the CPU asked for.
#[derive(Clone, Copy, Debug, PartialEq, Eq, Structural)]
pub enum HaltMode {
    Running,
    GBA,
    Halt,
    Sleep,
}

impl HaltMode {
    /// The mode of the two-bit field `value`.
    pub fn from_bits(value: u8) -> (r: HaltMode)
        requires
            value <= 3,
        ensures
            value == 0 ==> r == HaltMode::Running,
            value == 1 ==> r == HaltMode::GBA,
            value == 2 ==> r == HaltMode::Halt,
            value == 3 ==> r == HaltMode::Sleep,
    {
        if value == 0 {
            HaltMode::Running
        } else if value == 1 {
            HaltMode::GBA
        } else if value == 2 {
            HaltMode::Halt
        } else {
            HaltMode::Sleep
        }
    }
}

/// The halt control register.
#[derive(Clone, Copy, Debug, PartialEq, Eq, Structural)]
pub struct HALTCNT {
    pub mode: HaltMode,
}

impl HALTCNT {
    pub fn new() -> (r: HALTCNT)
        ensures
            r.mode == HaltMode::Running,
    {
        HALTCNT { mode: HaltMode::Running }
    }

    pub fn unhalt(&mut self)
        ensures
            final(self).mode == HaltMode::Running,
    {
        self.mode = HaltMode::Running;
    }

    pub fn halted(&self) -> (r: bool)
        ensures
            r == (self.mode == HaltMode::Halt),
    {
        self.mode == HaltMode::Halt
    }

    /// Bits 6-7 hold the mode.
    pub fn read(&self) -> (r: u8)
        ensures
            r == (match self.mode {
                HaltMode::Running => 0u8,
                HaltMode::GBA => 0x40u8,
                HaltMode::Halt => 0x80u8,
                HaltMode::Sleep => 0xC0u8,
            }),
    {
        match self.mode {
            HaltMode::Running => 0,
            HaltMode::GBA => 0x40,
            HaltMode::Halt => 0x80,
            HaltMode::Sleep => 0xC0,
        }
    }

    /// Takes the mode from bits 6-7; the GBA and sleep modes are not modelled,
    /// so those values are left out.
    pub fn write(&mut self, value: u8)
        requires
            value >> 6u8 == 0 || value >> 6u8 == 2,
        ensures
            final(self).mode == if value >> 6u8 == 0 {
                HaltMode::Running
            } else {
                HaltMode::Halt
            },
    {
        assert(value >> 6u8 <= 3) by (bit_vector);
        self.mode = HaltMode::from_bits(value >> 6u8);
    }
}

} // verus!
