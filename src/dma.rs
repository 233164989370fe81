use vstd::prelude::*;

use crate::mmu::{AccessType, Bus, BusOp, Width};

verus! {

/// The hardware condition that starts a DMA channel.
#[derive(Clone, Copy, Debug, PartialEq, Eq, Structural)]
pub enum DMAOccasion {
    Immediate,
    VBlank,
    HBlank,
    StartOfDisplay,
    MainMemoryDisplay,
    DSCartridge,
    GBACartridge,
    GeometryCommandFIFO,
}

/// Control flags of a DMA channel. Address-control modes: 0 increment,
/// 1 decrement, 2 fixed, 3 (destination only) increment then reload.
#[derive(Clone, Copy, Debug, PartialEq, Eq, Structural)]
pub struct DMACnt {
    pub dest_addr_ctrl: u8,
    pub src_addr_ctrl: u8,
    pub repeat: bool,
    pub transfer_32: bool,
    pub start_timing: DMAOccasion,
    pub irq: bool,
    pub enable: bool,
}

/// A DMA channel: its control flags and the addresses and count latched when
/// it was triggered.
#[derive(Clone, Copy, Debug, PartialEq, Eq, Structural)]
pub struct DMAChannel {
    pub cnt: DMACnt,
    pub sad_latch: u32,
    pub dad_latch: u32,
    pub count_latch: u32,
}

/// What one DMA run did, in order: the (source, destination) address of each
/// unit, the value read at the source and written to the destination, each
/// wait-state query (kind, address, cycles the bus reported), and the cycles
/// spent.
pub struct DmaReport {
    pub transfers: Vec<(u32, u32)>,
    pub values: Vec<u32>,
    pub accesses: Vec<(AccessType, u32, u16)>,
    pub cycles: u64,
}

/// The access kind of unit `i`: the first is non-sequential, the rest
/// sequential.
pub open spec fn access_kind(i: int) -> AccessType {
    if i == 0 {
        AccessType::N
    } else {
        AccessType::S
    }
}

/// `r` reports a complete run of channel `c`: `count_latch` units, unit `i`
/// moved from and to the addresses the control modes give after `i` units,
/// its source then its destination timed with the unit's access kind, and the
/// run costing 2 cycles plus every reported wait state.
pub open spec fn reports_run(c: DMAChannel, r: DmaReport) -> bool {
    let unit = unit_size(c.cnt.transfer_32);
    let src = align_addr(c.sad_latch, c.cnt.transfer_32);
    let dest = align_addr(c.dad_latch, c.cnt.transfer_32);
    let n = c.count_latch as nat;
    &&& r.transfers@.len() == n
    &&& r.values@.len() == n
    &&& forall|i: int|
        0 <= i < n ==> #[trigger] r.transfers@[i] == (
            addr_after(src, c.cnt.src_addr_ctrl, unit, i as nat),
            addr_after(dest, c.cnt.dest_addr_ctrl, unit, i as nat),
        )
    &&& r.accesses@.len() == 2 * n
    &&& forall|i: int|
        0 <= i < n ==> (#[trigger] r.accesses@[2 * i]).0 == access_kind(i)
            && r.accesses@[2 * i].1 == r.transfers@[i].0 && r.accesses@[2 * i + 1].0
            == access_kind(i) && r.accesses@[2 * i + 1].1 == r.transfers@[i].1
    &&& r.cycles == 2 + sum_times(r.accesses@)
}

/// Bytes per unit.
pub open spec fn unit_size(transfer_32: bool) -> u32 {
    if transfer_32 {
        4
    } else {
        2
    }
}

/// The address with its low bits cleared to the unit's alignment.
pub open spec fn align_addr(addr: u32, transfer_32: bool) -> u32 {
    if transfer_32 {
        addr & 0xFFFF_FFFC
    } else {
        addr & 0xFFFF_FFFE
    }
}

/// The address after one unit under an address-control mode.
pub open spec fn step_addr(addr: u32, ctrl: u8, unit: u32) -> u32 {
    if ctrl == 0 || ctrl == 3 {
        ((addr + unit) % 0x1_0000_0000) as u32
    } else if ctrl == 1 {
        ((addr - unit) % 0x1_0000_0000) as u32
    } else {
        addr
    }
}

/// The address after `n` units.
pub open spec fn addr_after(addr: u32, ctrl: u8, unit: u32, n: nat) -> u32
    decreases n,
{
    if n == 0 {
        addr
    } else {
        step_addr(addr_after(addr, ctrl, unit, (n - 1) as nat), ctrl, unit)
    }
}

/// The access width of a unit.
pub open spec fn unit_width(transfer_32: bool) -> Width {
    if transfer_32 {
        Width::Word
    } else {
        Width::Half
    }
}

/// The bus calls of `i` units of the run that `r` reports, appended to the
/// log `o` to give `n`: for each unit, the wait states of its source then of
/// its destination, a read at the source, and a write of the value read at
/// the destination.
pub open spec fn bus_ran(c: DMAChannel, r: DmaReport, arm9: bool, i: nat, o: Seq<BusOp>, n: Seq<BusOp>) -> bool {
    bus_log(arm9, unit_width(c.cnt.transfer_32), r.transfers@, r.values@, r.accesses@, i, o, n)
}

/// `bus_ran` over the report's three lists.
pub open spec fn bus_log(
    arm9: bool,
    w: Width,
    transfers: Seq<(u32, u32)>,
    values: Seq<u32>,
    accesses: Seq<(AccessType, u32, u16)>,
    i: nat,
    o: Seq<BusOp>,
    n: Seq<BusOp>,
) -> bool {
    &&& n.len() == o.len() + 4 * i
    &&& forall|j: int| 0 <= j < o.len() ==> #[trigger] n[j] == o[j]
    &&& forall|k: int|
        0 <= k < i ==> {
            &&& n[o.len() + 4 * k] == BusOp::AccessTime(
                arm9,
                access_kind(k),
                (#[trigger] transfers[k]).0,
                w,
                accesses[2 * k].2,
            )
            &&& n[o.len() + 4 * k + 1] == BusOp::AccessTime(
                arm9,
                access_kind(k),
                transfers[k].1,
                w,
                accesses[2 * k + 1].2,
            )
            &&& n[o.len() + 4 * k + 2] == BusOp::Read(arm9, transfers[k].0, w, values[k])
            &&& n[o.len() + 4 * k + 3] == BusOp::Write(arm9, transfers[k].1, w, values[k])
        }
}

/// The sum of the reported wait states.
pub open spec fn sum_times(s: Seq<(AccessType, u32, u16)>) -> nat
    decreases s.len(),
{
    if s.len() == 0 {
        0
    } else {
        sum_times(s.drop_last()) + s.last().2 as nat
    }
}

fn step(addr: u32, ctrl: u8, unit: u32) -> (r: u32)
    requires
        ctrl <= 3,
    ensures
        r == step_addr(addr, ctrl, unit),
{
    if ctrl == 0 || ctrl == 3 {
        addr.wrapping_add(unit)
    } else if ctrl == 1 {
        addr.wrapping_sub(unit)
    } else {
        addr
    }
}

/// Under the increment mode the address after `n` units is the start plus
/// `n` units, modulo 2^32.
pub proof fn lemma_increment_walk(addr: u32, unit: u32, n: nat)
    ensures
        addr_after(addr, 0, unit, n) == (addr + unit * n) % 0x1_0000_0000,
    decreases n,
{
    if n > 0 {
        lemma_increment_walk(addr, unit, (n - 1) as nat);
        let prev = (addr + unit * (n - 1)) % 0x1_0000_0000;
        assert(unit * n == unit * (n - 1) + unit) by (nonlinear_arith);
        assert((prev + unit) % 0x1_0000_0000 == (addr + unit * (n - 1) + unit) % 0x1_0000_0000)
            by {
            vstd::arithmetic::div_mod::lemma_add_mod_noop(
                addr + unit * (n - 1),
                unit as int,
                0x1_0000_0000,
            );
            vstd::arithmetic::div_mod::lemma_mod_twice(unit as int, 0x1_0000_0000);
            vstd::arithmetic::div_mod::lemma_add_mod_noop(prev, unit as int, 0x1_0000_0000);
            vstd::arithmetic::div_mod::lemma_mod_twice(addr + unit * (n - 1), 0x1_0000_0000);
        }
        let p = addr_after(addr, 0, unit, (n - 1) as nat);
        assert(p as int == prev);
        assert(addr_after(addr, 0, unit, n) == step_addr(p, 0, unit));
        assert(step_addr(p, 0, unit) as int == (prev + unit) % 0x1_0000_0000);
        assert(addr + unit * (n - 1) + unit == addr + unit * n);
    } else {
        assert(unit * n == 0) by (nonlinear_arith)
            requires
                n == 0,
        ;
    }
}

/// The channel after a complete run: final source address, destination
/// address (the starting one under mode 3), and the enable flag kept only for
/// a repeating channel that is not an immediate one.
pub open spec fn ran(c: DMAChannel) -> DMAChannel {
    let unit = unit_size(c.cnt.transfer_32);
    let src = align_addr(c.sad_latch, c.cnt.transfer_32);
    let dest = align_addr(c.dad_latch, c.cnt.transfer_32);
    let n = c.count_latch as nat;
    DMAChannel {
        cnt: DMACnt { enable: c.cnt.start_timing != DMAOccasion::Immediate && c.cnt.repeat, ..c.cnt },
        sad_latch: addr_after(src, c.cnt.src_addr_ctrl, unit, n),
        dad_latch: if c.cnt.dest_addr_ctrl == 3 {
            dest
        } else {
            addr_after(dest, c.cnt.dest_addr_ctrl, unit, n)
        },
        count_latch: c.count_latch,
    }
}

/// A 16-bit run of `count` units with both addresses incrementing leaves
/// each latch `2 * count` bytes past its aligned start, modulo 2^32.
pub proof fn lemma_increment_run(c: DMAChannel)
    requires
        c.wf(),
        !c.cnt.transfer_32,
        c.cnt.src_addr_ctrl == 0,
        c.cnt.dest_addr_ctrl == 0,
    ensures
        ran(c).sad_latch == (align_addr(c.sad_latch, false) + 2 * c.count_latch) % 0x1_0000_0000,
        ran(c).dad_latch == (align_addr(c.dad_latch, false) + 2 * c.count_latch) % 0x1_0000_0000,
{
    lemma_increment_walk(align_addr(c.sad_latch, false), 2, c.count_latch as nat);
    lemma_increment_walk(align_addr(c.dad_latch, false), 2, c.count_latch as nat);
}

/// Under the increment-then-reload destination mode a run leaves the
/// destination latch at its aligned start, wherever the writes went.
pub proof fn lemma_reload_keeps_destination(c: DMAChannel)
    requires
        c.wf(),
        c.cnt.dest_addr_ctrl == 3,
    ensures
        ran(c).dad_latch == align_addr(c.dad_latch, c.cnt.transfer_32),
{
}

impl DMACnt {
    pub open spec fn spec_new() -> DMACnt {
        DMACnt {
            dest_addr_ctrl: 0,
            src_addr_ctrl: 0,
            repeat: false,
            transfer_32: false,
            start_timing: DMAOccasion::Immediate,
            irq: false,
            enable: false,
        }
    }

    /// All flags clear, both address modes incrementing, immediate start.
    pub fn new() -> (r: DMACnt)
        ensures
            r == DMACnt::spec_new(),
    {
        DMACnt {
            dest_addr_ctrl: 0,
            src_addr_ctrl: 0,
            repeat: false,
            transfer_32: false,
            start_timing: DMAOccasion::Immediate,
            irq: false,
            enable: false,
        }
    }
}

impl DMAChannel {
    /// Valid address-control modes.
    pub open spec fn wf(&self) -> bool {
        self.cnt.src_addr_ctrl <= 2 && self.cnt.dest_addr_ctrl <= 3
    }

    pub fn new() -> (r: DMAChannel)
        ensures
            r.wf(),
            r.cnt == DMACnt::spec_new(),
            r.sad_latch == 0,
            r.dad_latch == 0,
            r.count_latch == 0,
    {
        DMAChannel { cnt: DMACnt::new(), sad_latch: 0, dad_latch: 0, count_latch: 0 }
    }

    /// Performs the whole latched transfer: `count_latch` units, each read from
    /// the source and written to the destination, both walked by their
    /// address-control modes from the aligned latches. Afterwards the latches
    /// hold the final addresses (the starting destination under mode 3), the
    /// channel stays enabled only when it repeats and is not an immediate one,
    /// and the run costs 2 cycles plus every reported wait state (see
    /// `reports_run`).
    pub fn run<B: Bus>(&mut self, bus: &mut B, arm9: bool) -> (r: DmaReport)
        requires
            old(self).wf(),
        ensures
            final(self).wf(),
            *final(self) == ran(*old(self)),
            reports_run(*old(self), r),
            bus_ran(*old(self), r, arm9, old(self).count_latch as nat, old(bus).ops(), final(bus).ops()),
    {
        let count = self.count_latch;
        let src_ctrl = self.cnt.src_addr_ctrl;
        let dest_ctrl = self.cnt.dest_addr_ctrl;
        let transfer_32 = self.cnt.transfer_32;
        self.cnt.enable = self.cnt.start_timing != DMAOccasion::Immediate && self.cnt.repeat;
        let (unit, width): (u32, Width) = if transfer_32 {
            (4u32, Width::Word)
        } else {
            (2u32, Width::Half)
        };
        let mut src = if transfer_32 {
            self.sad_latch & 0xFFFF_FFFC
        } else {
            self.sad_latch & 0xFFFF_FFFE
        };
        let mut dest = if transfer_32 {
            self.dad_latch & 0xFFFF_FFFC
        } else {
            self.dad_latch & 0xFFFF_FFFE
        };
        let ghost src0 = src;
        let ghost dest0 = dest;
        let start_dest = dest;
        let mut transfers: Vec<(u32, u32)> = Vec::new();
        let mut values: Vec<u32> = Vec::new();
        let mut times: Vec<(AccessType, u32, u16)> = Vec::new();
        let mut cycles: u64 = 0;
        let mut i: u32 = 0;
        let ghost log0 = bus.ops();
        assert(bus.ops() == old(bus).ops());
        while i < count
            invariant
                i <= count,
                log0 == old(bus).ops(),
                width == unit_width(transfer_32),
                bus_log(arm9, width, transfers@, values@, times@, i as nat, log0, bus.ops()),
                src_ctrl <= 2,
                dest_ctrl <= 3,
                unit == unit_size(transfer_32),
                src == addr_after(src0, src_ctrl, unit, i as nat),
                dest == addr_after(dest0, dest_ctrl, unit, i as nat),
                transfers@.len() == i,
                forall|k: int|
                    0 <= k < i ==> #[trigger] transfers@[k] == (
                        addr_after(src0, src_ctrl, unit, k as nat),
                        addr_after(dest0, dest_ctrl, unit, k as nat),
                    ),
                values@.len() == i,
                times@.len() == 2 * i,
                forall|k: int|
                    0 <= k < i ==> (#[trigger] times@[2 * k]).0 == access_kind(k)
                        && times@[2 * k].1 == transfers@[k].0 && times@[2 * k + 1].0
                        == access_kind(k) && times@[2 * k + 1].1 == transfers@[k].1,
                cycles == sum_times(times@),
                cycles <= 131070 * (i as int),
            decreases count - i,
        {
            let kind = if i == 0 {
                AccessType::N
            } else {
                AccessType::S
            };
            let ghost ops0 = bus.ops();
            let ghost tr0 = transfers@;
            let ghost va0 = values@;
            let t1 = bus.access_time(arm9, kind, src, width);
            let t2 = bus.access_time(arm9, kind, dest, width);
            let ghost before = times@;
            times.push((kind, src, t1));
            times.push((kind, dest, t2));
            proof {
                assert(times@.drop_last() =~= before.push((kind, src, t1)));
                assert(before.push((kind, src, t1)).drop_last() =~= before);
                assert(sum_times(before.push((kind, src, t1))) == sum_times(before) + t1);
                assert(sum_times(times@) == sum_times(before) + t1 + t2);
                assert(times@[2 * i as int] == (kind, src, t1));
                assert(times@[2 * i + 1] == (kind, dest, t2));
                assert(kind == access_kind(i as int));
            }
            assert(cycles + t1 + t2 <= 131070 * (i as int) + 131070);
            assert(131070 * (i as int) + 131070 <= 0x10_0000_0000_0000);
            cycles = cycles + t1 as u64 + t2 as u64;
            let value = bus.read(arm9, src, width);
            bus.write(arm9, dest, width, value);
            values.push(value);
            let ghost prev = transfers@;
            transfers.push((src, dest));
            proof {
                assert forall|k: int| 0 <= k < i + 1 implies (#[trigger] times@[2 * k]).0
                    == access_kind(k) && times@[2 * k].1 == transfers@[k].0 && times@[2 * k
                    + 1].0 == access_kind(k) && times@[2 * k + 1].1 == transfers@[k].1 by {
                    if k < i {
                        assert(times@[2 * k] == before[2 * k]);
                        assert(times@[2 * k + 1] == before[2 * k + 1]);
                        assert(transfers@[k] == prev[k]);
                    }
                }
                let m = log0.len() + 4 * i;
                assert(ops0.len() == m);
                assert(bus.ops() == ops0.push(BusOp::AccessTime(arm9, kind, src, width, t1)).push(
                    BusOp::AccessTime(arm9, kind, dest, width, t2),
                ).push(BusOp::Read(arm9, src, width, value)).push(
                    BusOp::Write(arm9, dest, width, value),
                ));
                assert forall|k: int|
                    0 <= k < i + 1 implies {
                    &&& bus.ops()[log0.len() + 4 * k] == BusOp::AccessTime(
                        arm9,
                        access_kind(k),
                        (#[trigger] transfers@[k]).0,
                        width,
                        times@[2 * k].2,
                    )
                    &&& bus.ops()[log0.len() + 4 * k + 1] == BusOp::AccessTime(
                        arm9,
                        access_kind(k),
                        transfers@[k].1,
                        width,
                        times@[2 * k + 1].2,
                    )
                    &&& bus.ops()[log0.len() + 4 * k + 2] == BusOp::Read(arm9, transfers@[k].0, width, values@[k])
                    &&& bus.ops()[log0.len() + 4 * k + 3] == BusOp::Write(arm9, transfers@[k].1, width, values@[k])
                } by {
                    if k < i {
                        assert(transfers@[k] == tr0[k]);
                        assert(values@[k] == va0[k]);
                        assert(times@[2 * k] == before[2 * k]);
                        assert(times@[2 * k + 1] == before[2 * k + 1]);
                        assert(bus.ops()[log0.len() + 4 * k] == ops0[log0.len() + 4 * k]);
                        assert(bus.ops()[log0.len() + 4 * k + 1] == ops0[log0.len() + 4 * k + 1]);
                        assert(bus.ops()[log0.len() + 4 * k + 2] == ops0[log0.len() + 4 * k + 2]);
                        assert(bus.ops()[log0.len() + 4 * k + 3] == ops0[log0.len() + 4 * k + 3]);
                    } else {
                        assert(k == i);
                        assert(values@[k] == value);
                        assert(transfers@[k] == (src, dest));
                    }
                }
                assert forall|j: int| 0 <= j < log0.len() implies #[trigger] bus.ops()[j] == log0[j] by {
                    assert(bus.ops()[j] == ops0[j]);
                }
            }
            src = step(src, src_ctrl, unit);
            dest = step(dest, dest_ctrl, unit);
            i = i + 1;
        }
        self.sad_latch = src;
        self.dad_latch = if dest_ctrl == 3 {
            start_dest
        } else {
            dest
        };
        DmaReport { transfers, values, accesses: times, cycles: cycles + 2 }
    }
}

} // verus!
