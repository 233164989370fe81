use vstd::prelude::*;

use crate::display::{DISPSTAT, Display};
use crate::dma::{bus_ran, ran, reports_run, DMACnt, DMAChannel, DMAOccasion, DmaReport};
use crate::mmu::{Bus, BusOp};
use crate::scheduler::{due_at, Event, Scheduler};
use crate::spu::{channel_reset, channel_stepped, StepError, SPU};

verus! {

pub const IRQ_VBLANK: u32 = 0x1;

pub const IRQ_HBLANK: u32 = 0x2;

pub const IRQ_VCOUNTER_MATCH: u32 = 0x4;

/// The request bit of DMA channel 0; channel `n` uses this bit shifted by `n`.
pub const IRQ_DMA0: u32 = 0x100;

pub const IRQ_GAME_CARD_TRANSFER_COMPLETION: u32 = 0x8_0000;

/// The pending interrupt requests of one CPU.
#[derive(Clone, Copy, Debug, PartialEq, Eq, Structural)]
pub struct InterruptController {
    pub request: u32,
}

/// The four DMA channels of one CPU.
pub struct DMAController {
    pub channels: Vec<DMAChannel>,
}

impl DMAController {
    pub open spec fn wf(&self) -> bool {
        &&& self.channels@.len() == 4
        &&& forall|i: int| 0 <= i < 4 ==> (#[trigger] self.channels@[i]).wf()
    }

    pub fn new() -> (r: DMAController)
        ensures
            r.wf(),
            forall|i: int|
                0 <= i < 4 ==> (#[trigger] r.channels@[i]).cnt == DMACnt::spec_new()
                    && r.channels@[i].sad_latch == 0 && r.channels@[i].dad_latch == 0
                    && r.channels@[i].count_latch == 0,
    {
        let mut channels: Vec<DMAChannel> = Vec::new();
        let mut i: usize = 0;
        while i < 4
            invariant
                i <= 4,
                channels@.len() == i,
                forall|k: int|
                    0 <= k < i ==> (#[trigger] channels@[k]).wf() && channels@[k].cnt
                        == DMACnt::spec_new() && channels@[k].sad_latch == 0
                        && channels@[k].dad_latch == 0 && channels@[k].count_latch == 0,
            decreases 4 - i,
        {
            channels.push(DMAChannel::new());
            i = i + 1;
        }
        DMAController { channels }
    }
}

/// Channel `i` of `ctrl` is enabled and starts on `occasion`.
pub open spec fn triggered(ctrl: DMAController, occasion: DMAOccasion, i: usize) -> bool {
    &&& i < ctrl.channels@.len()
    &&& ctrl.channels@[i as int].cnt.enable
    &&& ctrl.channels@[i as int].cnt.start_timing == occasion
}

/// The DMA runs that `occasion` makes due at `cycle`: one for each channel of
/// either CPU that is enabled and starts on it.
pub open spec fn dma_triggers(
    dma7: DMAController,
    dma9: DMAController,
    occasion: DMAOccasion,
    cycle: usize,
) -> Map<Event, nat> {
    Map::new(
        |e: Event|
            match e {
                Event::DMA(is9, i) => if is9 {
                    triggered(dma9, occasion, i)
                } else {
                    triggered(dma7, occasion, i)
                },
                _ => false,
            },
        |e: Event| cycle as nat,
    )
}

spec fn partial_triggers(
    ctrl: DMAController,
    is9: bool,
    occasion: DMAOccasion,
    upto: usize,
    cycle: usize,
) -> Map<Event, nat> {
    Map::new(
        |e: Event|
            match e {
                Event::DMA(b, i) => b == is9 && i < upto && triggered(ctrl, occasion, i),
                _ => false,
            },
        |e: Event| cycle as nat,
    )
}

fn trigger_controller(
    ctrl: &DMAController,
    is9: bool,
    occasion: DMAOccasion,
    sched: &mut Scheduler,
)
    requires
        ctrl.wf(),
        old(sched).wf(),
    ensures
        final(sched).wf(),
        final(sched).cycle == old(sched).cycle,
        final(sched).pending() == old(sched).pending().union_prefer_right(
            partial_triggers(*ctrl, is9, occasion, 4, old(sched).cycle),
        ),
{
    let ghost start = sched.pending();
    let mut i: usize = 0;
    proof {
        assert(start.union_prefer_right(partial_triggers(*ctrl, is9, occasion, 0, sched.cycle))
            =~= start);
    }
    while i < 4
        invariant
            i <= 4,
            ctrl.wf(),
            sched.wf(),
            sched.cycle == old(sched).cycle,
            start == old(sched).pending(),
            sched.pending() == start.union_prefer_right(
                partial_triggers(*ctrl, is9, occasion, i, sched.cycle),
            ),
        decreases 4 - i,
    {
        let ch = &ctrl.channels[i];
        if ch.cnt.enable && ch.cnt.start_timing == occasion {
            sched.run_now(Event::DMA(is9, i));
        }
        proof {
            assert(sched.pending() =~= start.union_prefer_right(
                partial_triggers(*ctrl, is9, occasion, (i + 1) as usize, sched.cycle),
            ));
        }
        i = i + 1;
    }
}

/// What handling `event` does, as `HW::handle_event` states it: `before`
/// and `after` are the context before and after, `due` the cycle the event
/// was due at, `bus_before` and `bus_after` the bus log before and after, `r`
/// the result.
pub open spec fn handled(
    before: HW,
    after: HW,
    event: Event,
    due: usize,
    bus_before: Seq<BusOp>,
    bus_after: Seq<BusOp>,
    r: Result<Outcome, StepError>,
) -> bool {
    &&& (forall|e: Event|
        before.scheduler.pending().contains_key(e)
            ==> #[trigger] after.scheduler.pending().contains_key(e))
    &&& (match event {
        Event::StepAudioChannel(spec) => match r {
            Ok(_) => exists|read: Option<u32>|
                #[trigger] channel_stepped(
                    before.spu,
                    after.spu,
                    spec,
                    before.scheduler.pending(),
                    after.scheduler.pending(),
                    before.scheduler.cycle,
                    bus_before,
                    bus_after,
                    Ok::<Option<u32>, StepError>(read),
                ),
            Err(e) => channel_stepped(
                before.spu,
                after.spu,
                spec,
                before.scheduler.pending(),
                after.scheduler.pending(),
                before.scheduler.cycle,
                bus_before,
                bus_after,
                Err(e),
            ),
        },
        Event::ResetAudioChannel(spec) => channel_reset(before.spu, after.spu, spec)
            && after.scheduler == before.scheduler,
        Event::DMA(is9, num) => num < 4 ==> forall|cpu: int|
            0 <= cpu < 2 ==> #[trigger] after.request(cpu) == if (if is9 {
                before.dma9.channels@[num as int]
            } else {
                before.dma7.channels@[num as int]
            }).cnt.irq {
                before.request(cpu) | HW::dma_irq_bit(num)
            } else {
                before.request(cpu)
            },
        _ => true
    })
    &&& (match event {
        Event::TimerOverflow(is9, num) => r == Ok::<Outcome, StepError>(Outcome::TimerOverflow(is9, num)),
        Event::ROMBlockEnded(is_arm7) => r == Ok::<Outcome, StepError>(Outcome::CartridgeBlockEnded(is_arm7)),
        Event::ROMWordTransfered => r == Ok::<Outcome, StepError>(Outcome::CartridgeWordTransferred),
        Event::StepAudioChannel(_) => r is Ok ==> r == Ok::<Outcome, StepError>(Outcome::Done),
        _ => r == Ok::<Outcome, StepError>(Outcome::Done)
    })
    &&& (match event {
        Event::StepAudioChannel(_) => after.scheduler.cycle == before.scheduler.cycle,
        Event::DMA(_, num) => num >= 4 ==> after.scheduler == before.scheduler,
        _ => after.scheduler.cycle == before.scheduler.cycle
    })
    &&& (event == Event::StartNextLine ==> ({
        let v = after.display.vcount;
        let entered = v == crate::display::VISIBLE_LINES;
        let c = before.scheduler.cycle;
        let p = before.scheduler.pending().insert(
            Event::HBlank,
            due_at(c, crate::display::HBLANK_START),
        ).insert(Event::StartNextLine, due_at(c, crate::display::LINE_CYCLES));
        &&& v == (before.display.vcount + 1) % (crate::display::TOTAL_LINES as int)
        &&& after.scheduler.pending() == if entered {
            p.insert(Event::VBlank, c as nat)
        } else {
            p
        }
        &&& after.request(0) == checked(
            before.display.dispstat7,
            if entered {
                checked(before.display.dispstat7, before.request(0), DispstatCheck::VBlank)
            } else {
                before.request(0)
            },
            DispstatCheck::VCounter(v),
        )
        &&& after.request(1) == checked(
            before.display.dispstat9,
            if entered {
                checked(before.display.dispstat9, before.request(1), DispstatCheck::VBlank)
            } else {
                before.request(1)
            },
            DispstatCheck::VCounter(v),
        )
        &&& after.dma7 == before.dma7
        &&& after.dma9 == before.dma9
        &&& after.spu == before.spu
    }))
    &&& (event == Event::HBlank ==> ({
        &&& after.scheduler.pending() == if before.display.vcount
            < crate::display::VISIBLE_LINES {
            before.scheduler.pending().union_prefer_right(
                dma_triggers(before.dma7, before.dma9, DMAOccasion::HBlank, before.scheduler.cycle),
            )
        } else {
            before.scheduler.pending()
        }
        &&& after.request(0) == checked(before.display.dispstat7, before.request(0), DispstatCheck::HBlank)
        &&& after.request(1) == checked(before.display.dispstat9, before.request(1), DispstatCheck::HBlank)
        &&& after.display.vcount == before.display.vcount
        &&& after.display.dispstat7.hblank
        &&& after.display.dispstat9.hblank
    }))
    &&& (event == Event::VBlank ==> ({
        &&& after.scheduler.pending() == before.scheduler.pending().union_prefer_right(
            dma_triggers(before.dma7, before.dma9, DMAOccasion::VBlank, before.scheduler.cycle),
        )
        &&& after.interrupts == before.interrupts
        &&& after.display.render_requests == if before.display.enable_3d {
            if before.display.render_requests < u64::MAX {
                (before.display.render_requests + 1) as u64
            } else {
                u64::MAX
            }
        } else {
            before.display.render_requests
        }
    }))
    &&& (event == Event::ROMWordTransfered ==> after.scheduler.pending()
        == before.scheduler.pending().union_prefer_right(
        dma_triggers(before.dma7, before.dma9, DMAOccasion::DSCartridge, before.scheduler.cycle),
    ))
    &&& (event == Event::GenerateAudioSample ==> after.scheduler.pending()
        == before.scheduler.pending().insert(
        Event::GenerateAudioSample,
        due_at(due, before.spu.clocks_per_sample),
    ) && after.spu.output@ == before.spu.output@.push(before.spu.spec_mixed())
        && after.spu.clocks_per_sample == before.spu.clocks_per_sample)
    &&& (match event {
        Event::DMA(is9, num) => num < 4 ==> ({
            let ch = if is9 {
                before.dma9.channels@[num as int]
            } else {
                before.dma7.channels@[num as int]
            };
            &&& is9 ==> after.dma9.channels@[num as int] == ran(ch)
            &&& !is9 ==> after.dma7.channels@[num as int] == ran(ch)
            &&& after.scheduler.pending() == before.scheduler.pending()
            &&& dma_clock(ch, is9, before.scheduler.cycle, after.scheduler.cycle, bus_before, bus_after)
        }),
        Event::TimerOverflow(_, _) | Event::ROMBlockEnded(_) => after.scheduler
            == before.scheduler && after.interrupts == before.interrupts,
        _ => true
    })
}

/// Handling the heartbeat tick due at `due` re-arms it exactly one period
/// after that tick, whatever the clock reads when it fires, and keeps the
/// period; successive firings therefore form a `heartbeat_chain`, whose
/// ticks never drift (`lemma_heartbeat_no_drift`). A firing left still due
/// is taken again by the next `dispatch_next`, so no tick is lost.
pub proof fn lemma_heartbeat_rearm(
    before: HW,
    after: HW,
    due: usize,
    bus_before: Seq<BusOp>,
    bus_after: Seq<BusOp>,
    r: Result<Outcome, StepError>,
)
    requires
        handled(before, after, Event::GenerateAudioSample, due, bus_before, bus_after, r),
        due + before.spu.clocks_per_sample <= usize::MAX,
    ensures
        after.scheduler.pending().contains_key(Event::GenerateAudioSample),
        after.scheduler.pending()[Event::GenerateAudioSample] == due
            + before.spu.clocks_per_sample,
        after.spu.clocks_per_sample == before.spu.clocks_per_sample,
{
}

/// `mid` is `o` with pending event `e` taken out of the queue and nothing
/// else changed.
pub open spec fn popped(o: HW, mid: HW, e: Event) -> bool {
    &&& mid.wf()
    &&& mid.scheduler.cycle == o.scheduler.cycle
    &&& mid.scheduler.pending() == o.scheduler.pending().remove(e)
    &&& mid.dma7 == o.dma7
    &&& mid.dma9 == o.dma9
    &&& mid.interrupts == o.interrupts
    &&& mid.display == o.display
    &&& mid.spu == o.spu
}

/// Some complete run of channel `ch` of the ARM9 (`is9`) or the ARM7 made
/// the bus calls that take the log from `bo` to `bn` and moved the clock from
/// `c0` to `c1`.
pub open spec fn dma_clock(ch: DMAChannel, is9: bool, c0: usize, c1: usize, bo: Seq<BusOp>, bn: Seq<BusOp>) -> bool {
    exists|rep: DmaReport|
        #[trigger] reports_run(ch, rep) && bus_ran(ch, rep, is9, ch.count_latch as nat, bo, bn) && c1 == due_at(
            c0,
            if rep.cycles <= usize::MAX {
                rep.cycles as usize
            } else {
                usize::MAX
            },
        )
}

/// Which interrupt a display status check evaluates.
#[derive(Clone, Copy, Debug, PartialEq, Eq, Structural)]
pub enum DispstatCheck {
    /// The vertical blank began: requested where its interrupt is enabled.
    VBlank,
    /// The horizontal blank began: requested where its interrupt is enabled.
    HBlank,
    /// A line began: the match is requested where it equals the match line.
    VCounter(u16),
}

/// A CPU's requests after a display status check.
pub open spec fn checked(d: DISPSTAT, request: u32, check: DispstatCheck) -> u32 {
    match check {
        DispstatCheck::VBlank => if d.vblank_irq_enable {
            request | IRQ_VBLANK
        } else {
            request
        },
        DispstatCheck::HBlank => if d.hblank_irq_enable {
            request | IRQ_HBLANK
        } else {
            request
        },
        DispstatCheck::VCounter(v) => if v == d.vcount_setting {
            request | IRQ_VCOUNTER_MATCH
        } else {
            request
        },
    }
}

fn check_dispstat(d: &DISPSTAT, request: u32, check: DispstatCheck) -> (r: u32)
    ensures
        r == checked(*d, request, check),
{
    match check {
        DispstatCheck::VBlank => if d.vblank_irq_enable {
            request | IRQ_VBLANK
        } else {
            request
        },
        DispstatCheck::HBlank => if d.hblank_irq_enable {
            request | IRQ_HBLANK
        } else {
            request
        },
        DispstatCheck::VCounter(v) => if v == d.vcount_setting {
            request | IRQ_VCOUNTER_MATCH
        } else {
            request
        },
    }
}

/// What the owner of the context still has to do after an event: the
/// timers and the cartridge are its own.
#[derive(Clone, Copy, Debug, PartialEq, Eq, Structural)]
pub enum Outcome {
    Done,
    /// A timer overflowed: (on the ARM9 side, timer number).
    TimerOverflow(bool, usize),
    /// The cartridge finished a word.
    CartridgeWordTransferred,
    /// The cartridge block ended: (on the ARM7 side). If the cartridge
    /// reports completion, call `complete_cartridge_block`.
    CartridgeBlockEnded(bool),
}

/// The hardware state that every event handler works on.
pub struct HW {
    pub scheduler: Scheduler,
    pub dma7: DMAController,
    pub dma9: DMAController,
    /// Requests of the ARM7 (index 0) and of the ARM9 (index 1).
    pub interrupts: Vec<InterruptController>,
    pub display: Display,
    pub spu: SPU,
}

impl HW {
    pub open spec fn wf(&self) -> bool {
        &&& self.scheduler.wf()
        &&& self.dma7.wf()
        &&& self.dma9.wf()
        &&& self.interrupts@.len() == 2
        &&& self.display.wf()
        &&& self.spu.wf()
    }

    /// Well formed, with the audio heartbeat pending.
    pub open spec fn running(&self) -> bool {
        &&& self.wf()
        &&& self.scheduler.pending().contains_key(Event::GenerateAudioSample)
    }

    pub open spec fn request(&self, cpu: int) -> u32 {
        self.interrupts@[cpu].request
    }

    /// A powered-on context at cycle 0: display timing and the audio heartbeat
    /// armed, every DMA and audio channel stopped, no interrupt requested.
    pub fn new(sample_rate: usize) -> (r: HW)
        requires
            0 < sample_rate <= crate::spu::CLOCK_RATE,
        ensures
            r.running(),
            r.scheduler.cycle == 0,
            r.request(0) == 0,
            r.request(1) == 0,
            r.display.vcount == 0,
            r.spu.clocks_per_sample == crate::spu::CLOCK_RATE / sample_rate,
            r.scheduler.pending() == Map::<Event, nat>::empty().insert(
                Event::HBlank,
                crate::display::HBLANK_START as nat,
            ).insert(Event::StartNextLine, crate::display::LINE_CYCLES as nat).insert(
                Event::GenerateAudioSample,
                (crate::spu::CLOCK_RATE / sample_rate) as nat,
            ),
    {
        let mut scheduler = Scheduler::new();
        let display = Display::new(&mut scheduler);
        let spu = SPU::new(&mut scheduler, sample_rate);
        let mut interrupts: Vec<InterruptController> = Vec::new();
        interrupts.push(InterruptController { request: 0 });
        interrupts.push(InterruptController { request: 0 });
        HW { scheduler, dma7: DMAController::new(), dma9: DMAController::new(), interrupts, display, spu }
    }

    /// Applies a display status check to both CPUs.
    pub fn check_dispstats(&mut self, check: DispstatCheck)
        requires
            old(self).wf(),
        ensures
            final(self).wf(),
            final(self).request(0) == checked(old(self).display.dispstat7, old(self).request(0), check),
            final(self).request(1) == checked(old(self).display.dispstat9, old(self).request(1), check),
            final(self).scheduler == old(self).scheduler,
            final(self).dma7 == old(self).dma7,
            final(self).dma9 == old(self).dma9,
            final(self).display == old(self).display,
            final(self).spu == old(self).spu,
    {
        let r7 = check_dispstat(&self.display.dispstat7, self.interrupts[0].request, check);
        self.interrupts[0].request = r7;
        let r9 = check_dispstat(&self.display.dispstat9, self.interrupts[1].request, check);
        self.interrupts[1].request = r9;
    }

    /// Makes a DMA run due now for each enabled channel of either CPU that
    /// starts on `occasion`.
    pub fn run_dmas(&mut self, occasion: DMAOccasion)
        requires
            old(self).wf(),
        ensures
            final(self).wf(),
            final(self).scheduler.cycle == old(self).scheduler.cycle,
            final(self).scheduler.pending() == old(self).scheduler.pending().union_prefer_right(
                dma_triggers(old(self).dma7, old(self).dma9, occasion, old(self).scheduler.cycle),
            ),
            final(self).interrupts == old(self).interrupts,
            final(self).dma7 == old(self).dma7,
            final(self).dma9 == old(self).dma9,
            final(self).display == old(self).display,
            final(self).spu == old(self).spu,
    {
        let ghost c = self.scheduler.cycle;
        trigger_controller(&self.dma7, false, occasion, &mut self.scheduler);
        trigger_controller(&self.dma9, true, occasion, &mut self.scheduler);
        proof {
            assert(partial_triggers(self.dma7, false, occasion, 4, c).union_prefer_right(
                partial_triggers(self.dma9, true, occasion, 4, c),
            ) =~= dma_triggers(self.dma7, self.dma9, occasion, c));
            assert(self.scheduler.pending() =~= old(self).scheduler.pending().union_prefer_right(
                dma_triggers(old(self).dma7, old(self).dma9, occasion, c),
            ));
        }
    }

    /// The interrupt request bit of DMA channel `num`.
    pub open spec fn dma_irq_bit(num: usize) -> u32 {
        (IRQ_DMA0 << (num as u32)) as u32
    }

    /// Runs DMA channel `num` of the ARM9 (`is9`) or the ARM7 to completion
    /// (see `DMAChannel::run`), moves the clock by what the run cost, and when
    /// the channel asks for it requests its completion interrupt on both CPUs.
    /// Returns the run's report.
    pub fn run_dma<B: Bus>(&mut self, bus: &mut B, is9: bool, num: usize) -> (r: DmaReport)
        requires
            old(self).wf(),
            num < 4,
        ensures
            final(self).wf(),
            reports_run(
                if is9 {
                    old(self).dma9.channels@[num as int]
                } else {
                    old(self).dma7.channels@[num as int]
                },
                r,
            ),
            bus_ran(
                if is9 {
                    old(self).dma9.channels@[num as int]
                } else {
                    old(self).dma7.channels@[num as int]
                },
                r,
                is9,
                (if is9 {
                    old(self).dma9.channels@[num as int]
                } else {
                    old(self).dma7.channels@[num as int]
                }).count_latch as nat,
                old(bus).ops(),
                final(bus).ops(),
            ),
            final(self).scheduler.cycle == due_at(
                old(self).scheduler.cycle,
                if r.cycles <= usize::MAX { r.cycles as usize } else { usize::MAX },
            ),
            final(self).scheduler.pending() == old(self).scheduler.pending(),
            ({
                let ch = if is9 {
                    old(self).dma9.channels@[num as int]
                } else {
                    old(self).dma7.channels@[num as int]
                };
                &&& is9 ==> final(self).dma9.channels@ == old(self).dma9.channels@.update(
                    num as int,
                    ran(ch),
                ) && final(self).dma7 == old(self).dma7
                &&& !is9 ==> final(self).dma7.channels@ == old(self).dma7.channels@.update(
                    num as int,
                    ran(ch),
                ) && final(self).dma9 == old(self).dma9
                &&& forall|cpu: int|
                    0 <= cpu < 2 ==> #[trigger] final(self).request(cpu) == if ch.cnt.irq {
                        old(self).request(cpu) | Self::dma_irq_bit(num)
                    } else {
                        old(self).request(cpu)
                    }
            }),
            final(self).display == old(self).display,
            final(self).spu == old(self).spu,
    {
        let ghost c = self.scheduler.cycle;
        let irq = if is9 {
            self.dma9.channels[num].cnt.irq
        } else {
            self.dma7.channels[num].cnt.irq
        };
        let report = if is9 {
            self.dma9.channels[num].run(bus, true)
        } else {
            self.dma7.channels[num].run(bus, false)
        };
        let cycles = report.cycles;
        let step: usize = if cycles <= usize::MAX as u64 {
            cycles as usize
        } else {
            usize::MAX
        };
        self.scheduler.advance(step);
        if irq {
            let bit = IRQ_DMA0 << (num as u32);
            self.interrupts[0].request = self.interrupts[0].request | bit;
            self.interrupts[1].request = self.interrupts[1].request | bit;
        }
        proof {
            assert forall|i: int| 0 <= i < 4 implies (#[trigger] self.dma9.channels@[i]).wf() by {
                assert(old(self).dma9.channels@[i].wf());
            }
            assert forall|i: int| 0 <= i < 4 implies (#[trigger] self.dma7.channels@[i]).wf() by {
                assert(old(self).dma7.channels@[i].wf());
            }
        }
        report
    }

    /// Requests the cartridge transfer completion interrupt on the CPU that
    /// owns the cartridge: the ARM7 (index 0) when `is_arm7`, else the ARM9.
    pub fn complete_cartridge_block(&mut self, is_arm7: bool)
        requires
            old(self).wf(),
        ensures
            final(self).wf(),
            is_arm7 ==> final(self).request(0) == old(self).request(0)
                | IRQ_GAME_CARD_TRANSFER_COMPLETION && final(self).request(1) == old(self).request(1),
            !is_arm7 ==> final(self).request(1) == old(self).request(1)
                | IRQ_GAME_CARD_TRANSFER_COMPLETION && final(self).request(0) == old(self).request(0),
            final(self).scheduler == old(self).scheduler,
            final(self).dma7 == old(self).dma7,
            final(self).dma9 == old(self).dma9,
            final(self).display == old(self).display,
            final(self).spu == old(self).spu,
    {
        let i: usize = if is_arm7 {
            0
        } else {
            1
        };
        self.interrupts[i].request = self.interrupts[i].request | IRQ_GAME_CARD_TRANSFER_COMPLETION;
    }

    /// Handles one event:
    /// - `DMA`: runs that channel (see `run_dma`); an index past 3 does nothing.
    /// - `StartNextLine`: moves to the next line (see `Display::start_next_line`);
    ///   on entering the vertical blank makes `VBlank` due now and requests the
    ///   VBlank interrupt where enabled; requests the line match where the new
    ///   line equals a CPU's match line.
    /// - `HBlank`: enters the horizontal blank, makes the HBlank DMA runs due on
    ///   a drawn line, and requests the HBlank interrupt where enabled.
    /// - `VBlank`: makes the VBlank DMA runs due and asks for a render pass
    ///   when 3D rendering is on.
    /// - `ROMWordTransfered`: makes the cartridge DMA runs due.
    /// - `GenerateAudioSample`, `StepAudioChannel`, `ResetAudioChannel`: see
    ///   `SPU::generate_sample`, `SPU::step_channel`, `SPU::reset_channel`.
    /// Timer and cartridge work is handed back as the `Outcome`. `due` is the
    /// cycle the event was due at; the heartbeat re-arms from it.
    pub fn handle_event<B: Bus>(&mut self, bus: &mut B, event: Event, due: usize) -> (r: Result<Outcome, StepError>)
        requires
            old(self).wf(),
        ensures
            final(self).wf(),
            handled(*old(self), *final(self), event, due, old(bus).ops(), final(bus).ops(), r),
    {
        match event {
            Event::DMA(is9, num) => {
                if num < 4 {
                    let rep = self.run_dma(bus, is9, num);
                    assert(dma_clock(
                        if is9 {
                            old(self).dma9.channels@[num as int]
                        } else {
                            old(self).dma7.channels@[num as int]
                        },
                        is9,
                        old(self).scheduler.cycle,
                        self.scheduler.cycle,
                        old(bus).ops(),
                        bus.ops(),
                    )) by {
                        assert(reports_run(
                            if is9 {
                                old(self).dma9.channels@[num as int]
                            } else {
                                old(self).dma7.channels@[num as int]
                            },
                            rep,
                        ));
                    }
                }
                Ok(Outcome::Done)
            },
            Event::StartNextLine => {
                let (vcount, start_vblank) = self.display.start_next_line(&mut self.scheduler);
                if start_vblank {
                    self.scheduler.run_now(Event::VBlank);
                    self.check_dispstats(DispstatCheck::VBlank);
                }
                self.check_dispstats(DispstatCheck::VCounter(vcount));
                Ok(Outcome::Done)
            },
            Event::HBlank => {
                if self.display.start_hblank() {
                    self.run_dmas(DMAOccasion::HBlank);
                }
                self.check_dispstats(DispstatCheck::HBlank);
                Ok(Outcome::Done)
            },
            Event::VBlank => {
                self.run_dmas(DMAOccasion::VBlank);
                self.display.request_render();
                Ok(Outcome::Done)
            },
            Event::TimerOverflow(is9, n) => Ok(Outcome::TimerOverflow(is9, n)),
            Event::ROMWordTransfered => {
                self.run_dmas(DMAOccasion::DSCartridge);
                Ok(Outcome::CartridgeWordTransferred)
            },
            Event::ROMBlockEnded(is_arm7) => Ok(Outcome::CartridgeBlockEnded(is_arm7)),
            Event::GenerateAudioSample => {
                self.spu.generate_sample(&mut self.scheduler, due);
                Ok(Outcome::Done)
            },
            Event::StepAudioChannel(spec) => {
                match self.spu.step_channel(spec, &mut self.scheduler, bus) {
                    Ok(read) => {
                        assert(channel_stepped(
                            old(self).spu,
                            self.spu,
                            spec,
                            old(self).scheduler.pending(),
                            self.scheduler.pending(),
                            old(self).scheduler.cycle,
                            old(bus).ops(),
                            bus.ops(),
                            Ok::<Option<u32>, StepError>(read),
                        ));
                        Ok(Outcome::Done)
                    },
                    Err(e) => Err(e),
                }
            },
            Event::ResetAudioChannel(spec) => {
                self.spu.reset_channel(spec);
                Ok(Outcome::Done)
            },
        }
    }

    /// Takes an earliest event due at or before the current cycle and handles
    /// it; returns `None`, changing nothing, when no event is due.
    pub fn dispatch_next<B: Bus>(&mut self, bus: &mut B) -> (r: Option<(Event, Result<Outcome, StepError>)>)
        requires
            old(self).running(),
        ensures
            final(self).running(),
            r is None <==> !crate::scheduler::has_due(
                old(self).scheduler.pending(),
                old(self).scheduler.cycle as nat,
            ),
            r is None ==> *final(self) == *old(self),
            r matches Some((e, _)) ==> forall|k: Event|
                old(self).scheduler.pending().contains_key(k) && k != e
                    ==> #[trigger] final(self).scheduler.pending().contains_key(k),
            r matches Some((e, _)) ==> old(self).scheduler.pending().contains_key(e)
                && old(self).scheduler.pending()[e] <= old(self).scheduler.cycle
                && crate::scheduler::is_earliest(
                old(self).scheduler.pending(),
                old(self).scheduler.pending()[e],
            ),
            r matches Some((e, res)) ==> exists|mid: HW|
                #[trigger] handled(
                    mid,
                    *final(self),
                    e,
                    old(self).scheduler.pending()[e] as usize,
                    old(bus).ops(),
                    final(bus).ops(),
                    res,
                )
                    && popped(*old(self), mid, e),
    {
        proof {
            assert(self.scheduler.pending().dom().contains(Event::GenerateAudioSample));
        }
        match self.scheduler.pop_next() {
            None => None,
            Some((e, due)) => {
                let ghost mid = *self;
                let r = self.handle_event(bus, e, due);
                assert(old(self).scheduler.pending()[e] as usize == due);
                assert(handled(mid, *self, e, old(self).scheduler.pending()[e] as usize, old(bus).ops(), bus.ops(), r)
                    && popped(*old(self), mid, e));
                Some((e, r))
            },
        }
    }

    /// A running context always has the audio heartbeat pending, so its event
    /// queue is never empty; `new` starts one running and `dispatch_next`
    /// keeps it running.
    pub proof fn lemma_queue_never_empty(&self)
        requires
            self.running(),
        ensures
            self.scheduler.pending().dom() != Set::<Event>::empty(),
    {
        assert(self.scheduler.pending().dom().contains(Event::GenerateAudioSample));
    }

    /// Moves the clock forward by the cycles the CPU ran. The caller then
    /// dispatches with `dispatch_next` until it returns `None`.
    pub fn advance_clock(&mut self, cycles: usize)
        requires
            old(self).wf(),
        ensures
            final(self).wf(),
            final(self).scheduler.cycle == due_at(old(self).scheduler.cycle, cycles),
            final(self).scheduler.pending() == old(self).scheduler.pending(),
            final(self).dma7 == old(self).dma7,
            final(self).dma9 == old(self).dma9,
            final(self).interrupts == old(self).interrupts,
            final(self).display == old(self).display,
            final(self).spu == old(self).spu,
    {
        self.scheduler.advance(cycles);
    }
}

} // verus!
