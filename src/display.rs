use vstd::prelude::*;

use crate::scheduler::{due_at, Event, Scheduler};

verus! {

/// Cycles of one scanline.
pub const LINE_CYCLES: usize = 2130;

/// Cycles from the start of a scanline to its horizontal blank.
pub const HBLANK_START: usize = 1536;

/// Lines drawn before the vertical blank.
pub const VISIBLE_LINES: u16 = 192;

/// Lines of one frame.
pub const TOTAL_LINES: u16 = 263;

/// A CPU's display status register: the blank and match flags, and its
/// interrupt enables and match line.
#[derive(Clone, Copy, Debug, PartialEq, Eq, Structural)]
pub struct DISPSTAT {
    pub vblank: bool,
    pub hblank: bool,
    pub vcounter: bool,
    pub vblank_irq_enable: bool,
    pub hblank_irq_enable: bool,
    pub vcounter_irq_enable: bool,
    pub vcount_setting: u16,
}

impl DISPSTAT {
    pub fn new() -> (r: DISPSTAT)
        ensures
            r == DISPSTAT::spec_new(),
    {
        DISPSTAT {
            vblank: false,
            hblank: false,
            vcounter: false,
            vblank_irq_enable: false,
            hblank_irq_enable: false,
            vcounter_irq_enable: false,
            vcount_setting: 0,
        }
    }

    pub open spec fn spec_new() -> DISPSTAT {
        DISPSTAT {
            vblank: false,
            hblank: false,
            vcounter: false,
            vblank_irq_enable: false,
            hblank_irq_enable: false,
            vcounter_irq_enable: false,
            vcount_setting: 0,
        }
    }
}

/// The scanline state the timing driver keeps.
pub struct Display {
    pub vcount: u16,
    pub dispstat7: DISPSTAT,
    pub dispstat9: DISPSTAT,
    /// 3D rendering is switched on.
    pub enable_3d: bool,
    /// Render passes asked for so far; the renderer takes them.
    pub render_requests: u64,
}

/// A display status register after the start of line `vcount`.
pub open spec fn line_status(d: DISPSTAT, vcount: u16) -> DISPSTAT {
    DISPSTAT {
        vblank: VISIBLE_LINES <= vcount && vcount < TOTAL_LINES - 1,
        hblank: false,
        vcounter: vcount == d.vcount_setting,
        ..d
    }
}

impl Display {
    pub open spec fn wf(&self) -> bool {
        self.vcount < TOTAL_LINES
    }

    /// Line 0, nothing pending in the registers; the first horizontal blank
    /// and line start are armed.
    pub fn new(sched: &mut Scheduler) -> (r: Display)
        requires
            old(sched).wf(),
        ensures
            r.wf(),
            r.vcount == 0,
            r.dispstat7 == DISPSTAT::spec_new(),
            r.dispstat9 == DISPSTAT::spec_new(),
            !r.enable_3d,
            r.render_requests == 0,
            final(sched).wf(),
            final(sched).cycle == old(sched).cycle,
            final(sched).pending() == old(sched).pending().insert(
                Event::HBlank,
                due_at(old(sched).cycle, HBLANK_START),
            ).insert(Event::StartNextLine, due_at(old(sched).cycle, LINE_CYCLES)),
    {
        sched.schedule(Event::HBlank, HBLANK_START);
        sched.schedule(Event::StartNextLine, LINE_CYCLES);
        Display {
            vcount: 0,
            dispstat7: DISPSTAT::new(),
            dispstat9: DISPSTAT::new(),
            enable_3d: false,
            render_requests: 0,
        }
    }

    /// Moves to the next scanline: advances the line counter (wrapping at the
    /// end of the frame), updates both status registers, and arms this line's
    /// horizontal blank and the next line start. Returns the new line and
    /// whether it is the first line of the vertical blank.
    pub fn start_next_line(&mut self, sched: &mut Scheduler) -> (r: (u16, bool))
        requires
            old(self).wf(),
            old(sched).wf(),
        ensures
            final(self).wf(),
            final(self).vcount == (old(self).vcount + 1) % (TOTAL_LINES as int),
            r == (final(self).vcount, final(self).vcount == VISIBLE_LINES),
            final(self).dispstat7 == line_status(old(self).dispstat7, final(self).vcount),
            final(self).dispstat9 == line_status(old(self).dispstat9, final(self).vcount),
            final(self).enable_3d == old(self).enable_3d,
            final(self).render_requests == old(self).render_requests,
            final(sched).wf(),
            final(sched).cycle == old(sched).cycle,
            final(sched).pending() == old(sched).pending().insert(
                Event::HBlank,
                due_at(old(sched).cycle, HBLANK_START),
            ).insert(Event::StartNextLine, due_at(old(sched).cycle, LINE_CYCLES)),
    {
        self.vcount = if self.vcount + 1 == TOTAL_LINES {
            0
        } else {
            self.vcount + 1
        };
        let v = self.vcount;
        let vblank = VISIBLE_LINES <= v && v < TOTAL_LINES - 1;
        self.dispstat7.vblank = vblank;
        self.dispstat7.hblank = false;
        self.dispstat7.vcounter = v == self.dispstat7.vcount_setting;
        self.dispstat9.vblank = vblank;
        self.dispstat9.hblank = false;
        self.dispstat9.vcounter = v == self.dispstat9.vcount_setting;
        sched.schedule(Event::HBlank, HBLANK_START);
        sched.schedule(Event::StartNextLine, LINE_CYCLES);
        (v, v == VISIBLE_LINES)
    }

    /// Enters the horizontal blank: sets both status registers' flag and
    /// returns whether this line is drawn, which is when HBlank DMA runs.
    pub fn start_hblank(&mut self) -> (r: bool)
        requires
            old(self).wf(),
        ensures
            final(self).wf(),
            r == (old(self).vcount < VISIBLE_LINES),
            final(self).vcount == old(self).vcount,
            final(self).dispstat7 == (DISPSTAT { hblank: true, ..old(self).dispstat7 }),
            final(self).dispstat9 == (DISPSTAT { hblank: true, ..old(self).dispstat9 }),
            final(self).enable_3d == old(self).enable_3d,
            final(self).render_requests == old(self).render_requests,
    {
        self.dispstat7.hblank = true;
        self.dispstat9.hblank = true;
        self.vcount < VISIBLE_LINES
    }

    /// Asks for one render pass when 3D rendering is on.
    pub fn request_render(&mut self)
        ensures
            final(self).vcount == old(self).vcount,
            final(self).dispstat7 == old(self).dispstat7,
            final(self).dispstat9 == old(self).dispstat9,
            final(self).enable_3d == old(self).enable_3d,
            final(self).render_requests == if old(self).enable_3d {
                if old(self).render_requests < u64::MAX {
                    (old(self).render_requests + 1) as u64
                } else {
                    u64::MAX
                }
            } else {
                old(self).render_requests
            },
    {
        if self.enable_3d {
            self.render_requests = self.render_requests.saturating_add(1);
        }
    }
}

} // verus!
