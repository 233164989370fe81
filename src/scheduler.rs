use std::cmp::Reverse;

use priority_queue::PriorityQueue;
use vstd::prelude::*;

use crate::spu::ChannelSpec;

verus! {

#[verifier::external_type_specification]
#[verifier::external_body]
#[verifier::reject_recursive_types(T)]
pub struct ExReverse<T>(Reverse<T>);

#[verifier::external_type_specification]
#[verifier::external_body]
#[verifier::reject_recursive_types(I)]
#[verifier::reject_recursive_types(P)]
#[verifier::reject_recursive_types(H)]
pub struct ExPriorityQueue<I, P, H>(PriorityQueue<I, P, H>) where
    I: std::hash::Hash + Eq,
    P: Ord,
;

/// The queue type that holds pending events, keyed by event, ordered by the
/// nearest due cycle first.
pub type EventQueue = PriorityQueue<Event, Reverse<usize>>;

/// What a queue of pending events holds: each pending event with its due cycle.
pub uninterp spec fn queue_entries(q: EventQueue) -> Map<Event, nat>;

/// Relies on `PriorityQueue::new`: a new queue is empty.
#[verifier::external_body]
fn queue_new() -> (r: EventQueue)
    ensures
        queue_entries(r).is_empty(),
{
    PriorityQueue::new()
}

/// Relies on `PriorityQueue::push`: the item is inserted with the given
/// priority, and an item already present only has its priority replaced.
#[verifier::external_body]
fn queue_push(q: &mut EventQueue, event: Event, due: usize)
    ensures
        queue_entries(*final(q)) == queue_entries(*old(q)).insert(event, due as nat),
{
    q.push(event, Reverse(due));
}

/// Relies on `PriorityQueue::remove`: the item equal to the argument, if any,
/// is taken out; the others keep their priorities.
#[verifier::external_body]
fn queue_remove(q: &mut EventQueue, event: &Event) -> (r: bool)
    ensures
        queue_entries(*final(q)) == queue_entries(*old(q)).remove(*event),
        r == queue_entries(*old(q)).contains_key(*event),
{
    q.remove(event).is_some()
}

/// Relies on `PriorityQueue::peek`: the pair with the greatest priority, which
/// under `Reverse` is the smallest due cycle, or `None` when the queue is empty.
#[verifier::external_body]
fn queue_peek(q: &EventQueue) -> (r: Option<(Event, usize)>)
    ensures
        r is None <==> queue_entries(*q).dom() == Set::<Event>::empty(),
        r matches Some((e, d)) ==> queue_entries(*q).contains_key(e) && queue_entries(*q)[e]
            == d as nat && forall|k: Event| #[trigger]
            queue_entries(*q).contains_key(k) ==> d as nat <= queue_entries(*q)[k],
{
    q.peek().map(|(e, p)| (*e, p.0))
}

/// Relies on `PriorityQueue::pop`: takes out the pair that `peek` would give.
#[verifier::external_body]
fn queue_pop(q: &mut EventQueue) -> (r: Option<(Event, usize)>)
    ensures
        r is None <==> queue_entries(*old(q)).dom() == Set::<Event>::empty(),
        r is None ==> queue_entries(*final(q)) == queue_entries(*old(q)),
        r matches Some((e, d)) ==> queue_entries(*old(q)).contains_key(e) && queue_entries(
            *old(q),
        )[e] == d as nat && queue_entries(*final(q)) == queue_entries(*old(q)).remove(e)
            && forall|k: Event| #[trigger]
            queue_entries(*old(q)).contains_key(k) ==> d as nat <= queue_entries(*old(q))[k],
{
    q.pop().map(|(e, p)| (e, p.0))
}

/// An event the scheduler can hold. Events compare by kind and payload, so
/// cancelling reaches any pending event of the same kind and payload.
#[derive(Clone, Copy, Debug, PartialEq, Eq, Hash, Structural)]
pub enum Event {
    /// A DMA channel run: (on the ARM9 side, channel number).
    DMA(bool, usize),
    StartNextLine,
    HBlank,
    VBlank,
    /// A timer overflow: (on the ARM9 side, timer number).
    TimerOverflow(bool, usize),
    ROMWordTransfered,
    /// The end of a cartridge block transfer: (on the ARM7 side).
    ROMBlockEnded(bool),
    GenerateAudioSample,
    StepAudioChannel(ChannelSpec),
    ResetAudioChannel(ChannelSpec),
}

/// The global cycle counter and the queue of pending events.
pub struct Scheduler {
    pub cycle: usize,
    pub event_queue: EventQueue,
}

impl Scheduler {
    /// The pending events, each with its due cycle.
    pub closed spec fn pending(&self) -> Map<Event, nat> {
        queue_entries(self.event_queue)
    }

    pub closed spec fn wf(&self) -> bool {
        self.pending().dom().finite()
    }

    pub fn new() -> (r: Scheduler)
        ensures
            r.wf(),
            r.cycle == 0,
            r.pending().is_empty(),
    {
        Scheduler { cycle: 0, event_queue: queue_new() }
    }

    /// Makes `event` due `delay` cycles from now (at the last representable
    /// cycle when that lies beyond it). An equal event already pending is
    /// replaced: its due cycle becomes the new one.
    pub fn schedule(&mut self, event: Event, delay: usize)
        requires
            old(self).wf(),
        ensures
            final(self).wf(),
            final(self).cycle == old(self).cycle,
            final(self).pending() == old(self).pending().insert(
                event,
                due_at(old(self).cycle, delay),
            ),
    {
        let due = self.cycle.saturating_add(delay);
        queue_push(&mut self.event_queue, event, due);
    }

    /// Makes `event` due at cycle `due`, replacing an equal pending event.
    pub fn schedule_at(&mut self, event: Event, due: usize)
        requires
            old(self).wf(),
        ensures
            final(self).wf(),
            final(self).cycle == old(self).cycle,
            final(self).pending() == old(self).pending().insert(event, due as nat),
    {
        queue_push(&mut self.event_queue, event, due);
    }

    /// Makes `event` due at the current cycle.
    pub fn run_now(&mut self, event: Event)
        requires
            old(self).wf(),
        ensures
            final(self).wf(),
            final(self).cycle == old(self).cycle,
            final(self).pending() == old(self).pending().insert(event, old(self).cycle as nat),
    {
        self.schedule(event, 0);
    }

    /// Cancels the pending event equal to `event`; nothing happens when none is.
    pub fn remove(&mut self, event: Event)
        requires
            old(self).wf(),
        ensures
            final(self).wf(),
            final(self).cycle == old(self).cycle,
            final(self).pending() == old(self).pending().remove(event),
            !old(self).pending().contains_key(event) ==> final(self).pending() == old(
                self,
            ).pending(),
            old(self).pending().contains_key(event) ==> final(self).pending().dom().len() + 1
                == old(self).pending().dom().len(),
    {
        let _ = queue_remove(&mut self.event_queue, &event);
        proof {
            if !old(self).pending().contains_key(event) {
                assert(self.pending() =~= old(self).pending());
            }
        }
    }

    /// Takes out every event due at or before the current cycle, earliest
    /// first; the events due later stay pending and none of them is taken.
    pub fn drain_due(&mut self) -> (r: Vec<Event>)
        requires
            old(self).wf(),
        ensures
            final(self).wf(),
            final(self).cycle == old(self).cycle,
            forall|e: Event|
                r@.contains(e) <==> (old(self).pending().contains_key(e) && old(self).pending()[e]
                    <= old(self).cycle),
            r@.no_duplicates(),
            forall|i: int, j: int|
                0 <= i < j < r@.len() ==> old(self).pending()[#[trigger] r@[i]] <= old(
                    self,
                ).pending()[#[trigger] r@[j]],
            final(self).pending() == old(self).pending().remove_keys(r@.to_set()),
    {
        let ghost start = self.pending();
        let c = self.cycle;
        let mut out: Vec<Event> = Vec::new();
        proof {
            assert(start.remove_keys(out@.to_set()) =~= start);
        }
        loop
            invariant
                self.wf(),
                self.cycle == c,
                c == old(self).cycle,
                start == old(self).pending(),
                self.pending() == start.remove_keys(out@.to_set()),
                out@.no_duplicates(),
                forall|i: int| 0 <= i < out@.len() ==> start.contains_key(#[trigger] out@[i])
                    && start[out@[i]] <= c,
                forall|i: int, j: int|
                    0 <= i < j < out@.len() ==> start[#[trigger] out@[i]] <= start[#[trigger] out@[j]],
                out@.len() > 0 ==> is_earliest(self.pending(), start[out@.last()]),
            ensures
                self.wf(),
                self.cycle == c,
                self.pending() == start.remove_keys(out@.to_set()),
                !has_due(self.pending(), c as nat),
                out@.no_duplicates(),
                forall|i: int| 0 <= i < out@.len() ==> start.contains_key(#[trigger] out@[i])
                    && start[out@[i]] <= c,
                forall|i: int, j: int|
                    0 <= i < j < out@.len() ==> start[#[trigger] out@[i]] <= start[#[trigger] out@[j]],
            decreases self.pending().dom().len(),
        {
            let ghost before = self.pending();
            match self.pop_due() {
                None => break,
                Some((e, _)) => {
                    proof {
                        assert(!out@.contains(e)) by {
                            if out@.contains(e) {
                                assert(!before.contains_key(e));
                            }
                        }
                        if out@.len() > 0 {
                            assert(start[out@.last()] <= start[e]);
                        }
                    }
                    let ghost prev = out@;
                    out.push(e);
                    proof {
                        assert(out@ == prev.push(e));
                        assert forall|x: Event| out@.contains(x) <==> (prev.contains(x) || x == e) by {
                            if out@.contains(x) && x != e {
                                let i = choose|i: int| 0 <= i < out@.len() && out@[i] == x;
                                assert(prev[i] == x);
                            }
                            if prev.contains(x) {
                                let i = choose|i: int| 0 <= i < prev.len() && prev[i] == x;
                                assert(out@[i] == x);
                            }
                            if x == e {
                                assert(out@[prev.len() as int] == e);
                            }
                        }
                        assert(out@.to_set() =~= prev.to_set().insert(e));
                        assert(start.remove_keys(out@.to_set()) =~= before.remove(e));
                        assert(out@.last() == e);
                        assert forall|i: int, j: int|
                            0 <= i < j < out@.len() implies start[#[trigger] out@[i]]
                            <= start[#[trigger] out@[j]] by {
                            if j == out@.len() - 1 && i < prev.len() {
                                assert(out@[i] == prev[i]);
                                assert(prev.contains(prev[i]));
                                assert(start[prev[i]] <= start[prev.last()] || i == prev.len()
                                    - 1);
                            }
                        }
                        assert(before.dom().remove(e).len() < before.dom().len());
                    }
                },
            }
        }
        proof {
            assert forall|e: Event|
                out@.contains(e) <==> (start.contains_key(e) && start[e] <= c) by {
                if start.contains_key(e) && start[e] <= c && !out@.contains(e) {
                    assert(!out@.to_set().contains(e));
                    assert(self.pending().contains_key(e));
                }
                if out@.contains(e) {
                    let i = choose|i: int| 0 <= i < out@.len() && out@[i] == e;
                    assert(start.contains_key(out@[i]));
                }
            }
        }
        out
    }

    /// Moves the clock forward by `cycles`, stopping at the last representable
    /// cycle.
    pub fn advance(&mut self, cycles: usize)
        ensures
            final(self).cycle == due_at(old(self).cycle, cycles),
            final(self).pending() == old(self).pending(),
            final(self).wf() == old(self).wf(),
    {
        self.cycle = self.cycle.saturating_add(cycles);
    }

    /// The earliest pending event and its due cycle, if any is pending.
    pub fn peek_next(&self) -> (r: Option<(Event, usize)>)
        ensures
            r is None <==> self.pending().dom() == Set::<Event>::empty(),
            r matches Some((e, d)) ==> self.pending().contains_key(e) && self.pending()[e]
                == d as nat && is_earliest(self.pending(), d as nat),
    {
        queue_peek(&self.event_queue)
    }

    /// Takes out an earliest pending event when it is due at or before the
    /// current cycle; returns `None`, changing nothing, when none is due. An
    /// empty queue means a re-arm was lost, which callers rule out.
    pub fn get_next_event(&mut self) -> (r: Option<Event>)
        requires
            old(self).wf(),
            old(self).pending().dom() != Set::<Event>::empty(),
        ensures
            final(self).wf(),
            final(self).cycle == old(self).cycle,
            r is None <==> !has_due(old(self).pending(), old(self).cycle as nat),
            r is None ==> *final(self) == *old(self),
            r matches Some(e) ==> old(self).pending().contains_key(e) && old(self).pending()[e]
                <= old(self).cycle && is_earliest(old(self).pending(), old(self).pending()[e])
                && final(self).pending() == old(self).pending().remove(e),
    {
        match self.pop_due() {
            Some((e, _)) => Some(e),
            None => None,
        }
    }

    /// As `get_next_event`, also giving the cycle the event was due at.
    pub fn pop_next(&mut self) -> (r: Option<(Event, usize)>)
        requires
            old(self).wf(),
            old(self).pending().dom() != Set::<Event>::empty(),
        ensures
            final(self).wf(),
            final(self).cycle == old(self).cycle,
            r is None <==> !has_due(old(self).pending(), old(self).cycle as nat),
            r is None ==> *final(self) == *old(self),
            r matches Some((e, due)) ==> old(self).pending().contains_key(e) && due
                == old(self).pending()[e] && due <= old(self).cycle && is_earliest(
                old(self).pending(),
                due as nat,
            ) && final(self).pending() == old(self).pending().remove(e),
    {
        self.pop_due()
    }

    fn pop_due(&mut self) -> (r: Option<(Event, usize)>)
        requires
            old(self).wf(),
        ensures
            final(self).wf(),
            final(self).cycle == old(self).cycle,
            r is None <==> !has_due(old(self).pending(), old(self).cycle as nat),
            r is None ==> *final(self) == *old(self),
            r matches Some((e, due)) ==> old(self).pending().contains_key(e) && due == old(self).pending()[e] && old(self).pending()[e]
                <= old(self).cycle && is_earliest(old(self).pending(), old(self).pending()[e])
                && final(self).pending() == old(self).pending().remove(e),
    {
        match queue_peek(&self.event_queue) {
            None => None,
            Some((_, due)) => {
                if due <= self.cycle {
                    match queue_pop(&mut self.event_queue) {
                        Some((e, d)) => Some((e, d)),
                        None => None,
                    }
                } else {
                    proof {
                        assert forall|k: Event| self.pending().contains_key(k) implies !(
                        self.pending()[k] <= self.cycle) by {}
                    }
                    None
                }
            },
        }
    }
}

/// The cycle `delay` cycles after `cycle`, or the last representable one.
pub open spec fn due_at(cycle: usize, delay: usize) -> nat {
    if cycle + delay <= usize::MAX {
        (cycle + delay) as nat
    } else {
        usize::MAX as nat
    }
}

/// No pending entry is due before cycle `d`.
pub open spec fn is_earliest(m: Map<Event, nat>, d: nat) -> bool {
    forall|k: Event| #[trigger] m.contains_key(k) ==> d <= m[k]
}

/// Some pending entry is due at or before cycle `c`.
pub open spec fn has_due(m: Map<Event, nat>, c: nat) -> bool {
    exists|k: Event| #[trigger] m.contains_key(k) && m[k] <= c
}

} // verus!
