use nds_core::scheduler::{Event, Scheduler};
use nds_core::spu::ChannelSpec;

#[test]
fn schedule_then_dispatch_when_due() {
    let mut s = Scheduler::new();
    s.schedule(Event::HBlank, 10);
    s.schedule(Event::GenerateAudioSample, 50);
    assert_eq!(s.get_next_event(), None);
    s.advance(9);
    assert_eq!(s.get_next_event(), None);
    s.advance(1);
    assert_eq!(s.get_next_event(), Some(Event::HBlank));
    assert_eq!(s.get_next_event(), None);
}

#[test]
fn drain_due_takes_exactly_the_due_events_earliest_first() {
    let mut s = Scheduler::new();
    s.schedule(Event::VBlank, 5);
    s.schedule(Event::HBlank, 3);
    s.schedule(Event::StartNextLine, 8);
    s.schedule(Event::GenerateAudioSample, 4);
    s.advance(5);
    let due = s.drain_due();
    assert_eq!(due, vec![Event::HBlank, Event::GenerateAudioSample, Event::VBlank]);
    assert_eq!(s.peek_next(), Some((Event::StartNextLine, 8)));
    assert!(s.drain_due().is_empty());
}

#[test]
fn cancel_removes_a_pending_event() {
    let mut s = Scheduler::new();
    let e = Event::StepAudioChannel(ChannelSpec::Base(3));
    s.schedule(e, 2);
    s.schedule(Event::HBlank, 4);
    s.remove(e);
    s.advance(10);
    assert_eq!(s.drain_due(), vec![Event::HBlank]);
}

#[test]
fn cancel_of_absent_event_is_a_no_op() {
    let mut s = Scheduler::new();
    s.schedule(Event::HBlank, 4);
    s.remove(Event::VBlank);
    s.remove(Event::StepAudioChannel(ChannelSpec::Noise(1)));
    assert_eq!(s.peek_next(), Some((Event::HBlank, 4)));
}

#[test]
fn rescheduling_an_equal_event_replaces_it() {
    let mut s = Scheduler::new();
    let e = Event::StepAudioChannel(ChannelSpec::PSG(2));
    s.schedule(e, 2);
    s.schedule(e, 7);
    s.advance(5);
    assert_eq!(s.get_next_event(), None);
    s.advance(2);
    assert_eq!(s.drain_due(), vec![e]);
}

#[test]
fn cancel_matches_kind_and_payload() {
    let mut s = Scheduler::new();
    s.schedule(Event::DMA(true, 1), 1);
    s.schedule(Event::DMA(false, 1), 1);
    s.remove(Event::DMA(true, 1));
    s.advance(1);
    assert_eq!(s.drain_due(), vec![Event::DMA(false, 1)]);
}

#[test]
fn run_now_is_due_at_once() {
    let mut s = Scheduler::new();
    s.advance(100);
    s.run_now(Event::VBlank);
    assert_eq!(s.peek_next(), Some((Event::VBlank, 100)));
    assert_eq!(s.get_next_event(), Some(Event::VBlank));
}

#[test]
fn delay_past_the_last_cycle_saturates() {
    let mut s = Scheduler::new();
    s.advance(10);
    s.schedule(Event::HBlank, usize::MAX);
    assert_eq!(s.peek_next(), Some((Event::HBlank, usize::MAX)));
}
