use nds_core::display::{LINE_CYCLES, HBLANK_START, VISIBLE_LINES};
use nds_core::dma::DMAOccasion;
use nds_core::hw::{Outcome, HW, IRQ_DMA0, IRQ_GAME_CARD_TRANSFER_COMPLETION, IRQ_HBLANK, IRQ_VBLANK, IRQ_VCOUNTER_MATCH};
use nds_core::mmu::RamBus;
use nds_core::scheduler::Event;
use nds_core::spu::{ChannelSpec, StepError};

fn drain(hw: &mut HW, bus: &mut RamBus) -> Vec<Event> {
    let mut seen = Vec::new();
    while let Some((e, r)) = hw.dispatch_next(bus) {
        r.unwrap();
        seen.push(e);
    }
    seen
}

#[test]
fn line_into_vblank_dispatches_one_vblank_and_flags_enabled_cpus() {
    let mut hw = HW::new(32768);
    let mut bus = RamBus::new(0x100, 1, 1);
    hw.display.vcount = VISIBLE_LINES - 1;
    hw.display.dispstat7.vblank_irq_enable = true;
    hw.display.dispstat9.vblank_irq_enable = false;
    hw.display.dispstat7.vcount_setting = 300;
    hw.display.dispstat9.vcount_setting = 300;
    hw.advance_clock(LINE_CYCLES);
    let seen = drain(&mut hw, &mut bus);
    assert_eq!(seen.iter().filter(|e| **e == Event::StartNextLine).count(), 1);
    assert_eq!(seen.iter().filter(|e| **e == Event::VBlank).count(), 1);
    let line = seen.iter().position(|e| *e == Event::StartNextLine).unwrap();
    let vblank = seen.iter().position(|e| *e == Event::VBlank).unwrap();
    assert!(line < vblank);
    assert_eq!(hw.display.vcount, VISIBLE_LINES);
    assert!(hw.display.dispstat7.vblank);
    assert_ne!(hw.interrupts[0].request & IRQ_VBLANK, 0);
    assert_eq!(hw.interrupts[1].request & IRQ_VBLANK, 0);
}

#[test]
fn ordinary_line_dispatches_no_vblank() {
    let mut hw = HW::new(32768);
    let mut bus = RamBus::new(0x100, 1, 1);
    hw.display.dispstat9.vcount_setting = 1;
    hw.display.dispstat7.vcount_setting = 5;
    hw.advance_clock(LINE_CYCLES);
    let seen = drain(&mut hw, &mut bus);
    assert_eq!(seen.iter().filter(|e| **e == Event::StartNextLine).count(), 1);
    assert_eq!(seen.iter().filter(|e| **e == Event::VBlank).count(), 0);
    assert_eq!(hw.display.vcount, 1);
    assert_ne!(hw.interrupts[1].request & IRQ_VCOUNTER_MATCH, 0);
    assert_eq!(hw.interrupts[0].request & IRQ_VCOUNTER_MATCH, 0);
}

#[test]
fn late_heartbeat_fires_once_per_missed_tick() {
    let mut hw = HW::new(32768);
    let mut bus = RamBus::new(0x100, 1, 1);
    let period = hw.spu.clocks_per_sample;
    hw.advance_clock(3 * period + period / 2);
    let seen = drain(&mut hw, &mut bus);
    assert_eq!(seen.iter().filter(|e| **e == Event::GenerateAudioSample).count(), 3);
    assert_eq!(hw.spu.output.len(), 3);
    let due: Vec<usize> = vec![hw.scheduler.drain_due().len()];
    assert_eq!(due, vec![0]);
    hw.advance_clock(period / 2 - 1);
    assert_eq!(drain(&mut hw, &mut bus), Vec::<Event>::new());
    hw.advance_clock(1);
    assert_eq!(drain(&mut hw, &mut bus), vec![Event::GenerateAudioSample]);
    assert_eq!(hw.scheduler.cycle, 4 * period);
}

#[test]
fn nothing_is_dispatched_early() {
    let mut hw = HW::new(32768);
    let mut bus = RamBus::new(0x100, 1, 1);
    hw.advance_clock(HBLANK_START - 1);
    let seen = drain(&mut hw, &mut bus);
    assert_eq!(seen, vec![Event::GenerateAudioSample]);
    hw.advance_clock(1);
    assert_eq!(drain(&mut hw, &mut bus), vec![Event::HBlank]);
}

#[test]
fn hblank_runs_hblank_dma_and_raises_the_enabled_flag() {
    let mut hw = HW::new(32768);
    let mut bus = RamBus::new(0x100, 1, 1);
    hw.display.dispstat9.hblank_irq_enable = true;
    hw.dma9.channels[2].cnt.enable = true;
    hw.dma9.channels[2].cnt.start_timing = DMAOccasion::HBlank;
    hw.dma9.channels[2].cnt.irq = true;
    hw.dma9.channels[2].count_latch = 4;
    hw.advance_clock(HBLANK_START);
    let seen = drain(&mut hw, &mut bus);
    assert!(seen.contains(&Event::DMA(true, 2)));
    assert_eq!(hw.scheduler.cycle, HBLANK_START + 2 + 8);
    assert_ne!(hw.interrupts[1].request & IRQ_HBLANK, 0);
    assert_eq!(hw.interrupts[0].request & IRQ_HBLANK, 0);
    assert_ne!(hw.interrupts[0].request & (IRQ_DMA0 << 2), 0);
    assert_ne!(hw.interrupts[1].request & (IRQ_DMA0 << 2), 0);
    assert!(!hw.dma9.channels[2].cnt.enable);
}

#[test]
fn vblank_asks_for_a_render_when_3d_is_on() {
    let mut hw = HW::new(32768);
    let mut bus = RamBus::new(0x100, 1, 1);
    hw.display.enable_3d = true;
    assert_eq!(hw.handle_event(&mut bus, Event::VBlank, 0), Ok(Outcome::Done));
    assert_eq!(hw.display.render_requests, 1);
    hw.display.enable_3d = false;
    hw.handle_event(&mut bus, Event::VBlank, 0).unwrap();
    assert_eq!(hw.display.render_requests, 1);
}

#[test]
fn timer_and_cartridge_events_go_back_to_the_owner() {
    let mut hw = HW::new(32768);
    let mut bus = RamBus::new(0x100, 1, 1);
    assert_eq!(hw.handle_event(&mut bus, Event::TimerOverflow(true, 3), 0), Ok(Outcome::TimerOverflow(true, 3)));
    assert_eq!(hw.handle_event(&mut bus, Event::ROMBlockEnded(true), 0), Ok(Outcome::CartridgeBlockEnded(true)));
    hw.complete_cartridge_block(true);
    assert_eq!(hw.interrupts[0].request, IRQ_GAME_CARD_TRANSFER_COMPLETION);
    assert_eq!(hw.interrupts[1].request, 0);
    hw.dma7.channels[0].cnt.enable = true;
    hw.dma7.channels[0].cnt.start_timing = DMAOccasion::DSCartridge;
    assert_eq!(hw.handle_event(&mut bus, Event::ROMWordTransfered, 0), Ok(Outcome::CartridgeWordTransferred));
    assert_eq!(hw.scheduler.peek_next(), Some((Event::DMA(false, 0), 0)));
}

#[test]
fn unsupported_audio_format_is_reported() {
    let mut hw = HW::new(32768);
    let mut bus = RamBus::new(0x100, 1, 1);
    hw.spu.write_channels(&mut hw.scheduler, 0x03, 0x60);
    assert_eq!(
        hw.handle_event(&mut bus, Event::StepAudioChannel(ChannelSpec::Base(0)), 0),
        Err(StepError::UnsupportedFormat(nds_core::spu::Format::PSG))
    );
}

#[test]
fn out_of_range_payloads_change_nothing() {
    let mut hw = HW::new(32768);
    let mut bus = RamBus::new(0x100, 1, 1);
    let before = hw.scheduler.peek_next();
    assert_eq!(hw.handle_event(&mut bus, Event::DMA(false, 7), 0), Ok(Outcome::Done));
    assert_eq!(hw.handle_event(&mut bus, Event::StepAudioChannel(ChannelSpec::PSG(9)), 0), Ok(Outcome::Done));
    assert_eq!(hw.handle_event(&mut bus, Event::ResetAudioChannel(ChannelSpec::Noise(5)), 0), Ok(Outcome::Done));
    assert_eq!(hw.scheduler.peek_next(), before);
}

#[test]
fn reset_event_silences_the_channel() {
    let mut hw = HW::new(32768);
    let mut bus = RamBus::new(0x100, 1, 1);
    hw.spu.psg_channels[3].sample = 1234;
    hw.handle_event(&mut bus, Event::ResetAudioChannel(ChannelSpec::PSG(3)), 0).unwrap();
    assert_eq!(hw.spu.psg_channels[3].sample, 0);
}
