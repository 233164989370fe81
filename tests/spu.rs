use nds_core::mmu::RamBus;
use nds_core::scheduler::{Event, Scheduler};
use nds_core::spu::{
    adpcm_decode, BaseChannel, Channel, ChannelSpec, Format, NoiseChannel, RepeatMode, StepError,
    CLOCK_RATE, SPU,
};

/// 0x400 bytes holding a pattern.
fn memory() -> RamBus {
    let mut bus = RamBus::new(0x400, 1, 1);
    for (i, b) in bus.mem.iter_mut().enumerate() {
        *b = (i as u8).wrapping_mul(7).wrapping_add(1);
    }
    bus
}

/// Source 0x100, one word of data, timer 0xFF00, then the control byte.
fn start(s: &mut Scheduler, control: u8) -> Channel<BaseChannel> {
    let mut c = Channel::<BaseChannel>::new(ChannelSpec::Base(2));
    c.write(s, 4, 0x00);
    c.write(s, 5, 0x01);
    c.write(s, 12, 1);
    c.write(s, 8, 0x00);
    c.write(s, 9, 0xFF);
    c.write(s, 3, control);
    c
}

#[test]
fn loop_mode_rewinds_and_keeps_playing() {
    let mut s = Scheduler::new();
    let mut bus = memory();
    let mut c = start(&mut s, 0x80 | (1 << 3));
    assert_eq!(c.format(), Format::PCM8);
    assert_eq!(c.cnt.repeat_mode, RepeatMode::Loop);
    for i in 0..3 {
        assert_eq!(c.step(&mut s, &mut bus), Ok(Some(bus.mem[0x100 + i] as u32)));
    }
    assert_eq!(c.num_bytes_left, 1);
    assert_eq!(c.step(&mut s, &mut bus), Ok(Some(bus.mem[0x103] as u32)));
    assert_eq!(c.addr, 0x100);
    assert_eq!(c.num_bytes_left, 4);
    assert!(c.cnt.busy);
    assert_eq!(c.sample, ((bus.mem[0x103] as u16) << 8) as i16);
    assert_eq!(s.peek_next(), Some((Event::StepAudioChannel(ChannelSpec::Base(2)), 0x100)));
}

#[test]
fn manual_mode_stops_with_a_silent_held_sample() {
    let mut s = Scheduler::new();
    let mut bus = memory();
    let mut c = start(&mut s, 0x80);
    for _ in 0..3 {
        c.step(&mut s, &mut bus).unwrap();
    }
    s.remove(Event::StepAudioChannel(ChannelSpec::Base(2)));
    assert_eq!(c.step(&mut s, &mut bus), Ok(Some(bus.mem[0x103] as u32)));
    assert!(!c.cnt.busy);
    assert_eq!(c.last_sample, Some(0));
    assert_eq!(c.num_bytes_left, 0);
    assert_eq!(c.sample, 0);
    assert_eq!(s.peek_next(), None);
    assert_eq!(c.step(&mut s, &mut bus), Ok(None));
}

#[test]
fn one_shot_mode_holds_the_last_sample() {
    let mut s = Scheduler::new();
    let mut bus = memory();
    let mut c = start(&mut s, 0x80 | (2 << 3) | (1 << 5));
    c.step(&mut s, &mut bus).unwrap();
    let first = c.sample;
    assert_eq!(first, u16::from_le_bytes([bus.mem[0x100], bus.mem[0x101]]) as i16);
    s.remove(Event::StepAudioChannel(ChannelSpec::Base(2)));
    c.step(&mut s, &mut bus).unwrap();
    let last = u16::from_le_bytes([bus.mem[0x102], bus.mem[0x103]]) as i16;
    assert!(!c.cnt.busy);
    assert_eq!(c.sample, last);
    assert_eq!(c.last_sample, Some(last));
    assert_eq!(s.peek_next(), None);
    c.use_last_sample();
    assert_eq!(c.sample, last);
    assert_eq!(c.last_sample, None);
}

#[test]
fn starting_arms_the_first_step_and_stopping_cancels_it() {
    let mut s = Scheduler::new();
    let mut c = start(&mut s, 0x80);
    assert_eq!(s.peek_next(), Some((Event::StepAudioChannel(ChannelSpec::Base(2)), 0x100)));
    c.write(&mut s, 3, 0x00);
    assert!(!c.cnt.busy);
    assert_eq!(s.peek_next(), None);
}

#[test]
fn zero_timer_arms_nothing() {
    let mut s = Scheduler::new();
    let mut c = Channel::<NoiseChannel>::new(ChannelSpec::Noise(1));
    c.write(&mut s, 12, 1);
    c.write(&mut s, 3, 0x80);
    assert!(c.cnt.busy);
    assert_eq!(s.peek_next(), None);
}

#[test]
fn timer_period_is_the_twos_complement_of_the_register() {
    let mut s = Scheduler::new();
    let mut c = start(&mut s, 0x80);
    c.write(&mut s, 8, 0x01);
    c.write(&mut s, 9, 0x00);
    assert_eq!(c.timer_val, 1);
    assert_eq!(s.peek_next(), Some((Event::StepAudioChannel(ChannelSpec::Base(2)), 0xFFFF)));
}

#[test]
fn register_bytes_and_read_back() {
    let mut s = Scheduler::new();
    let mut c = Channel::<BaseChannel>::new(ChannelSpec::Base(0));
    c.write(&mut s, 0, 0xFF);
    c.write(&mut s, 1, 0x83);
    c.write(&mut s, 2, 0x40);
    assert_eq!(c.cnt.volume_mul, 0x7F);
    assert_eq!(c.cnt.volume_div, 3);
    assert!(c.cnt.hold);
    assert_eq!(c.read(0), 0x7F);
    assert_eq!(c.read(1), 0x83);
    assert_eq!(c.read(2), 0x40);
    c.write(&mut s, 4, 0x78);
    c.write(&mut s, 5, 0x56);
    c.write(&mut s, 6, 0x34);
    c.write(&mut s, 7, 0xFF);
    assert_eq!(c.src_addr, 0x0334_5678);
    assert_eq!(c.addr, 0x0334_5678);
    assert_eq!(c.read(4), 0);
    c.write(&mut s, 14, 0xFF);
    assert_eq!(c.len, 0x3F_0000);
    assert_eq!(c.num_bytes_left, 0x3F_0000 * 4);
    c.write(&mut s, 10, 0x34);
    c.write(&mut s, 11, 0x12);
    assert_eq!(c.loop_start, 0x1234);
}

#[test]
fn adpcm_reads_the_header_then_decodes_nibbles() {
    let mut s = Scheduler::new();
    let mut bus = memory();
    bus.mem[0x100..0x104].copy_from_slice(&[0x00, 0x00, 0x00, 0x00]);
    bus.mem[0x104] = 0x07;
    let mut c = start(&mut s, 0x80 | (2 << 5));
    c.write(&mut s, 12, 2);
    assert_eq!(c.step(&mut s, &mut bus), Ok(Some(0)));
    assert_eq!(c.addr, 0x104);
    assert!(!c.adpcm.header_pending);
    assert_eq!(c.sample, 0);
    c.step(&mut s, &mut bus).unwrap();
    assert_eq!(c.sample, 11);
    assert_eq!(c.adpcm.index, 8);
    assert_eq!(c.step(&mut s, &mut bus), Ok(None));
    assert_eq!(c.addr, 0x105);
    assert_eq!(c.sample, 13);
    assert_eq!(c.adpcm.index, 7);
}

#[test]
fn adpcm_header_takes_the_initial_sample_and_index() {
    let mut c = Channel::<BaseChannel>::new(ChannelSpec::Base(0));
    c.set_initial_adpcm(0x007F_8000);
    assert_eq!(c.sample, -0x8000);
    assert_eq!(c.adpcm.index, 88);
}

#[test]
fn adpcm_decoding_clamps() {
    assert_eq!(adpcm_decode(0x7FF0, 88, 0x7), (0x7FFF, 88));
    assert_eq!(adpcm_decode(-0x7FF0, 88, 0xF), (-0x7FFF, 88));
    assert_eq!(adpcm_decode(100, 0, 0x3), (100 + 7 / 8 + 7 / 4 + 7 / 2, 0));
}

#[test]
fn psg_format_is_refused_and_changes_nothing() {
    let mut s = Scheduler::new();
    let mut bus = memory();
    let mut c = start(&mut s, 0x80 | (3 << 5));
    let addr = c.addr;
    assert_eq!(c.step(&mut s, &mut bus), Err(StepError::UnsupportedFormat(Format::PSG)));
    assert_eq!(c.addr, addr);
}

#[test]
fn pcm16_sample_is_signed() {
    let mut c = Channel::<BaseChannel>::new(ChannelSpec::Base(0));
    c.set_sample(0xFFFEu16);
    assert_eq!(c.sample, -2);
    c.set_sample(0x80u8);
    assert_eq!(c.sample, -0x8000);
    c.reset_sample();
    assert_eq!(c.sample, 0);
}

#[test]
fn heartbeat_rearms_at_a_fixed_period() {
    let mut s = Scheduler::new();
    let mut spu = SPU::new(&mut s, 32768);
    assert_eq!(spu.clocks_per_sample, CLOCK_RATE / 32768);
    let period = spu.clocks_per_sample;
    for k in 1..=50usize {
        assert_eq!(s.peek_next(), Some((Event::GenerateAudioSample, k * period)));
        s.advance(period);
        assert_eq!(s.pop_next(), Some((Event::GenerateAudioSample, k * period)));
        spu.generate_sample(&mut s, k * period);
    }
    assert_eq!(spu.output.len(), 50);
    assert_eq!(s.peek_next(), Some((Event::GenerateAudioSample, 51 * period)));
}

#[test]
fn mixing_scales_by_volume_pan_and_master() {
    let mut s = Scheduler::new();
    let mut spu = SPU::new(&mut s, 32768);
    spu.cnt.write(0, 127);
    spu.base_channels[0].sample = 0x4000;
    spu.base_channels[0].cnt.volume_mul = 127;
    spu.base_channels[0].cnt.pan = 64;
    spu.generate_sample(&mut s, 0);
    let side = (0x4000i64 * 127 * 64 * 127) >> 21;
    assert_eq!(side, 8064);
    assert_eq!(spu.output[0], (8064, 8064));
    spu.base_channels[0].cnt.pan = 0;
    spu.base_channels[0].cnt.volume_div = 1;
    spu.generate_sample(&mut s, 0);
    assert_eq!(spu.output[1], (((0x2000i64 * 127 * 128 * 127) >> 21) as i16, 0));
}

#[test]
fn late_heartbeat_rearms_from_its_tick() {
    let mut s = Scheduler::new();
    let mut spu = SPU::new(&mut s, 32768);
    let period = spu.clocks_per_sample;
    s.advance(2 * period + 7);
    assert_eq!(s.pop_next(), Some((Event::GenerateAudioSample, period)));
    spu.generate_sample(&mut s, period);
    assert_eq!(s.peek_next(), Some((Event::GenerateAudioSample, 2 * period)));
}

#[test]
fn silent_unit_mixes_to_zero() {
    let mut s = Scheduler::new();
    let mut spu = SPU::new(&mut s, 44100);
    spu.cnt.write(0, 127);
    spu.generate_sample(&mut s, 0);
    assert_eq!(spu.output[0], (0, 0));
}

#[test]
fn channel_registers_through_the_unit() {
    let mut s = Scheduler::new();
    let mut spu = SPU::new(&mut s, 32768);
    spu.write_channels(&mut s, 0x92, 0x55);
    assert_eq!(spu.psg_channels[1].cnt.pan, 0x55);
    assert_eq!(spu.read_channels(0x92), 0x55);
    spu.write_channels(&mut s, 0xF0, 0x7F);
    assert_eq!(spu.noise_channels[1].cnt.volume_mul, 0x7F);
    assert_eq!(spu.read_channels(0xF0), 0x7F);
    assert_eq!(spu.read_channels(0x30), 0);
}

#[test]
fn reset_silences_and_keeps_the_rest() {
    let mut s = Scheduler::new();
    let mut bus = memory();
    let mut c = start(&mut s, 0x80);
    c.step(&mut s, &mut bus).unwrap();
    c.last_sample = Some(5);
    let (addr, left, timer) = (c.addr, c.num_bytes_left, c.timer_val);
    c.reset_sample();
    assert_eq!(c.sample, 0);
    assert_eq!(c.last_sample, Some(5));
    assert_eq!((c.addr, c.num_bytes_left, c.timer_val), (addr, left, timer));
    assert!(c.cnt.busy);
}

#[test]
fn sound_register_space() {
    let mut s = Scheduler::new();
    let mut spu = SPU::new(&mut s, 32768);
    spu.write(&mut s, 0x500, 0xFF);
    spu.write(&mut s, 0x501, 0x80);
    assert_eq!(spu.read(0x500), 0x7F);
    assert_eq!(spu.read(0x501), 0x80);
    assert!(spu.cnt.enable);
    spu.write(&mut s, 0x412, 0x33);
    assert_eq!(spu.base_channels[1].cnt.pan, 0x33);
    assert_eq!(spu.read(0x412), 0x33);
    spu.write(&mut s, 0x600, 0x12);
    assert_eq!(spu.read(0x600), 0);
}
