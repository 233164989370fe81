use std::marker::PhantomData;

use vstd::prelude::*;

use crate::mmu::{Bus, BusOp, MemoryValue, Width};
use crate::scheduler::{due_at, Event, Scheduler};

verus! {

/// Identifies one audio channel slot: general-purpose, tone (PSG) or noise.
#[derive(Clone, Copy, Debug, PartialEq, Eq, Hash, Structural)]
pub enum ChannelSpec {
    Base(usize),
    PSG(usize),
    Noise(usize),
}

/// The sample format of a channel.
#[derive(Clone, Copy, Debug, PartialEq, Eq, Structural)]
pub enum Format {
    PCM8,
    PCM16,
    ADPCM,
    PSG,
}

/// What a channel does when its data runs out.
#[derive(Clone, Copy, Debug, PartialEq, Eq, Structural)]
pub enum RepeatMode {
    Manual,
    Loop,
    OneShot,
}

/// A format that stepping does not model yet.
#[derive(Clone, Copy, Debug, PartialEq, Eq, Structural)]
pub enum StepError {
    UnsupportedFormat(Format),
}

/// What kind of slot a channel occupies.
pub trait ChannelType {
    fn supports_psg() -> bool;

    fn supports_noise() -> bool;
}

#[derive(Clone, Copy, Debug)]
pub struct BaseChannel {}

#[derive(Clone, Copy, Debug)]
pub struct PSGChannel {}

#[derive(Clone, Copy, Debug)]
pub struct NoiseChannel {}

impl ChannelType for BaseChannel {
    fn supports_psg() -> bool {
        false
    }

    fn supports_noise() -> bool {
        false
    }
}

impl ChannelType for PSGChannel {
    fn supports_psg() -> bool {
        true
    }

    fn supports_noise() -> bool {
        false
    }
}

impl ChannelType for NoiseChannel {
    fn supports_psg() -> bool {
        false
    }

    fn supports_noise() -> bool {
        true
    }
}

/// The control register of a channel, decoded.
#[derive(Clone, Copy, Debug, PartialEq, Eq, Structural)]
pub struct ChannelControl {
    pub volume_mul: u8,
    pub volume_div: u8,
    pub hold: bool,
    pub pan: u8,
    pub wave_duty: u8,
    pub repeat_mode: RepeatMode,
    pub format: Format,
    pub busy: bool,
}

impl ChannelControl {
    pub open spec fn wf(&self) -> bool {
        self.volume_mul <= 127 && self.volume_div <= 3 && self.pan <= 127 && self.wave_duty <= 7
    }

    pub fn new() -> (r: ChannelControl)
        ensures
            r.wf(),
            r.volume_mul == 0,
            r.volume_div == 0,
            !r.hold,
            r.pan == 0,
            r.wave_duty == 0,
            r.repeat_mode == RepeatMode::Manual,
            r.format == Format::PCM8,
            !r.busy,
    {
        ChannelControl {
            volume_mul: 0,
            volume_div: 0,
            hold: false,
            pan: 0,
            wave_duty: 0,
            repeat_mode: RepeatMode::Manual,
            format: Format::PCM8,
            busy: false,
        }
    }

    /// Right shift applied to a sample before scaling: 0, 1, 2 or 4.
    pub open spec fn spec_volume_shift(&self) -> u32 {
        if self.volume_div == 3 {
            4
        } else {
            self.volume_div as u32
        }
    }

    pub fn volume_shift(&self) -> (r: u32)
        ensures
            r == self.spec_volume_shift(),
    {
        if self.volume_div == 3 {
            4
        } else {
            self.volume_div as u32
        }
    }

    /// Reads byte `byte` of the register.
    pub fn read(&self, byte: usize) -> (r: u8)
        requires
            self.wf(),
            byte < 4,
        ensures
            r == control_byte(*self, byte as nat),
    {
        if byte == 0 {
            self.volume_mul
        } else if byte == 1 {
            (if self.hold {
                0x80u8
            } else {
                0u8
            }) | self.volume_div
        } else if byte == 2 {
            self.pan
        } else {
            let repeat: u8 = match self.repeat_mode {
                RepeatMode::Manual => 0,
                RepeatMode::Loop => 1,
                RepeatMode::OneShot => 2,
            };
            let format: u8 = match self.format {
                Format::PCM8 => 0,
                Format::PCM16 => 1,
                Format::ADPCM => 2,
                Format::PSG => 3,
            };
            (if self.busy {
                0x80u8
            } else {
                0u8
            }) | (format << 5u8) | (repeat << 3u8) | self.wave_duty
        }
    }

    /// Writes byte `byte` of the register.
    pub fn write(&mut self, byte: usize, value: u8)
        requires
            old(self).wf(),
            byte < 4,
        ensures
            final(self).wf(),
            *final(self) == control_with_byte(*old(self), byte as nat, value),
    {
        if byte == 0 {
            self.volume_mul = value & 0x7F;
        } else if byte == 1 {
            self.volume_div = value & 0x3;
            self.hold = value & 0x80 != 0;
        } else if byte == 2 {
            self.pan = value & 0x7F;
        } else {
            self.wave_duty = value & 0x7;
            self.repeat_mode = repeat_mode_from_bits((value >> 3u8) & 0x3);
            self.format = format_from_bits((value >> 5u8) & 0x3);
            self.busy = value & 0x80 != 0;
        }
        proof {
            assert(value & 0x7F <= 127) by (bit_vector);
            assert(value & 0x3 <= 3) by (bit_vector);
            assert(value & 0x7 <= 7) by (bit_vector);
        }
    }
}

/// Step sizes of the IMA-ADPCM decoder, by step index.
pub const ADPCM_STEPS: [u16; 89] = [
    7, 8, 9, 10, 11, 12, 13, 14, 16, 17, 19, 21, 23, 25, 28, 31, 34, 37, 41, 45, 50, 55, 60, 66,
    73, 80, 88, 97, 107, 118, 130, 143, 157, 173, 190, 209, 230, 253, 279, 307, 337, 371, 408,
    449, 494, 544, 598, 658, 724, 796, 876, 963, 1060, 1166, 1282, 1411, 1552, 1707, 1878, 2066,
    2272, 2499, 2749, 3024, 3327, 3660, 4026, 4428, 4871, 5358, 5894, 6484, 7132, 7845, 8630,
    9493, 10442, 11487, 12635, 13899, 15289, 16818, 18500, 20350, 22385, 24623, 27086, 29794,
    32767,
];

fn adpcm_step(index: u8) -> (r: u16)
    requires
        index <= 88,
    ensures
        r == ADPCM_STEPS@[index as int],
{
    ADPCM_STEPS[index as usize]
}

/// Decoder state of an IMA-ADPCM channel.
#[derive(Clone, Copy, Debug, PartialEq, Eq, Structural)]
pub struct AdpcmState {
    /// The header has not been read since the channel started.
    pub header_pending: bool,
    pub value: i16,
    pub index: u8,
    /// The next nibble is the high one of `data`.
    pub high_nibble: bool,
    pub data: u8,
}

/// The decoder state after one 4-bit code: the difference is built from the
/// step size by the three low bits, added or (bit 3) subtracted with the result
/// held within +-0x7FFF, and the step index moved by the code and held in 0..=88.
pub open spec fn adpcm_next(value: i16, index: u8, code: u8) -> (i16, u8) {
    let step = ADPCM_STEPS@[index as int] as int;
    let diff = step / 8 + (if code & 1 != 0 {
        step / 4
    } else {
        0
    }) + (if code & 2 != 0 {
        step / 2
    } else {
        0
    }) + (if code & 4 != 0 {
        step
    } else {
        0
    });
    let v = if code & 8 != 0 {
        if value - diff < -0x7FFF {
            -0x7FFF
        } else {
            value - diff
        }
    } else {
        if value + diff > 0x7FFF {
            0x7FFF
        } else {
            value + diff
        }
    };
    let moved = index + (if code & 4 != 0 {
        2 * (code & 3) + 2
    } else {
        -1
    });
    let i = if moved < 0 {
        0
    } else if moved > 88 {
        88
    } else {
        moved
    };
    (v as i16, i as u8)
}

/// Decodes one 4-bit code.
pub fn adpcm_decode(value: i16, index: u8, code: u8) -> (r: (i16, u8))
    requires
        index <= 88,
        code <= 15,
    ensures
        r == adpcm_next(value, index, code),
        r.1 <= 88,
{
    let step = adpcm_step(index) as i32;
    let mut diff: i32 = step / 8;
    if code & 1 != 0 {
        diff = diff + step / 4;
    }
    if code & 2 != 0 {
        diff = diff + step / 2;
    }
    if code & 4 != 0 {
        diff = diff + step;
    }
    let v: i32 = if code & 8 != 0 {
        if value as i32 - diff < -0x7FFF {
            -0x7FFF
        } else {
            value as i32 - diff
        }
    } else {
        if value as i32 + diff > 0x7FFF {
            0x7FFF
        } else {
            value as i32 + diff
        }
    };
    let moved: i32 = index as i32 + if code & 4 != 0 {
        2 * (code & 3) as i32 + 2
    } else {
        -1
    };
    let i: i32 = if moved < 0 {
        0
    } else if moved > 88 {
        88
    } else {
        moved
    };
    (v as i16, i as u8)
}

/// Largest length register value, in words.
pub const MAX_LEN: u32 = 0x3F_FFFF;

/// One audio channel: its registers, its playback cursor and its output.
#[derive(Debug)]
pub struct Channel<T: ChannelType> {
    pub cnt: ChannelControl,
    pub src_addr: u32,
    pub timer_val: u16,
    pub loop_start: u16,
    /// Length of the sample data in words.
    pub len: u32,
    pub spec: ChannelSpec,
    pub addr: u32,
    pub num_bytes_left: u32,
    pub sample: i16,
    pub last_sample: Option<i16>,
    pub adpcm: AdpcmState,
    pub kind: PhantomData<T>,
}

/// The cycles between two steps of a channel whose timer register holds
/// `timer`: the register counts up from `timer` and overflows at 0x10000.
pub open spec fn step_period(timer: u16) -> nat {
    (0x10000 - timer) as nat
}

/// A sample read as an unsigned value of `size` bytes, made a signed 16-bit
/// sample (an 8-bit one fills the high byte).
pub open spec fn pcm_sample(v: u32, size: nat) -> i16 {
    if size == 1 {
        signed16((v & 0xFF) * 256)
    } else {
        signed16((v & 0xFFFF) as int)
    }
}

/// A 16-bit pattern read as two's complement.
pub open spec fn signed16(u: int) -> i16 {
    if u >= 0x8000 {
        (u - 0x10000) as i16
    } else {
        u as i16
    }
}

fn to_signed16(u: u16) -> (r: i16)
    ensures
        r == signed16(u as int),
{
    if u >= 0x8000 {
        (u as i32 - 0x10000) as i16
    } else {
        u as i16
    }
}

impl<T: ChannelType> Channel<T> {
    pub open spec fn wf(&self) -> bool {
        &&& self.cnt.wf()
        &&& self.src_addr <= 0x3FF_FFFF
        &&& self.len <= MAX_LEN
        &&& self.num_bytes_left <= 4 * MAX_LEN
        &&& self.adpcm.index <= 88
    }

    /// The channel after one unit of `size` bytes is taken at the cursor. When
    /// that empties the data: manual mode stops with a silent held sample, loop
    /// mode rewinds to the source address with the full length, one-shot mode
    /// stops holding the current sample.
    pub open spec fn fetched(self, size: nat) -> Channel<T> {
        if self.num_bytes_left == 0 {
            self
        } else {
            let addr = ((self.addr + size) % 0x1_0000_0000) as u32;
            let left = if self.num_bytes_left > size {
                (self.num_bytes_left - size) as u32
            } else {
                0u32
            };
            if left > 0 {
                Channel { addr, num_bytes_left: left, ..self }
            } else {
                match self.cnt.repeat_mode {
                    RepeatMode::Manual => Channel {
                        addr,
                        num_bytes_left: 0,
                        last_sample: Some(0),
                        cnt: ChannelControl { busy: false, ..self.cnt },
                        ..self
                    },
                    RepeatMode::Loop => Channel {
                        addr: self.src_addr,
                        num_bytes_left: (self.len * 4) as u32,
                        last_sample: Some(0),
                        ..self
                    },
                    RepeatMode::OneShot => Channel {
                        addr,
                        num_bytes_left: 0,
                        last_sample: Some(self.sample),
                        cnt: ChannelControl { busy: false, ..self.cnt },
                        ..self
                    },
                }
            }
        }
    }

    /// A stopped channel in slot `spec` with every register and the cursor
    /// cleared.
    pub open spec fn is_fresh(self, spec: ChannelSpec) -> bool {
        &&& self.cnt == ChannelControl::spec_new()
        &&& self.src_addr == 0
        &&& self.timer_val == 0
        &&& self.loop_start == 0
        &&& self.len == 0
        &&& self.spec == spec
        &&& self.addr == 0
        &&& self.num_bytes_left == 0
        &&& self.sample == 0
        &&& self.last_sample is None
        &&& self.adpcm == AdpcmState::spec_new()
    }

    pub fn new(spec: ChannelSpec) -> (r: Channel<T>)
        ensures
            r.wf(),
            r.is_fresh(spec),
    {
        Channel {
            cnt: ChannelControl::new(),
            src_addr: 0,
            timer_val: 0,
            loop_start: 0,
            len: 0,
            spec,
            addr: 0,
            num_bytes_left: 0,
            sample: 0,
            last_sample: None,
            adpcm: AdpcmState::new(),
            kind: PhantomData,
        }
    }

    pub fn format(&self) -> (r: Format)
        ensures
            r == self.cnt.format,
    {
        self.cnt.format
    }

    /// Takes one unit of type `M` at the cursor: returns its address, or `None`
    /// when no data is left, and moves the cursor as `fetched` says.
    pub fn next_addr<M: MemoryValue>(&mut self) -> (r: Option<u32>)
        requires
            old(self).wf(),
        ensures
            final(self).wf(),
            *final(self) == old(self).fetched(M::spec_size()),
            old(self).num_bytes_left == 0 <==> r is None,
            r matches Some(a) ==> a == old(self).addr,
    {
        if self.num_bytes_left == 0 {
            return None;
        }
        let size = M::size();
        let return_addr = self.addr;
        self.addr = self.addr.wrapping_add(size);
        self.num_bytes_left = if self.num_bytes_left > size {
            self.num_bytes_left - size
        } else {
            0
        };
        if self.num_bytes_left == 0 {
            match self.cnt.repeat_mode {
                RepeatMode::Manual => {
                    self.last_sample = Some(0);
                    self.cnt.busy = false;
                },
                RepeatMode::Loop => {
                    self.addr = self.src_addr;
                    self.num_bytes_left = self.len * 4;
                    self.last_sample = Some(0);
                },
                RepeatMode::OneShot => {
                    self.last_sample = Some(self.sample);
                    self.cnt.busy = false;
                },
            }
        }
        Some(return_addr)
    }

    /// Makes the held last sample the live one and stops holding it.
    pub fn use_last_sample(&mut self)
        requires
            old(self).last_sample is Some,
        ensures
            *final(self) == (Channel {
                sample: old(self).last_sample->Some_0,
                last_sample: None,
                ..*old(self)
            }),
    {
        match self.last_sample {
            Some(s) => {
                self.sample = s;
            },
            None => {},
        }
        self.last_sample = None;
    }

    /// Takes `value`, an unsigned sample of type `M`, as the live sample.
    pub fn set_sample<M: MemoryValue>(&mut self, value: M)
        requires
            M::spec_size() <= 2,
        ensures
            *final(self) == (Channel { sample: pcm_sample(value.spec_value(), M::spec_size()), ..*old(self) }),
    {
        let v = value.to_u32();
        proof {
            assert(v & 0xFF <= 0xFF) by (bit_vector);
            assert(v & 0xFFFF <= 0xFFFF) by (bit_vector);
        }
        if M::size() == 1 {
            self.sample = to_signed16((v & 0xFF) as u16 * 256);
        } else {
            self.sample = to_signed16((v & 0xFFFF) as u16);
        }
    }

    /// Takes the 32-bit ADPCM header: the initial sample in the low half and
    /// the step index in bits 16-22, held at 88.
    pub fn set_initial_adpcm(&mut self, header: u32)
        requires
            old(self).wf(),
        ensures
            final(self).wf(),
            *final(self) == old(self).with_header(header),
    {
        proof {
            assert(header & 0xFFFF <= 0xFFFF) by (bit_vector);
            assert((header >> 16u32) & 0x7F <= 0x7F) by (bit_vector);
        }
        let value = to_signed16((header & 0xFFFF) as u16);
        let raw = (header >> 16u32) & 0x7F;
        let index: u8 = if raw > 88 {
            88
        } else {
            raw as u8
        };
        self.sample = value;
        self.adpcm = AdpcmState {
            header_pending: false,
            value,
            index,
            high_nibble: false,
            data: self.adpcm.data,
        };
    }

    /// Decodes the next 4-bit code: the low nibble of `data`, or its high
    /// nibble when the low one was already used.
    pub fn decode_adpcm(&mut self, data: u8)
        requires
            old(self).wf(),
        ensures
            final(self).wf(),
            *final(self) == old(self).with_code(data),
    {
        let high = self.adpcm.high_nibble;
        let byte = if high {
            self.adpcm.data
        } else {
            data
        };
        let code = if high {
            byte >> 4u8
        } else {
            byte & 0xF
        };
        proof {
            assert(byte >> 4u8 <= 15) by (bit_vector);
            assert(byte & 0xF <= 15) by (bit_vector);
        }
        let (value, index) = adpcm_decode(self.adpcm.value, self.adpcm.index, code);
        self.sample = value;
        self.adpcm.value = value;
        self.adpcm.index = index;
        self.adpcm.high_nibble = !high;
        self.adpcm.data = byte;
    }

    /// The channel after taking the 32-bit ADPCM header: the initial sample
    /// in the low half, the step index in bits 16-22 held at 88.
    pub open spec fn with_header(self, header: u32) -> Channel<T> {
        let value = signed16((header & 0xFFFF) as int);
        Channel {
            sample: value,
            adpcm: AdpcmState {
                header_pending: false,
                value,
                index: if (header >> 16u32) & 0x7F > 88 {
                    88u8
                } else {
                    ((header >> 16u32) & 0x7F) as u8
                },
                high_nibble: false,
                ..self.adpcm
            },
            ..self
        }
    }

    /// The channel after decoding its next 4-bit code: the low nibble of
    /// `data`, or the high nibble of the byte kept when the low one was used.
    pub open spec fn with_code(self, data: u8) -> Channel<T> {
        let code = if self.adpcm.high_nibble {
            self.adpcm.data >> 4u8
        } else {
            data & 0xF
        };
        let next = adpcm_next(self.adpcm.value, self.adpcm.index, code);
        Channel {
            sample: next.0,
            adpcm: AdpcmState {
                value: next.0,
                index: next.1,
                high_nibble: !self.adpcm.high_nibble,
                data: if self.adpcm.high_nibble {
                    self.adpcm.data
                } else {
                    data
                },
                ..self.adpcm
            },
            ..self
        }
    }

    /// The channel after a step that stopped it (it was playing before,
    /// `was_busy`, and is not now): a manual stop goes silent, a one-shot
    /// run holds its final sample. Otherwise nothing changes.
    pub open spec fn settled(self, was_busy: bool) -> Channel<T> {
        if was_busy && !self.cnt.busy {
            match self.cnt.repeat_mode {
                RepeatMode::Manual => Channel { sample: 0, ..self },
                RepeatMode::OneShot => Channel { last_sample: Some(self.sample), ..self },
                RepeatMode::Loop => self,
            }
        } else {
            self
        }
    }

    /// The width of the unit a step reads.
    pub open spec fn step_width(self) -> Width {
        match self.cnt.format {
            Format::PCM16 => Width::Half,
            Format::ADPCM => if self.adpcm.header_pending {
                Width::Word
            } else {
                Width::Byte
            },
            _ => Width::Byte,
        }
    }

    /// The channel after taking the unit `v` read at the cursor in its format.
    pub open spec fn after_read(self, v: u32) -> Channel<T> {
        match self.cnt.format {
            Format::PCM8 => Channel { sample: pcm_sample(v & 0xFF, 1), ..self },
            Format::PCM16 => Channel { sample: pcm_sample(v & 0xFFFF, 2), ..self },
            _ => if self.adpcm.header_pending {
                self.with_header(v)
            } else {
                self.with_code((v & 0xFF) as u8)
            },
        }
    }

    /// The bytes one step takes at the cursor: one PCM unit, the 32-bit ADPCM
    /// header, a byte of ADPCM codes, or none when the high nibble of the last
    /// byte is still to be decoded.
    pub open spec fn fetch_size(self) -> nat {
        match self.cnt.format {
            Format::PCM8 => 1,
            Format::PCM16 => 2,
            _ => if self.adpcm.header_pending {
                4
            } else if self.adpcm.high_nibble {
                0
            } else {
                1
            },
        }
    }

    /// The channel after a step takes `size` bytes.
    pub open spec fn cursor_after(self, size: nat) -> Channel<T> {
        if size == 0 {
            self
        } else {
            self.fetched(size)
        }
    }

    /// Arms the channel's next step `step_period` cycles ahead while it plays;
    /// a stopped channel or a zero timer arms nothing.
    pub fn schedule(&self, sched: &mut Scheduler)
        requires
            old(sched).wf(),
        ensures
            final(sched).wf(),
            final(sched).cycle == old(sched).cycle,
            final(sched).pending() == rearmed(
                old(sched).pending(),
                old(sched).cycle,
                self.timer_val,
                self.cnt.busy,
                self.spec,
            ),
    {
        if self.timer_val != 0 && self.cnt.busy {
            let delay = (0x10000u32 - self.timer_val as u32) as usize;
            sched.schedule(Event::StepAudioChannel(self.spec), delay);
        }
    }

    /// Reads byte `byte` of the channel's registers; all but the control
    /// register are write-only and read as 0.
    pub fn read(&self, byte: usize) -> (r: u8)
        requires
            self.wf(),
            byte < 16,
        ensures
            byte < 4 ==> r == control_byte(self.cnt, byte as nat),
            byte >= 4 ==> r == 0,
    {
        if byte < 4 {
            self.cnt.read(byte)
        } else {
            0
        }
    }

    /// Writes byte `byte` of the channel's registers. Starting the channel
    /// clears its held sample, restarts ADPCM decoding and arms its first step;
    /// stopping it clears its held sample and cancels its pending step.
    pub fn write(&mut self, sched: &mut Scheduler, byte: usize, value: u8)
        requires
            old(self).wf(),
            old(sched).wf(),
            byte < 16,
        ensures
            final(self).wf(),
            final(sched).wf(),
            final(sched).cycle == old(sched).cycle,
            *final(self) == old(self).written(byte as nat, value),
            final(sched).pending() == old(self).written_schedule(
                old(sched).pending(),
                old(sched).cycle,
                byte as nat,
                value,
            ),
    {
        if byte < 3 {
            self.cnt.write(byte, value);
        } else if byte == 3 {
            let prev_busy = self.cnt.busy;
            self.cnt.write(byte, value);
            if !prev_busy && self.cnt.busy {
                self.last_sample = None;
                self.adpcm.header_pending = true;
                self.adpcm.high_nibble = false;
                self.schedule(sched);
            } else if !self.cnt.busy {
                self.last_sample = None;
                sched.remove(Event::StepAudioChannel(self.spec));
            }
        } else if byte < 8 {
            self.src_addr = replace_byte(self.src_addr, (byte - 4) as u32, value) & 0x3FF_FFFF;
            self.addr = self.src_addr;
            proof {
                let w = spec_replace_byte(old(self).src_addr, (byte - 4) as u32, value);
                assert(w & 0x3FF_FFFF <= 0x3FF_FFFF) by (bit_vector);
            }
        } else if byte < 10 {
            self.timer_val = (replace_byte(self.timer_val as u32, (byte - 8) as u32, value)
                & 0xFFFF) as u16;
            proof {
                let w = spec_replace_byte(old(self).timer_val as u32, (byte - 8) as u32, value);
                assert(w & 0xFFFF <= 0xFFFF) by (bit_vector);
            }
            if self.cnt.busy {
                self.schedule(sched);
            }
        } else if byte < 12 {
            self.loop_start = (replace_byte(self.loop_start as u32, (byte - 10) as u32, value)
                & 0xFFFF) as u16;
            proof {
                let w = spec_replace_byte(old(self).loop_start as u32, (byte - 10) as u32, value);
                assert(w & 0xFFFF <= 0xFFFF) by (bit_vector);
            }
        } else {
            self.len = replace_byte(self.len, (byte - 12) as u32, value) & MAX_LEN;
            proof {
                let w = spec_replace_byte(old(self).len, (byte - 12) as u32, value);
                assert(w & 0x3F_FFFF <= 0x3F_FFFF) by (bit_vector);
            }
            self.num_bytes_left = self.len * 4;
        }
    }

    /// The channel after writing `value` to register byte `byte`.
    pub open spec fn written(self, byte: nat, value: u8) -> Channel<T> {
        if byte < 3 {
            Channel { cnt: control_with_byte(self.cnt, byte, value), ..self }
        } else if byte == 3 {
            let cnt = control_with_byte(self.cnt, byte, value);
            if !self.cnt.busy && cnt.busy {
                Channel {
                    cnt,
                    last_sample: None,
                    adpcm: AdpcmState { header_pending: true, high_nibble: false, ..self.adpcm },
                    ..self
                }
            } else if !cnt.busy {
                Channel { cnt, last_sample: None, ..self }
            } else {
                Channel { cnt, ..self }
            }
        } else if byte < 8 {
            let src = spec_replace_byte(self.src_addr, (byte - 4) as u32, value) & 0x3FF_FFFF;
            Channel { src_addr: src, addr: src, ..self }
        } else if byte < 10 {
            Channel {
                timer_val: (spec_replace_byte(self.timer_val as u32, (byte - 8) as u32, value)
                    & 0xFFFF) as u16,
                ..self
            }
        } else if byte < 12 {
            Channel {
                loop_start: (spec_replace_byte(self.loop_start as u32, (byte - 10) as u32, value)
                    & 0xFFFF) as u16,
                ..self
            }
        } else {
            let len = spec_replace_byte(self.len, (byte - 12) as u32, value) & 0x3F_FFFF;
            Channel { len, num_bytes_left: (len * 4) as u32, ..self }
        }
    }

    /// The pending events after writing `value` to register byte `byte`.
    pub open spec fn written_schedule(
        self,
        pending: Map<Event, nat>,
        cycle: usize,
        byte: nat,
        value: u8,
    ) -> Map<Event, nat> {
        let after = self.written(byte, value);
        if byte == 3 && !self.cnt.busy && after.cnt.busy {
            rearmed(pending, cycle, after.timer_val, true, self.spec)
        } else if byte == 3 && !after.cnt.busy {
            pending.remove(Event::StepAudioChannel(self.spec))
        } else if 8 <= byte < 10 && after.cnt.busy {
            rearmed(pending, cycle, after.timer_val, true, self.spec)
        } else {
            pending
        }
    }

    /// Plays one step: takes the next unit of sample data from `bus` as the
    /// format asks (for ADPCM, the header first after a start), moves the
    /// cursor, and arms the next step while the channel plays. The step that
    /// empties the data of a manual or one-shot channel stops it, silent or
    /// holding its final sample. Returns the unit read, if any. Formats
    /// without a decoder here are an error, and then nothing changes.
    pub fn step<B: Bus>(&mut self, sched: &mut Scheduler, bus: &mut B) -> (r: Result<Option<u32>, StepError>)
        requires
            old(self).wf(),
            old(sched).wf(),
        ensures
            final(self).wf(),
            final(sched).wf(),
            final(sched).cycle == old(sched).cycle,
            stepped(
                *old(self),
                *final(self),
                old(sched).pending(),
                final(sched).pending(),
                old(sched).cycle,
                old(bus).ops(),
                final(bus).ops(),
                r,
            ),
    {
        let was_busy = self.cnt.busy;
        let mut read: Option<u32> = None;
        match self.cnt.format {
            Format::PCM8 => {
                if let Some(addr) = self.next_addr::<u8>() {
                    let v = bus.read(false, addr, Width::Byte);
                    self.set_sample(u8::from_u32(v));
                    read = Some(v);
                }
            },
            Format::PCM16 => {
                if let Some(addr) = self.next_addr::<u16>() {
                    let v = bus.read(false, addr, Width::Half);
                    self.set_sample(u16::from_u32(v));
                    read = Some(v);
                }
            },
            Format::ADPCM => {
                if self.adpcm.header_pending {
                    if let Some(addr) = self.next_addr::<u32>() {
                        let v = bus.read(false, addr, Width::Word);
                        self.set_initial_adpcm(v);
                        read = Some(v);
                    }
                } else if self.adpcm.high_nibble {
                    self.decode_adpcm(0);
                } else {
                    if let Some(addr) = self.next_addr::<u8>() {
                        let v = bus.read(false, addr, Width::Byte);
                        self.decode_adpcm(u8::from_u32(v));
                        read = Some(v);
                    }
                }
            },
            Format::PSG => {
                return Err(StepError::UnsupportedFormat(Format::PSG));
            },
        }
        if was_busy && !self.cnt.busy {
            match self.cnt.repeat_mode {
                RepeatMode::Manual => {
                    self.sample = 0;
                },
                RepeatMode::OneShot => {
                    self.last_sample = Some(self.sample);
                },
                RepeatMode::Loop => {},
            }
        }
        self.schedule(sched);
        Ok(read)
    }

    /// What the channel adds to the left and right mix.
    pub open spec fn spec_mix(&self) -> (int, int) {
        let s = ((self.sample as i64) >> self.cnt.spec_volume_shift()) as int;
        (
            s * self.cnt.volume_mul * (128 - self.cnt.pan),
            s * self.cnt.volume_mul * self.cnt.pan,
        )
    }

    /// Adds the channel's live sample to a stereo accumulator: shifted right
    /// by the volume divider, scaled by the volume and split by the panning.
    pub fn generate_sample(&self, sample: &mut (i64, i64))
        requires
            self.wf(),
            -MIX_BOUND <= old(sample).0 <= MIX_BOUND,
            -MIX_BOUND <= old(sample).1 <= MIX_BOUND,
        ensures
            final(sample).0 == old(sample).0 + self.spec_mix().0,
            final(sample).1 == old(sample).1 + self.spec_mix().1,
    {
        let shift = self.cnt.volume_shift();
        let s = (self.sample as i64) >> shift;
        proof {
            lemma_shr_bound(self.sample as i64, shift);
        }
        let vol = self.cnt.volume_mul as i64;
        let pan = self.cnt.pan as i64;
        proof {
            assert(-0x8000 <= s <= 0x7FFF);
            assert(-0x8000 * 127 <= s * vol <= 0x7FFF * 127) by (nonlinear_arith)
                requires
                    -0x8000 <= s <= 0x7FFF,
                    0 <= vol <= 127,
            ;
            assert(-0x8000 * 127 * 128 <= (s * vol) * (128 - pan) <= 0x7FFF * 127 * 128)
                by (nonlinear_arith)
                requires
                    -0x8000 * 127 <= s * vol <= 0x7FFF * 127,
                    0 <= pan <= 127,
            ;
            assert(-0x8000 * 127 * 128 <= (s * vol) * pan <= 0x7FFF * 127 * 128)
                by (nonlinear_arith)
                requires
                    -0x8000 * 127 <= s * vol <= 0x7FFF * 127,
                    0 <= pan <= 127,
            ;
        }
        sample.0 = sample.0 + s * vol * (128 - pan);
        sample.1 = sample.1 + s * vol * pan;
    }

    /// Sets the live sample to silence; the cursor, the timer and any held
    /// sample stay.
    pub fn reset_sample(&mut self)
        ensures
            *final(self) == old(self).spec_reset(),
    {
        self.sample = 0;
    }

    pub open spec fn spec_reset(self) -> Channel<T> {
        Channel { sample: 0, ..self }
    }
}

impl ChannelControl {
    pub open spec fn spec_new() -> ChannelControl {
        ChannelControl {
            volume_mul: 0,
            volume_div: 0,
            hold: false,
            pan: 0,
            wave_duty: 0,
            repeat_mode: RepeatMode::Manual,
            format: Format::PCM8,
            busy: false,
        }
    }
}

impl AdpcmState {
    pub open spec fn spec_new() -> AdpcmState {
        AdpcmState { header_pending: true, value: 0, index: 0, high_nibble: false, data: 0 }
    }

    pub fn new() -> (r: AdpcmState)
        ensures
            r == AdpcmState::spec_new(),
    {
        AdpcmState { header_pending: true, value: 0, index: 0, high_nibble: false, data: 0 }
    }
}

/// When a fetch empties the data, a looping channel rewinds to its source
/// address with `4 * len` bytes left and keeps playing, while a manual one
/// stops holding a silent sample.
pub proof fn lemma_exhaustion<T: ChannelType>(c: Channel<T>, size: nat)
    requires
        c.wf(),
        0 < c.num_bytes_left <= size,
    ensures
        c.cnt.repeat_mode == RepeatMode::Loop ==> c.fetched(size).addr == c.src_addr
            && c.fetched(size).num_bytes_left == 4 * c.len && c.fetched(size).cnt.busy
            == c.cnt.busy,
        c.cnt.repeat_mode == RepeatMode::Manual ==> !c.fetched(size).cnt.busy
            && c.fetched(size).last_sample == Some(0i16),
{
}

/// Due cycles of successive heartbeats, each re-armed `period` cycles after
/// the one before fired at its due cycle.
pub open spec fn heartbeat_chain(dues: Seq<nat>, period: nat) -> bool {
    forall|i: int| 0 <= i < dues.len() - 1 ==> #[trigger] dues[i + 1] == dues[i] + period
}

/// A heartbeat that re-arms itself at a fixed period never drifts: its
/// `k`-th due cycle is the first one plus `k` periods.
pub proof fn lemma_heartbeat_no_drift(dues: Seq<nat>, period: nat, k: nat)
    requires
        heartbeat_chain(dues, period),
        k < dues.len(),
    ensures
        dues[k as int] == dues[0] + k * period,
    decreases k,
{
    if k > 0 {
        lemma_heartbeat_no_drift(dues, period, (k - 1) as nat);
        let j = k - 1;
        assert(dues[j + 1] == dues[j] + period);
        assert(k * period == (k - 1) * period + period) by (nonlinear_arith);
    } else {
        assert(k * period == 0) by (nonlinear_arith)
            requires
                k == 0,
        ;
    }
}

/// What one step of channel `c` leaves, as `Channel::step` states it: `d` is
/// the channel after, `p` and `q` the pending events before and after, `bo`
/// and `bn` the bus log before and after, `r` what the step returned.
pub open spec fn stepped<T: ChannelType>(
    c: Channel<T>,
    d: Channel<T>,
    p: Map<Event, nat>,
    q: Map<Event, nat>,
    cycle: usize,
    bo: Seq<BusOp>,
    bn: Seq<BusOp>,
    r: Result<Option<u32>, StepError>,
) -> bool {
    &&& (r is Err <==> c.cnt.format == Format::PSG)
    &&& (r is Err ==> r == Err::<Option<u32>, StepError>(StepError::UnsupportedFormat(Format::PSG))
        && d == c && q == p && bn == bo)
    &&& (r matches Ok(read) ==> {
        &&& q == rearmed(p, cycle, c.timer_val, d.cnt.busy, c.spec)
        &&& if c.fetch_size() == 0 {
            read is None && bn == bo && d == c.with_code(0)
        } else if c.num_bytes_left == 0 {
            read is None && bn == bo && d == c
        } else {
            read matches Some(v) && bn == bo.push(BusOp::Read(false, c.addr, c.step_width(), v))
                && d == c.cursor_after(c.fetch_size()).after_read(v).settled(c.cnt.busy)
        }
    })
}

/// Bound of a stereo accumulator that more channels may still be added to.
pub const MIX_BOUND: i64 = 0x10_0000_0000;

proof fn lemma_shr_bound(x: i64, shift: u32)
    requires
        shift <= 4,
        -0x8000 <= x <= 0x7FFF,
    ensures
        -0x8000 <= (x >> shift) <= 0x7FFF,
{
    assert(-0x8000 <= (x >> shift) <= 0x7FFF) by (bit_vector)
        requires
            shift <= 4,
            -0x8000 <= x <= 0x7FFF,
    ;
}

/// The pending events after a channel with timer `timer` arms its next step:
/// only a playing channel with a non-zero timer arms one.
pub open spec fn rearmed(
    pending: Map<Event, nat>,
    cycle: usize,
    timer: u16,
    busy: bool,
    spec: ChannelSpec,
) -> Map<Event, nat> {
    if timer == 0 || !busy {
        pending
    } else {
        pending.insert(Event::StepAudioChannel(spec), due_at(cycle, step_period(timer) as usize))
    }
}

/// `word` with byte `i` replaced by `value`.
pub open spec fn spec_replace_byte(word: u32, i: u32, value: u8) -> u32 {
    (word & !(0xFFu32 << (8 * i))) | ((value as u32) << (8 * i))
}

pub fn replace_byte(word: u32, i: u32, value: u8) -> (r: u32)
    requires
        i < 4,
    ensures
        r == spec_replace_byte(word, i, value),
{
    (word & !(0xFFu32 << (8 * i))) | ((value as u32) << (8 * i))
}

/// The repeat mode that bits 27-28 select; the reserved value acts as manual.
pub open spec fn spec_repeat_mode(bits: u8) -> RepeatMode {
    if bits == 1 {
        RepeatMode::Loop
    } else if bits == 2 {
        RepeatMode::OneShot
    } else {
        RepeatMode::Manual
    }
}

fn repeat_mode_from_bits(bits: u8) -> (r: RepeatMode)
    ensures
        r == spec_repeat_mode(bits),
{
    if bits == 1 {
        RepeatMode::Loop
    } else if bits == 2 {
        RepeatMode::OneShot
    } else {
        RepeatMode::Manual
    }
}

/// The format that bits 29-30 select.
pub open spec fn spec_format(bits: u8) -> Format {
    if bits == 0 {
        Format::PCM8
    } else if bits == 1 {
        Format::PCM16
    } else if bits == 2 {
        Format::ADPCM
    } else {
        Format::PSG
    }
}

fn format_from_bits(bits: u8) -> (r: Format)
    ensures
        r == spec_format(bits),
{
    if bits == 0 {
        Format::PCM8
    } else if bits == 1 {
        Format::PCM16
    } else if bits == 2 {
        Format::ADPCM
    } else {
        Format::PSG
    }
}

/// The control register after writing `value` to byte `byte`.
pub open spec fn control_with_byte(c: ChannelControl, byte: nat, value: u8) -> ChannelControl {
    if byte == 0 {
        ChannelControl { volume_mul: value & 0x7F, ..c }
    } else if byte == 1 {
        ChannelControl { volume_div: value & 0x3, hold: value & 0x80 != 0, ..c }
    } else if byte == 2 {
        ChannelControl { pan: value & 0x7F, ..c }
    } else {
        ChannelControl {
            wave_duty: value & 0x7,
            repeat_mode: spec_repeat_mode((value >> 3u8) & 0x3),
            format: spec_format((value >> 5u8) & 0x3),
            busy: value & 0x80 != 0,
            ..c
        }
    }
}

/// Byte `byte` of the control register.
pub open spec fn control_byte(c: ChannelControl, byte: nat) -> u8 {
    if byte == 0 {
        c.volume_mul
    } else if byte == 1 {
        (if c.hold {
            0x80u8
        } else {
            0u8
        }) | c.volume_div
    } else if byte == 2 {
        c.pan
    } else {
        (if c.busy {
            0x80u8
        } else {
            0u8
        }) | ((match c.format {
            Format::PCM8 => 0u8,
            Format::PCM16 => 1u8,
            Format::ADPCM => 2u8,
            Format::PSG => 3u8,
        }) << 5u8) | ((match c.repeat_mode {
            RepeatMode::Manual => 0u8,
            RepeatMode::Loop => 1u8,
            RepeatMode::OneShot => 2u8,
        }) << 3u8) | c.wave_duty
    }
}

} // verus!

verus! {

/// The clock rate of the audio processor, in cycles per second.
pub const CLOCK_RATE: usize = 33_513_982;

/// The master sound control register, decoded.
#[derive(Clone, Copy, Debug, PartialEq, Eq, Structural)]
pub struct SoundControl {
    pub master_volume: u8,
    pub enable: bool,
}

impl SoundControl {
    pub fn new() -> (r: SoundControl)
        ensures
            r.master_volume == 0,
            !r.enable,
    {
        SoundControl { master_volume: 0, enable: false }
    }

    /// Byte 0 holds the master volume, bit 7 of byte 1 the enable flag.
    pub fn read(&self, byte: usize) -> (r: u8)
        ensures
            byte == 0 ==> r == self.master_volume,
            byte == 1 ==> r == (if self.enable { 0x80u8 } else { 0u8 }),
            byte >= 2 ==> r == 0,
    {
        if byte == 0 {
            self.master_volume
        } else if byte == 1 {
            if self.enable {
                0x80
            } else {
                0
            }
        } else {
            0
        }
    }

    pub fn write(&mut self, byte: usize, value: u8)
        ensures
            byte == 0 ==> *final(self) == (SoundControl { master_volume: value & 0x7F, ..*old(self) }),
            byte == 1 ==> *final(self) == (SoundControl { enable: value & 0x80 != 0, ..*old(self) }),
            byte >= 2 ==> *final(self) == *old(self),
            old(self).master_volume <= 127 ==> final(self).master_volume <= 127,
    {
        proof {
            assert(value & 0x7F <= 127) by (bit_vector);
        }
        if byte == 0 {
            self.master_volume = value & 0x7F;
        } else if byte == 1 {
            self.enable = value & 0x80 != 0;
        }
    }
}

/// The sum of what each channel adds to the mix.
pub open spec fn sum_mix<T: ChannelType>(s: Seq<Channel<T>>) -> (int, int)
    decreases s.len(),
{
    if s.len() == 0 {
        (0, 0)
    } else {
        let rest = sum_mix(s.drop_last());
        (rest.0 + s.last().spec_mix().0, rest.1 + s.last().spec_mix().1)
    }
}

/// Each channel adds at most this much to either side of the mix.
pub proof fn lemma_mix_bound<T: ChannelType>(c: Channel<T>)
    requires
        c.wf(),
    ensures
        -0x2000_0000 <= c.spec_mix().0 <= 0x2000_0000,
        -0x2000_0000 <= c.spec_mix().1 <= 0x2000_0000,
{
    let s = ((c.sample as i64) >> c.cnt.spec_volume_shift()) as int;
    lemma_shr_bound(c.sample as i64, c.cnt.spec_volume_shift());
    let vol = c.cnt.volume_mul as int;
    let pan = c.cnt.pan as int;
    assert(-0x8000 * 127 <= s * vol <= 0x7FFF * 127) by (nonlinear_arith)
        requires
            -0x8000 <= s <= 0x7FFF,
            0 <= vol <= 127,
    ;
    assert(-0x8000 * 127 * 128 <= (s * vol) * (128 - pan) <= 0x7FFF * 127 * 128)
        by (nonlinear_arith)
        requires
            -0x8000 * 127 <= s * vol <= 0x7FFF * 127,
            0 <= pan <= 127,
    ;
    assert(-0x8000 * 127 * 128 <= (s * vol) * pan <= 0x7FFF * 127 * 128) by (nonlinear_arith)
        requires
            -0x8000 * 127 <= s * vol <= 0x7FFF * 127,
            0 <= pan <= 127,
    ;
}

/// Every channel of the slice is well formed and sits in its own slot.
pub open spec fn slots_wf<T: ChannelType>(s: Seq<Channel<T>>, kind: int) -> bool {
    forall|i: int|
        0 <= i < s.len() ==> (#[trigger] s[i]).wf() && s[i].spec == slot_spec(kind, i as usize)
}

/// The slot of index `i` among the channels of kind `kind` (0 general, 1
/// tone, 2 noise).
pub open spec fn slot_spec(kind: int, i: usize) -> ChannelSpec {
    if kind == 0 {
        ChannelSpec::Base(i)
    } else if kind == 1 {
        ChannelSpec::PSG(i)
    } else {
        ChannelSpec::Noise(i)
    }
}

fn mix_channels<T: ChannelType>(channels: &Vec<Channel<T>>, acc: &mut (i64, i64))
    requires
        channels@.len() <= 8,
        forall|i: int| 0 <= i < channels@.len() ==> (#[trigger] channels@[i]).wf(),
        -0x6_0000_0000 <= old(acc).0 <= 0x6_0000_0000,
        -0x6_0000_0000 <= old(acc).1 <= 0x6_0000_0000,
    ensures
        final(acc).0 == old(acc).0 + sum_mix(channels@).0,
        final(acc).1 == old(acc).1 + sum_mix(channels@).1,
        old(acc).0 - 0x1_0000_0000 <= final(acc).0 <= old(acc).0 + 0x1_0000_0000,
        old(acc).1 - 0x1_0000_0000 <= final(acc).1 <= old(acc).1 + 0x1_0000_0000,
{
    let mut i: usize = 0;
    while i < channels.len()
        invariant
            i <= channels@.len(),
            channels@.len() <= 8,
            forall|k: int| 0 <= k < channels@.len() ==> (#[trigger] channels@[k]).wf(),
            acc.0 == old(acc).0 + sum_mix(channels@.take(i as int)).0,
            acc.1 == old(acc).1 + sum_mix(channels@.take(i as int)).1,
            -0x6_0000_0000 <= old(acc).0 <= 0x6_0000_0000,
            -0x6_0000_0000 <= old(acc).1 <= 0x6_0000_0000,
            old(acc).0 - 0x2000_0000 * i <= acc.0 <= old(acc).0 + 0x2000_0000 * i,
            old(acc).1 - 0x2000_0000 * i <= acc.1 <= old(acc).1 + 0x2000_0000 * i,
        decreases channels@.len() - i,
    {
        proof {
            lemma_mix_bound(channels@[i as int]);
            assert(channels@.take(i + 1).drop_last() =~= channels@.take(i as int));
        }
        channels[i].generate_sample(acc);
        i = i + 1;
    }
    proof {
        assert(channels@.take(i as int) =~= channels@);
    }
}

/// The sound unit: its channels, the output heartbeat and the mixed output.
pub struct SPU {
    pub cnt: SoundControl,
    /// Cycles between two output samples.
    pub clocks_per_sample: usize,
    /// Mixed stereo samples not yet taken by the output device.
    pub output: Vec<(i16, i16)>,
    pub base_channels: Vec<Channel<BaseChannel>>,
    pub psg_channels: Vec<Channel<PSGChannel>>,
    pub noise_channels: Vec<Channel<NoiseChannel>>,
}

/// The mixed pair made an output sample: scaled by the master volume, shifted
/// down to 16 bits and held within the range of `i16`.
pub open spec fn output_sample(sum: int, master: u8) -> i16 {
    let scaled = ((sum * master) as i64 >> 21i64) as int;
    if scaled > 0x7FFF {
        0x7FFFi16
    } else if scaled < -0x8000 {
        -0x8000i16
    } else {
        scaled as i16
    }
}

fn to_output(sum: i64, master: u8) -> (r: i16)
    requires
        -0x8_0000_0000 <= sum <= 0x8_0000_0000,
        master <= 127,
    ensures
        r == output_sample(sum as int, master),
{
    proof {
        assert(-0x8_0000_0000 * 127 <= sum * master <= 0x8_0000_0000 * 127) by (nonlinear_arith)
            requires
                -0x8_0000_0000 <= sum <= 0x8_0000_0000,
                master <= 127,
        ;
    }
    let scaled = (sum * master as i64) >> 21i64;
    if scaled > 0x7FFF {
        0x7FFF
    } else if scaled < -0x8000 {
        -0x8000
    } else {
        scaled as i16
    }
}

impl SPU {
    pub open spec fn wf(&self) -> bool {
        &&& self.base_channels@.len() == 8
        &&& self.psg_channels@.len() == 6
        &&& self.noise_channels@.len() == 2
        &&& slots_wf(self.base_channels@, 0)
        &&& slots_wf(self.psg_channels@, 1)
        &&& slots_wf(self.noise_channels@, 2)
        &&& self.cnt.master_volume <= 127
        &&& self.clocks_per_sample > 0
    }

    /// The stereo pair the channels mix to now.
    pub open spec fn spec_mixed(&self) -> (i16, i16) {
        let b = sum_mix(self.base_channels@);
        let p = sum_mix(self.psg_channels@);
        let n = sum_mix(self.noise_channels@);
        (
            output_sample(b.0 + p.0 + n.0, self.cnt.master_volume),
            output_sample(b.1 + p.1 + n.1, self.cnt.master_volume),
        )
    }

    /// A sound unit with every channel stopped; the output heartbeat is armed
    /// `CLOCK_RATE / sample_rate` cycles ahead.
    pub fn new(sched: &mut Scheduler, sample_rate: usize) -> (r: SPU)
        requires
            old(sched).wf(),
            0 < sample_rate <= CLOCK_RATE,
        ensures
            r.wf(),
            r.clocks_per_sample == CLOCK_RATE / sample_rate,
            r.output@.len() == 0,
            r.cnt == (SoundControl { master_volume: 0, enable: false }),
            forall|i: int|
                0 <= i < 8 ==> (#[trigger] r.base_channels@[i]).is_fresh(ChannelSpec::Base(i as usize)),
            forall|i: int|
                0 <= i < 6 ==> (#[trigger] r.psg_channels@[i]).is_fresh(ChannelSpec::PSG(i as usize)),
            forall|i: int|
                0 <= i < 2 ==> (#[trigger] r.noise_channels@[i]).is_fresh(ChannelSpec::Noise(i as usize)),
            final(sched).wf(),
            final(sched).cycle == old(sched).cycle,
            final(sched).pending() == old(sched).pending().insert(
                Event::GenerateAudioSample,
                due_at(old(sched).cycle, CLOCK_RATE / sample_rate),
            ),
    {
        let clocks_per_sample = CLOCK_RATE / sample_rate;
        proof {
            assert(CLOCK_RATE / sample_rate >= 1) by (nonlinear_arith)
                requires
                    0 < sample_rate <= CLOCK_RATE,
            ;
        }
        sched.schedule(Event::GenerateAudioSample, clocks_per_sample);
        let mut base_channels: Vec<Channel<BaseChannel>> = Vec::new();
        let mut i: usize = 0;
        while i < 8
            invariant
                i <= 8,
                base_channels@.len() == i,
                slots_wf(base_channels@, 0),
                forall|k: int|
                    0 <= k < i ==> (#[trigger] base_channels@[k]).is_fresh(ChannelSpec::Base(k as usize)),
            decreases 8 - i,
        {
            base_channels.push(Channel::new(ChannelSpec::Base(i)));
            i = i + 1;
        }
        let mut psg_channels: Vec<Channel<PSGChannel>> = Vec::new();
        let mut i: usize = 0;
        while i < 6
            invariant
                i <= 6,
                psg_channels@.len() == i,
                slots_wf(psg_channels@, 1),
                forall|k: int|
                    0 <= k < i ==> (#[trigger] psg_channels@[k]).is_fresh(ChannelSpec::PSG(k as usize)),
            decreases 6 - i,
        {
            psg_channels.push(Channel::new(ChannelSpec::PSG(i)));
            i = i + 1;
        }
        let mut noise_channels: Vec<Channel<NoiseChannel>> = Vec::new();
        let mut i: usize = 0;
        while i < 2
            invariant
                i <= 2,
                noise_channels@.len() == i,
                slots_wf(noise_channels@, 2),
                forall|k: int|
                    0 <= k < i ==> (#[trigger] noise_channels@[k]).is_fresh(ChannelSpec::Noise(k as usize)),
            decreases 2 - i,
        {
            noise_channels.push(Channel::new(ChannelSpec::Noise(i)));
            i = i + 1;
        }
        SPU {
            cnt: SoundControl::new(),
            clocks_per_sample,
            output: Vec::new(),
            base_channels,
            psg_channels,
            noise_channels,
        }
    }

    /// The output heartbeat, fired for the tick due at cycle `due`: re-arms
    /// itself `clocks_per_sample` cycles after that tick first, so a late
    /// firing neither drifts nor loses the ticks after it, then mixes the live sample of every channel and appends the
    /// stereo pair to `output`. No playback cursor moves.
    pub fn generate_sample(&mut self, sched: &mut Scheduler, due: usize)
        requires
            old(self).wf(),
            old(sched).wf(),
        ensures
            final(self).wf(),
            final(sched).wf(),
            final(sched).cycle == old(sched).cycle,
            final(sched).pending() == old(sched).pending().insert(
                Event::GenerateAudioSample,
                due_at(due, old(self).clocks_per_sample),
            ),
            final(self).output@ == old(self).output@.push(old(self).spec_mixed()),
            final(self).base_channels@ == old(self).base_channels@,
            final(self).psg_channels@ == old(self).psg_channels@,
            final(self).noise_channels@ == old(self).noise_channels@,
            final(self).cnt == old(self).cnt,
            final(self).clocks_per_sample == old(self).clocks_per_sample,
    {
        sched.schedule_at(Event::GenerateAudioSample, due.saturating_add(self.clocks_per_sample));
        let mut acc: (i64, i64) = (0, 0);
        mix_channels(&self.base_channels, &mut acc);
        mix_channels(&self.psg_channels, &mut acc);
        mix_channels(&self.noise_channels, &mut acc);
        let left = to_output(acc.0, self.cnt.master_volume);
        let right = to_output(acc.1, self.cnt.master_volume);
        self.output.push((left, right));
    }
}

/// The slot that channel register address `addr` falls in: its kind (0
/// general, 1 tone, 2 noise) and its index among the channels of that kind.
pub open spec fn slot_of(addr: usize) -> (int, int) {
    let ch = (addr / 16) % 16;
    if ch < 8 {
        (0, ch as int)
    } else if ch < 14 {
        (1, ch - 8)
    } else {
        (2, ch - 14)
    }
}

/// Byte `byte` of a channel's registers as a read sees it.
pub open spec fn channel_reg<T: ChannelType>(c: Channel<T>, byte: nat) -> u8 {
    if byte < 4 {
        control_byte(c.cnt, byte)
    } else {
        0
    }
}

fn write_slot<T: ChannelType>(
    channels: &mut Vec<Channel<T>>,
    i: usize,
    sched: &mut Scheduler,
    byte: usize,
    value: u8,
)
    requires
        i < old(channels)@.len(),
        old(channels)@[i as int].wf(),
        old(sched).wf(),
        byte < 16,
    ensures
        final(channels)@ == old(channels)@.update(
            i as int,
            old(channels)@[i as int].written(byte as nat, value),
        ),
        final(channels)@[i as int].wf(),
        final(sched).wf(),
        final(sched).cycle == old(sched).cycle,
        final(sched).pending() == old(channels)@[i as int].written_schedule(
            old(sched).pending(),
            old(sched).cycle,
            byte as nat,
            value,
        ),
{
    let mut ch = channels.remove(i);
    ch.write(sched, byte, value);
    channels.insert(i, ch);
    proof {
        assert(channels@ =~= old(channels)@.update(
            i as int,
            old(channels)@[i as int].written(byte as nat, value),
        ));
    }
}

fn step_slot<T: ChannelType, B: Bus>(
    channels: &mut Vec<Channel<T>>,
    i: usize,
    sched: &mut Scheduler,
    bus: &mut B,
) -> (r: Result<Option<u32>, StepError>)
    requires
        i < old(channels)@.len(),
        old(channels)@[i as int].wf(),
        old(sched).wf(),
    ensures
        final(channels)@.len() == old(channels)@.len(),
        forall|k: int|
            0 <= k < old(channels)@.len() && k != i ==> final(channels)@[k] == old(channels)@[k],
        final(channels)@[i as int].wf(),
        final(sched).wf(),
        final(sched).cycle == old(sched).cycle,
        stepped(
            old(channels)@[i as int],
            final(channels)@[i as int],
            old(sched).pending(),
            final(sched).pending(),
            old(sched).cycle,
            old(bus).ops(),
            final(bus).ops(),
            r,
        ),
{
    let mut ch = channels.remove(i);
    let r = ch.step(sched, bus);
    channels.insert(i, ch);
    proof {
        assert(channels@ =~= old(channels)@.update(i as int, ch));
    }
    r
}

fn reset_slot<T: ChannelType>(channels: &mut Vec<Channel<T>>, i: usize)
    requires
        i < old(channels)@.len(),
    ensures
        final(channels)@ == old(channels)@.update(
            i as int,
            old(channels)@[i as int].spec_reset(),
        ),
{
    let mut ch = channels.remove(i);
    ch.reset_sample();
    channels.insert(i, ch);
    proof {
        assert(channels@ =~= old(channels)@.update(i as int, ch));
    }
}

/// What stepping channel `spec` does to the sound unit (`o` before, `n`
/// after), to the pending events (`p` before, `q` after) and to the bus log
/// (`bo` before, `bn` after).
pub open spec fn channel_stepped(
    o: SPU,
    n: SPU,
    spec: ChannelSpec,
    p: Map<Event, nat>,
    q: Map<Event, nat>,
    cycle: usize,
    bo: Seq<BusOp>,
    bn: Seq<BusOp>,
    r: Result<Option<u32>, StepError>,
) -> bool {
    match spec {
        ChannelSpec::Base(i) => i < 8 ==> stepped(o.base_channels@[i as int], n.base_channels@[i as int], p, q, cycle, bo, bn, r)
            && n.psg_channels@ == o.psg_channels@ && n.noise_channels@ == o.noise_channels@
            && forall|k: int| 0 <= k < 8 && k != i ==> n.base_channels@[k] == o.base_channels@[k],
        ChannelSpec::PSG(i) => i < 6 ==> stepped(o.psg_channels@[i as int], n.psg_channels@[i as int], p, q, cycle, bo, bn, r)
            && n.base_channels@ == o.base_channels@ && n.noise_channels@ == o.noise_channels@
            && forall|k: int| 0 <= k < 6 && k != i ==> n.psg_channels@[k] == o.psg_channels@[k],
        ChannelSpec::Noise(i) => i < 2 ==> stepped(o.noise_channels@[i as int], n.noise_channels@[i as int], p, q, cycle, bo, bn, r)
            && n.base_channels@ == o.base_channels@ && n.psg_channels@ == o.psg_channels@
            && forall|k: int| 0 <= k < 2 && k != i ==> n.noise_channels@[k] == o.noise_channels@[k],
    }
}

/// What ending the output of channel `spec` does to the sound unit.
pub open spec fn channel_reset(o: SPU, n: SPU, spec: ChannelSpec) -> bool {
    match spec {
        ChannelSpec::Base(i) => n.base_channels@ == if i < 8 { o.base_channels@.update(i as int, o.base_channels@[i as int].spec_reset()) } else { o.base_channels@ }
            && n.psg_channels@ == o.psg_channels@ && n.noise_channels@ == o.noise_channels@,
        ChannelSpec::PSG(i) => n.psg_channels@ == if i < 6 { o.psg_channels@.update(i as int, o.psg_channels@[i as int].spec_reset()) } else { o.psg_channels@ }
            && n.base_channels@ == o.base_channels@ && n.noise_channels@ == o.noise_channels@,
        ChannelSpec::Noise(i) => n.noise_channels@ == if i < 2 { o.noise_channels@.update(i as int, o.noise_channels@[i as int].spec_reset()) } else { o.noise_channels@ }
            && n.base_channels@ == o.base_channels@ && n.psg_channels@ == o.psg_channels@,
    }
}

impl SPU {
    /// Reads a byte of the channel registers; `addr` is taken modulo 0x100,
    /// 16 bytes per channel: general ones first, then tone, then noise.
    pub fn read_channels(&self, addr: usize) -> (r: u8)
        requires
            self.wf(),
        ensures
            ({
                let (kind, i) = slot_of(addr);
                let b = (addr % 16) as nat;
                r == if kind == 0 {
                    channel_reg(self.base_channels@[i], b)
                } else if kind == 1 {
                    channel_reg(self.psg_channels@[i], b)
                } else {
                    channel_reg(self.noise_channels@[i], b)
                }
            }),
    {
        let channel = (addr / 16) % 16;
        let byte = addr % 16;
        if channel < 8 {
            self.base_channels[channel].read(byte)
        } else if channel < 14 {
            self.psg_channels[channel - 8].read(byte)
        } else {
            self.noise_channels[channel - 14].read(byte)
        }
    }

    /// Writes a byte of the channel registers, addressed as `read_channels`.
    pub fn write_channels(&mut self, sched: &mut Scheduler, addr: usize, value: u8)
        requires
            old(self).wf(),
            old(sched).wf(),
        ensures
            final(self).wf(),
            final(sched).wf(),
            final(sched).cycle == old(sched).cycle,
            final(self).cnt == old(self).cnt,
            final(self).output == old(self).output,
            final(self).clocks_per_sample == old(self).clocks_per_sample,
            ({
                let (kind, i) = slot_of(addr);
                let b = (addr % 16) as nat;
                &&& kind == 0 ==> final(self).base_channels@ == old(self).base_channels@.update(
                    i,
                    old(self).base_channels@[i].written(b, value),
                ) && final(self).psg_channels@ == old(self).psg_channels@
                    && final(self).noise_channels@ == old(self).noise_channels@
                    && final(sched).pending() == old(self).base_channels@[i].written_schedule(
                    old(sched).pending(),
                    old(sched).cycle,
                    b,
                    value,
                )
                &&& kind == 1 ==> final(self).psg_channels@ == old(self).psg_channels@.update(
                    i,
                    old(self).psg_channels@[i].written(b, value),
                ) && final(self).base_channels@ == old(self).base_channels@
                    && final(self).noise_channels@ == old(self).noise_channels@
                    && final(sched).pending() == old(self).psg_channels@[i].written_schedule(
                    old(sched).pending(),
                    old(sched).cycle,
                    b,
                    value,
                )
                &&& kind == 2 ==> final(self).noise_channels@ == old(
                    self,
                ).noise_channels@.update(i, old(self).noise_channels@[i].written(b, value))
                    && final(self).base_channels@ == old(self).base_channels@
                    && final(self).psg_channels@ == old(self).psg_channels@
                    && final(sched).pending() == old(self).noise_channels@[i].written_schedule(
                    old(sched).pending(),
                    old(sched).cycle,
                    b,
                    value,
                )
            }),
    {
        let channel = (addr / 16) % 16;
        let byte = addr % 16;
        if channel < 8 {
            write_slot(&mut self.base_channels, channel, sched, byte, value);
        } else if channel < 14 {
            write_slot(&mut self.psg_channels, channel - 8, sched, byte, value);
        } else {
            write_slot(&mut self.noise_channels, channel - 14, sched, byte, value);
        }
        proof {
            let (kind, i) = slot_of(addr);
            assert forall|k: int| 0 <= k < self.base_channels@.len() implies (#[trigger] self.base_channels@[k]).wf()
                && self.base_channels@[k].spec == slot_spec(0, k as usize) by {
                if kind == 0 && k == i {
                } else {
                    assert(self.base_channels@[k] == old(self).base_channels@[k]);
                }
            }
            assert forall|k: int| 0 <= k < self.psg_channels@.len() implies (#[trigger] self.psg_channels@[k]).wf()
                && self.psg_channels@[k].spec == slot_spec(1, k as usize) by {
                if kind == 1 && k == i {
                } else {
                    assert(self.psg_channels@[k] == old(self).psg_channels@[k]);
                }
            }
            assert forall|k: int| 0 <= k < self.noise_channels@.len() implies (#[trigger] self.noise_channels@[k]).wf()
                && self.noise_channels@[k].spec == slot_spec(2, k as usize) by {
                if kind == 2 && k == i {
                } else {
                    assert(self.noise_channels@[k] == old(self).noise_channels@[k]);
                }
            }
        }
    }

    /// Whether `spec` names one of the unit's channels.
    pub open spec fn has_slot(&self, spec: ChannelSpec) -> bool {
        match spec {
            ChannelSpec::Base(i) => i < self.base_channels@.len(),
            ChannelSpec::PSG(i) => i < self.psg_channels@.len(),
            ChannelSpec::Noise(i) => i < self.noise_channels@.len(),
        }
    }

    /// Steps the channel `spec` names (see `Channel::step`); a name outside
    /// the unit's slots changes nothing.
    pub fn step_channel<B: Bus>(&mut self, spec: ChannelSpec, sched: &mut Scheduler, bus: &mut B) -> (r: Result<Option<u32>, StepError>)
        requires
            old(self).wf(),
            old(sched).wf(),
        ensures
            final(self).wf(),
            final(sched).wf(),
            final(sched).cycle == old(sched).cycle,
            final(self).cnt == old(self).cnt,
            final(self).output == old(self).output,
            final(self).clocks_per_sample == old(self).clocks_per_sample,
            !old(self).has_slot(spec) ==> r == Ok::<Option<u32>, StepError>(None) && *final(self) == *old(self) && final(sched).pending() == old(sched).pending() && final(bus).ops() == old(bus).ops(),
            channel_stepped(*old(self), *final(self), spec, old(sched).pending(), final(sched).pending(), old(sched).cycle, old(bus).ops(), final(bus).ops(), r),
    {
        match spec {
            ChannelSpec::Base(i) => {
                if i < self.base_channels.len() {
                    step_slot(&mut self.base_channels, i, sched, bus)
                } else {
                    Ok(None)
                }
            },
            ChannelSpec::PSG(i) => {
                if i < self.psg_channels.len() {
                    step_slot(&mut self.psg_channels, i, sched, bus)
                } else {
                    Ok(None)
                }
            },
            ChannelSpec::Noise(i) => {
                if i < self.noise_channels.len() {
                    step_slot(&mut self.noise_channels, i, sched, bus)
                } else {
                    Ok(None)
                }
            },
        }
    }

    /// Ends the output of the channel `spec` names (see `Channel::reset_sample`).
    pub fn reset_channel(&mut self, spec: ChannelSpec)
        requires
            old(self).wf(),
        ensures
            final(self).wf(),
            final(self).cnt == old(self).cnt,
            final(self).output == old(self).output,
            final(self).clocks_per_sample == old(self).clocks_per_sample,
            channel_reset(*old(self), *final(self), spec),
    {
        match spec {
            ChannelSpec::Base(i) => {
                if i < self.base_channels.len() {
                    reset_slot(&mut self.base_channels, i);
                }
            },
            ChannelSpec::PSG(i) => {
                if i < self.psg_channels.len() {
                    reset_slot(&mut self.psg_channels, i);
                }
            },
            ChannelSpec::Noise(i) => {
                if i < self.noise_channels.len() {
                    reset_slot(&mut self.noise_channels, i);
                }
            },
        }
        proof {
            assert forall|k: int| 0 <= k < self.base_channels@.len() implies (#[trigger] self.base_channels@[k]).wf()
                && self.base_channels@[k].spec == slot_spec(0, k as usize) by {
                assert(old(self).base_channels@[k].wf());
            }
            assert forall|k: int| 0 <= k < self.psg_channels@.len() implies (#[trigger] self.psg_channels@[k]).wf()
                && self.psg_channels@[k].spec == slot_spec(1, k as usize) by {
                assert(old(self).psg_channels@[k].wf());
            }
            assert forall|k: int| 0 <= k < self.noise_channels@.len() implies (#[trigger] self.noise_channels@[k]).wf()
                && self.noise_channels@[k].spec == slot_spec(2, k as usize) by {
                assert(old(self).noise_channels@[k].wf());
            }
        }
    }

    /// Reads a byte of the sound registers: the channels at 0x400-0x4FF, the
    /// master control at 0x500-0x503; other addresses read 0.
    pub fn read(&self, addr: usize) -> (r: u8)
        requires
            self.wf(),
        ensures
            0x400 <= addr <= 0x4FF ==> ({
                let (kind, i) = slot_of(addr);
                let b = (addr % 16) as nat;
                r == if kind == 0 {
                    channel_reg(self.base_channels@[i], b)
                } else if kind == 1 {
                    channel_reg(self.psg_channels@[i], b)
                } else {
                    channel_reg(self.noise_channels@[i], b)
                }
            }),
            0x500 <= addr <= 0x503 ==> r == (if addr == 0x500 {
                self.cnt.master_volume
            } else if addr == 0x501 && self.cnt.enable {
                0x80u8
            } else {
                0u8
            }),
            !(0x400 <= addr <= 0x503) ==> r == 0,
    {
        if 0x400 <= addr && addr <= 0x4FF {
            self.read_channels(addr)
        } else if 0x500 <= addr && addr <= 0x503 {
            self.cnt.read(addr - 0x500)
        } else {
            0
        }
    }

    /// Writes a byte of the sound registers, addressed as `read`; other
    /// addresses are ignored.
    pub fn write(&mut self, sched: &mut Scheduler, addr: usize, value: u8)
        requires
            old(self).wf(),
            old(sched).wf(),
        ensures
            final(self).wf(),
            final(sched).wf(),
            final(sched).cycle == old(sched).cycle,
            0x500 <= addr <= 0x503 ==> final(sched).pending() == old(sched).pending()
                && final(self).base_channels == old(self).base_channels
                && final(self).psg_channels == old(self).psg_channels
                && final(self).noise_channels == old(self).noise_channels,
            addr == 0x500 ==> final(self).cnt.master_volume == value & 0x7F,
            addr == 0x501 ==> final(self).cnt.enable == (value & 0x80 != 0),
            !(0x400 <= addr <= 0x503) ==> *final(self) == *old(self) && final(sched).pending()
                == old(sched).pending(),
            0x400 <= addr <= 0x4FF ==> ({
                let (kind, i) = slot_of(addr);
                let b = (addr % 16) as nat;
                &&& final(self).cnt == old(self).cnt
                &&& kind == 0 ==> final(self).base_channels@ == old(self).base_channels@.update(
                    i,
                    old(self).base_channels@[i].written(b, value),
                )
                &&& kind == 1 ==> final(self).psg_channels@ == old(self).psg_channels@.update(
                    i,
                    old(self).psg_channels@[i].written(b, value),
                )
                &&& kind == 2 ==> final(self).noise_channels@ == old(
                    self,
                ).noise_channels@.update(i, old(self).noise_channels@[i].written(b, value))
            }),
    {
        if 0x400 <= addr && addr <= 0x4FF {
            self.write_channels(sched, addr, value);
        } else if 0x500 <= addr && addr <= 0x503 {
            self.cnt.write(addr - 0x500, value);
        }
    }
}

} // verus!
