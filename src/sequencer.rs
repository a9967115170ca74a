use vstd::prelude::*;

use crate::oscillator::{
    wave_sample, Oscillator, WaveType, AMPLITUDE, CYCLE_LIMIT,
};

verus! {

/// Envelope level that stands for full volume; levels run over `0 ..= ENVELOPE_FULL`.
pub const ENVELOPE_FULL: u32 = 1_000_000;

/// Default envelope step per update: a thousandth of full volume.
pub const DEFAULT_RAMP_INCREMENT: u32 = 1000;

/// Default transposition applied to every step's frequency (four octaves up).
pub const DEFAULT_OCTAVE_MULTIPLIER: u32 = 16;

/// Why a voice could not be built.
#[derive(Clone, Copy, Debug, PartialEq, Eq, Structural)]
pub enum ConfigError {
    ZeroTempo,
    ZeroSampleRate,
    EmptySequence,
    ZeroOctaveMultiplier,
    InvalidRampIncrement,
    /// The tempo is so fast that a step would last less than one frame.
    ZeroTickPeriod,
    NoVoices,
    ZeroCapacity,
    ZeroChannels,
}

/// Per-voice sound settings.
#[derive(Clone, Copy, Debug, PartialEq, Eq, Structural)]
pub struct VoiceSettings {
    pub wave: WaveType,
    /// Scalar transposition of every step's frequency.
    pub octave_multiplier: u32,
    /// Envelope change per update, in units of `1 / ENVELOPE_FULL`.
    pub ramp_increment: u32,
}

impl VoiceSettings {
    pub open spec fn standard_spec() -> VoiceSettings {
        VoiceSettings {
            wave: WaveType::Sine,
            octave_multiplier: DEFAULT_OCTAVE_MULTIPLIER,
            ramp_increment: DEFAULT_RAMP_INCREMENT,
        }
    }

    /// Sine wave, four octaves up, a thousandth of full volume per update.
    pub fn standard() -> (r: VoiceSettings)
        ensures
            r == VoiceSettings::standard_spec(),
    {
        VoiceSettings {
            wave: WaveType::Sine,
            octave_multiplier: DEFAULT_OCTAVE_MULTIPLIER,
            ramp_increment: DEFAULT_RAMP_INCREMENT,
        }
    }
}

/// Frames per step at the given tempo.
pub open spec fn tick_period_of(bpm: u16, sample_rate: u32) -> int {
    (sample_rate as int * 60) / bpm as int
}

/// The error that a configuration is refused with, if any, checked in this order.
pub open spec fn config_error(
    bpm: u16,
    sample_rate: u32,
    sequence_len: int,
    settings: VoiceSettings,
) -> Option<ConfigError> {
    if bpm == 0 {
        Some(ConfigError::ZeroTempo)
    } else if sample_rate == 0 {
        Some(ConfigError::ZeroSampleRate)
    } else if sequence_len == 0 {
        Some(ConfigError::EmptySequence)
    } else if settings.octave_multiplier == 0 {
        Some(ConfigError::ZeroOctaveMultiplier)
    } else if settings.ramp_increment == 0 || settings.ramp_increment > ENVELOPE_FULL {
        Some(ConfigError::InvalidRampIncrement)
    } else if tick_period_of(bpm, sample_rate) == 0 {
        Some(ConfigError::ZeroTickPeriod)
    } else {
        None
    }
}

/// One envelope step: up toward full while on beat, down toward silence otherwise.
pub open spec fn envelope_next(level: int, on_beat: bool, increment: int) -> int {
    if on_beat {
        if level + increment > ENVELOPE_FULL {
            ENVELOPE_FULL as int
        } else {
            level + increment
        }
    } else {
        if level - increment < 0 {
            0
        } else {
            level - increment
        }
    }
}

/// A sample scaled by an envelope level, rounded toward zero.
pub open spec fn apply_envelope(sample: int, level: int) -> int {
    if sample >= 0 {
        (sample * level) / ENVELOPE_FULL as int
    } else {
        -(((-sample) * level) / ENVELOPE_FULL as int)
    }
}

/// Whether `elapsed` falls inside the beat gate of its step.
pub open spec fn on_beat(elapsed: int, tick_period: int, beat_period: int) -> bool {
    0 < elapsed % tick_period && elapsed % tick_period < beat_period
}

/// Steps the envelope level by `increment` toward full or toward silence.
pub fn next_envelope(level: u32, on_beat: bool, increment: u32) -> (r: u32)
    requires
        level <= ENVELOPE_FULL,
        increment <= ENVELOPE_FULL,
    ensures
        r == envelope_next(level as int, on_beat, increment as int),
        r <= ENVELOPE_FULL,
        r <= level + increment,
        level <= r + increment,
{
    if on_beat {
        if level + increment > ENVELOPE_FULL {
            ENVELOPE_FULL
        } else {
            level + increment
        }
    } else {
        if level < increment {
            0
        } else {
            level - increment
        }
    }
}

/// Scales a sample by an envelope level.
pub fn scale_sample(sample: i32, level: u32) -> (r: i32)
    requires
        -AMPLITUDE <= sample <= AMPLITUDE,
        level <= ENVELOPE_FULL,
    ensures
        r == apply_envelope(sample as int, level as int),
        -AMPLITUDE <= r <= AMPLITUDE,
{
    let magnitude: i64 = if sample >= 0 { sample as i64 } else { -(sample as i64) };
    assert(0 <= magnitude * (level as i64) <= AMPLITUDE * ENVELOPE_FULL) by (nonlinear_arith)
        requires
            0 <= magnitude <= AMPLITUDE,
            level <= ENVELOPE_FULL,
    ;
    let scaled: i64 = magnitude * (level as i64) / (ENVELOPE_FULL as i64);
    assert(scaled <= AMPLITUDE) by (nonlinear_arith)
        requires
            scaled == magnitude * (level as i64) / (ENVELOPE_FULL as int),
            0 <= magnitude * (level as i64) <= AMPLITUDE * ENVELOPE_FULL,
    ;
    if sample >= 0 {
        scaled as i32
    } else {
        -(scaled as i32)
    }
}

/// One voice: a step sequence played at a tempo through an oscillator and an
/// anti-click envelope.
pub struct Sequencer {
    pub is_running: bool,
    pub oscillator: Oscillator,
    /// Number of whole steps elapsed at the last update.
    pub beat_index: u64,
    /// Step frequencies in milli-hertz.
    pub sequence: Vec<u32>,
    /// Frames per step.
    pub tick_period: u64,
    /// Frames at the start of a step during which the voice is on beat.
    pub beat_period: u64,
    pub octave_multiplier: u32,
    pub ramp_increment: u32,
    /// Envelope level, in units of `1 / ENVELOPE_FULL`.
    pub envelope: u32,
    pub is_beat: bool,
    /// The last sample produced.
    pub signal: i32,
}

impl Sequencer {
    pub open spec fn wf(&self) -> bool {
        &&& self.tick_period > 0
        &&& self.sequence@.len() > 0
        &&& self.oscillator.wf()
        &&& self.envelope <= ENVELOPE_FULL
        &&& self.ramp_increment <= ENVELOPE_FULL
    }

    /// Index into the sequence of the step that `elapsed` falls in.
    pub open spec fn step_at(&self, elapsed: u64) -> int {
        (elapsed / self.tick_period) as int % self.sequence@.len() as int
    }

    /// Oscillator frequency, in milli-hertz, of the step that `elapsed` falls in.
    pub open spec fn frequency_at(&self, elapsed: u64) -> int {
        self.sequence@[self.step_at(elapsed)] as int * self.octave_multiplier as int
    }

    /// The state after one update at `elapsed`.
    pub open spec fn updated(self, elapsed: u64) -> Sequencer {
        let freq = self.frequency_at(elapsed);
        let osc = Oscillator {
            frequency: freq as u64,
            phase: ((self.oscillator.phase + freq) % self.oscillator.cycle()) as u64,
            ..self.oscillator
        };
        let on = on_beat(elapsed as int, self.tick_period as int, self.beat_period as int);
        let level = envelope_next(self.envelope as int, on, self.ramp_increment as int);
        let sample = wave_sample(osc.wave, osc.phase as int, osc.cycle());
        Sequencer {
            oscillator: osc,
            beat_index: elapsed / self.tick_period,
            is_beat: on,
            envelope: level as u32,
            signal: apply_envelope(sample, level) as i32,
            ..self
        }
    }

    /// A voice with the standard settings.
    pub fn new(bpm: u16, sample_rate: u32, channel_count: u32, sequence: Vec<u32>) -> (r: Result<
        Sequencer,
        ConfigError,
    >)
        ensures
            config_error(bpm, sample_rate, sequence@.len() as int, VoiceSettings::standard_spec())
                matches Some(e) ==> r == Err::<Sequencer, ConfigError>(e),
            config_error(bpm, sample_rate, sequence@.len() as int, VoiceSettings::standard_spec())
                is None ==> (r matches Ok(s) && s.starts(
                bpm,
                sample_rate,
                sequence@,
                VoiceSettings::standard_spec(),
            )),
    {
        Sequencer::with_settings(bpm, sample_rate, sequence, VoiceSettings::standard())
    }

    /// The state a voice starts in.
    pub open spec fn starts(
        &self,
        bpm: u16,
        sample_rate: u32,
        sequence: Seq<u32>,
        settings: VoiceSettings,
    ) -> bool {
        &&& self.wf()
        &&& !self.is_running
        &&& self.sequence@ == sequence
        &&& self.tick_period == tick_period_of(bpm, sample_rate)
        &&& self.beat_period == self.tick_period / 3
        &&& self.octave_multiplier == settings.octave_multiplier
        &&& self.ramp_increment == settings.ramp_increment
        &&& self.oscillator == Oscillator {
            wave: settings.wave,
            sample_rate,
            frequency: 0,
            phase: 0,
        }
        &&& self.beat_index == 0
        &&& self.envelope == 0
        &&& !self.is_beat
        &&& self.signal == 0
    }

    /// A voice with the given sound settings, or the first configuration error.
    pub fn with_settings(
        bpm: u16,
        sample_rate: u32,
        sequence: Vec<u32>,
        settings: VoiceSettings,
    ) -> (r: Result<Sequencer, ConfigError>)
        ensures
            config_error(bpm, sample_rate, sequence@.len() as int, settings) matches Some(e)
                ==> r == Err::<Sequencer, ConfigError>(e),
            config_error(bpm, sample_rate, sequence@.len() as int, settings) is None ==> (r matches Ok(
                s,
            ) && s.starts(bpm, sample_rate, sequence@, settings)),
    {
        if bpm == 0 {
            return Err(ConfigError::ZeroTempo);
        }
        if sample_rate == 0 {
            return Err(ConfigError::ZeroSampleRate);
        }
        if sequence.len() == 0 {
            return Err(ConfigError::EmptySequence);
        }
        if settings.octave_multiplier == 0 {
            return Err(ConfigError::ZeroOctaveMultiplier);
        }
        if settings.ramp_increment == 0 || settings.ramp_increment > ENVELOPE_FULL {
            return Err(ConfigError::InvalidRampIncrement);
        }
        let tick_period: u64 = (sample_rate as u64 * 60) / bpm as u64;
        if tick_period == 0 {
            return Err(ConfigError::ZeroTickPeriod);
        }
        let mut oscillator = Oscillator::new(sample_rate);
        oscillator.set_wave_type(settings.wave);
        Ok(Sequencer {
            is_running: false,
            oscillator,
            beat_index: 0,
            sequence,
            tick_period,
            beat_period: tick_period / 3,
            octave_multiplier: settings.octave_multiplier,
            ramp_increment: settings.ramp_increment,
            envelope: 0,
            is_beat: false,
            signal: 0,
        })
    }

    /// Produces the voice's next sample for the frame count `elapsed`: picks the
    /// step, gates the beat, steps the envelope and runs the oscillator.
    pub fn update(&mut self, elapsed: u64) -> (r: i32)
        requires
            old(self).wf(),
        ensures
            *final(self) == old(self).updated(elapsed),
            r == final(self).signal,
            final(self).wf(),
            final(self).envelope <= old(self).envelope + old(self).ramp_increment,
            old(self).envelope <= final(self).envelope + old(self).ramp_increment,
            -AMPLITUDE <= r <= AMPLITUDE,
    {
        let tp = self.tick_period;
        let remainder = elapsed % tp;
        self.is_beat = remainder > 0 && remainder < self.beat_period;
        self.beat_index = elapsed / tp;
        let len = self.sequence.len() as u64;
        let step = (self.beat_index % len) as usize;
        let base: u64 = self.sequence[step] as u64;
        let mult: u64 = self.octave_multiplier as u64;
        assert(base * mult <= u32::MAX as int * u32::MAX as int) by (nonlinear_arith)
            requires
                base <= u32::MAX,
                mult <= u32::MAX,
        ;
        let freq: u64 = base * mult;
        self.oscillator.set_frequency(freq);
        assert(self.oscillator.cycle() <= CYCLE_LIMIT) by (nonlinear_arith)
            requires
                self.oscillator.cycle() == self.oscillator.sample_rate as int * 1000,
                self.oscillator.sample_rate <= u32::MAX,
        ;
        let value = self.oscillator.run();
        self.envelope = next_envelope(self.envelope, self.is_beat, self.ramp_increment);
        let out = scale_sample(value, self.envelope);
        self.signal = out;
        out
    }

    /// Updates once for each frame count in `elapsed`, in order, and returns the
    /// samples produced.
    pub fn play(&mut self, elapsed: &Vec<u64>) -> (r: Vec<i32>)
        requires
            old(self).wf(),
        ensures
            final(self).wf(),
            r@ == replay(*old(self), elapsed@),
            *final(self) == replayed(*old(self), elapsed@),
    {
        let mut out: Vec<i32> = Vec::new();
        let mut i: usize = 0;
        proof {
            assert(elapsed@.skip(0) =~= elapsed@);
            assert(out@ + replay(*self, elapsed@) =~= replay(*self, elapsed@));
        }
        while i < elapsed.len()
            invariant
                self.wf(),
                0 <= i <= elapsed@.len(),
                out@ + replay(*self, elapsed@.skip(i as int)) == replay(*old(self), elapsed@),
                replayed(*self, elapsed@.skip(i as int)) == replayed(*old(self), elapsed@),
            decreases elapsed@.len() - i,
        {
            let ghost rest = elapsed@.skip(i as int);
            let ghost before = *self;
            let v = self.update(elapsed[i]);
            proof {
                assert(rest[0] == elapsed@[i as int]);
                assert(rest.drop_first() =~= elapsed@.skip(i as int + 1));
                assert(out@.push(v) + replay(*self, elapsed@.skip(i as int + 1)) =~= out@ + replay(
                    before,
                    rest,
                ));
            }
            out.push(v);
            i = i + 1;
        }
        proof {
            assert(elapsed@.skip(i as int) =~= Seq::<u64>::empty());
            assert(out@ + Seq::<i32>::empty() =~= out@);
        }
        out
    }

    /// Number of whole steps elapsed at the last update.
    pub fn get_beat_index(&self) -> (r: u64)
        ensures
            r == self.beat_index,
    {
        self.beat_index
    }

    /// Whether the last update fell inside the beat gate.
    pub fn show_beat(&self) -> (r: bool)
        ensures
            r == self.is_beat,
    {
        self.is_beat
    }

    /// The last sample produced.
    pub fn get_signal(&self) -> (r: i32)
        ensures
            r == self.signal,
    {
        self.signal
    }
}

/// Outputs of successive updates at the frame counts `elapsed`, starting from `s`.
pub open spec fn replay(s: Sequencer, elapsed: Seq<u64>) -> Seq<i32>
    decreases elapsed.len(),
{
    if elapsed.len() == 0 {
        Seq::empty()
    } else {
        let next = s.updated(elapsed[0]);
        seq![next.signal].add(replay(next, elapsed.drop_first()))
    }
}

/// The state after successive updates at the frame counts `elapsed`.
pub open spec fn replayed(s: Sequencer, elapsed: Seq<u64>) -> Sequencer
    decreases elapsed.len(),
{
    if elapsed.len() == 0 {
        s
    } else {
        replayed(s.updated(elapsed[0]), elapsed.drop_first())
    }
}

/// Updating is deterministic: two voices in the same state, driven by the same
/// frame counts, produce the same samples and end in the same state.
pub proof fn lemma_update_deterministic(a: Sequencer, b: Sequencer, elapsed: Seq<u64>)
    requires
        a == b,
    ensures
        replay(a, elapsed) == replay(b, elapsed),
        replayed(a, elapsed) == replayed(b, elapsed),
    decreases elapsed.len(),
{
    if elapsed.len() > 0 {
        lemma_update_deterministic(
            a.updated(elapsed[0]),
            b.updated(elapsed[0]),
            elapsed.drop_first(),
        );
    }
}

/// Every update moves the envelope by at most the ramp increment and keeps it
/// within `0 ..= ENVELOPE_FULL`.
pub proof fn lemma_envelope_bounded_step(s: Sequencer, elapsed: u64)
    requires
        s.wf(),
    ensures
        s.updated(elapsed).envelope <= ENVELOPE_FULL,
        s.updated(elapsed).envelope <= s.envelope + s.ramp_increment,
        s.envelope <= s.updated(elapsed).envelope + s.ramp_increment,
{
}

} // verus!
