use vstd::prelude::*;

use crate::clock::AudioClock;
use crate::mixer::{all_wf, fill_queue, mix_rounds, voices_after};
use crate::output::{rendered, OutputState};
use crate::queue::SampleQueue;
use crate::sequencer::{tick_period_of, ConfigError, Sequencer, VoiceSettings};

verus! {

/// Samples of lookahead that the standard engine buffers.
pub const QUEUE_CAPACITY: usize = 1024;

/// Tempo of the standard engine's voice.
pub const STANDARD_BPM: u16 = 120;

/// Concert A, in milli-hertz.
pub const A_FREQ: u32 = 440_000;

/// The synthesis engine: voices mixed into a bounded queue of samples that the
/// output side drains one frame at a time, advancing the clock.
pub struct AudioModel {
    pub sequencers: Vec<Sequencer>,
    pub queue: SampleQueue,
    pub clock: AudioClock,
    pub output: OutputState,
    pub channels: usize,
}

/// The error that an engine configuration is refused with, if any.
pub open spec fn engine_error(voices: int, capacity: int, channels: int) -> Option<ConfigError> {
    if voices == 0 {
        Some(ConfigError::NoVoices)
    } else if capacity == 0 {
        Some(ConfigError::ZeroCapacity)
    } else if channels == 0 {
        Some(ConfigError::ZeroChannels)
    } else {
        None
    }
}

impl AudioModel {
    pub open spec fn wf(&self) -> bool {
        &&& 0 < self.sequencers@.len() <= u32::MAX
        &&& all_wf(self.sequencers@)
        &&& self.queue.wf()
        &&& self.channels > 0
    }

    /// An engine over the given voices, with an empty queue of `capacity` samples
    /// and silence remembered.
    pub fn from_voices(sequencers: Vec<Sequencer>, capacity: usize, channels: usize) -> (r: Result<
        AudioModel,
        ConfigError,
    >)
        requires
            sequencers@.len() <= u32::MAX,
            all_wf(sequencers@),
        ensures
            engine_error(sequencers@.len() as int, capacity as int, channels as int) matches Some(e)
                ==> r == Err::<AudioModel, ConfigError>(e),
            engine_error(sequencers@.len() as int, capacity as int, channels as int) is None ==> (r matches Ok(m) && {
                &&& m.wf()
                &&& m.sequencers@ == sequencers@
                &&& m.queue@ == Seq::<i32>::empty()
                &&& m.queue.capacity_spec() == capacity
                &&& m.output == (OutputState { last: 0, underruns: 0 })
                &&& m.channels == channels
            }),
    {
        if sequencers.len() == 0 {
            return Err(ConfigError::NoVoices);
        }
        if capacity == 0 {
            return Err(ConfigError::ZeroCapacity);
        }
        if channels == 0 {
            return Err(ConfigError::ZeroChannels);
        }
        Ok(AudioModel {
            sequencers,
            queue: SampleQueue::new(capacity),
            clock: AudioClock::new(),
            output: OutputState::new(),
            channels,
        })
    }

    /// The standard engine: one voice playing concert A at the standard tempo,
    /// with a queue of `QUEUE_CAPACITY` samples that starts out holding one
    /// silent sample, so the first frame played is silence rather than an
    /// underrun.
    pub fn new(sample_rate: u32, channel_count: u32) -> (r: Result<AudioModel, ConfigError>)
        ensures
            r matches Ok(m) ==> m.wf() && m.sequencers@.len() == 1 && m.sequencers@[0].starts(
                STANDARD_BPM,
                sample_rate,
                seq![A_FREQ],
                VoiceSettings::standard_spec(),
            ) && m.queue@ == seq![0i32] && m.queue.capacity_spec() == QUEUE_CAPACITY && m.output == (
            OutputState { last: 0, underruns: 0 }) && m.channels == channel_count,
            sample_rate == 0 ==> r == Err::<AudioModel, ConfigError>(ConfigError::ZeroSampleRate),
            sample_rate > 0 && tick_period_of(STANDARD_BPM, sample_rate) == 0 ==> r == Err::<
                AudioModel,
                ConfigError,
            >(ConfigError::ZeroTickPeriod),
            sample_rate > 0 && tick_period_of(STANDARD_BPM, sample_rate) > 0 && channel_count == 0
                ==> r == Err::<AudioModel, ConfigError>(ConfigError::ZeroChannels),
            sample_rate > 0 && tick_period_of(STANDARD_BPM, sample_rate) > 0 && channel_count > 0
                ==> (r is Ok),
    {
        let notes = vec![A_FREQ];
        assert(notes@ =~= seq![A_FREQ]);
        let voice = Sequencer::new(STANDARD_BPM, sample_rate, channel_count, notes);
        match voice {
            Ok(s) => {
                let mut sequencers = Vec::new();
                sequencers.push(s);
                proof {
                    assert(sequencers@[0] == s);
                }
                match AudioModel::from_voices(sequencers, QUEUE_CAPACITY, channel_count as usize) {
                    Ok(mut m) => {
                        m.queue.push(0);
                        assert(m.queue@ =~= seq![0i32]);
                        Ok(m)
                    },
                    Err(e) => Err(e),
                }
            },
            Err(e) => Err(e),
        }
    }

    /// Tops the queue up to capacity with mixed samples at the frame count
    /// `elapsed`.
    pub fn update_at(&mut self, elapsed: u64)
        requires
            old(self).wf(),
        ensures
            final(self).wf(),
            final(self).queue.is_full_spec(),
            final(self).queue.capacity_spec() == old(self).queue.capacity_spec(),
            final(self).queue@ == old(self).queue@ + mix_rounds(
                old(self).sequencers@,
                elapsed,
                (old(self).queue.capacity_spec() - old(self).queue@.len()) as nat,
            ),
            final(self).sequencers@ == voices_after(
                old(self).sequencers@,
                elapsed,
                (old(self).queue.capacity_spec() - old(self).queue@.len()) as nat,
            ),
            final(self).output == old(self).output,
            final(self).channels == old(self).channels,
    {
        fill_queue(&mut self.queue, &mut self.sequencers, elapsed);
    }

    /// Tops the queue up to capacity with mixed samples at the clock's current
    /// frame count, which the output side may advance at any time.
    pub fn update(&mut self)
        requires
            old(self).wf(),
        ensures
            final(self).wf(),
            final(self).queue.is_full_spec(),
            final(self).queue.capacity_spec() == old(self).queue.capacity_spec(),
            final(self).output == old(self).output,
            final(self).channels == old(self).channels,
            exists|elapsed: u64|
                final(self).queue@ == old(self).queue@ + #[trigger] mix_rounds(
                    old(self).sequencers@,
                    elapsed,
                    (old(self).queue.capacity_spec() - old(self).queue@.len()) as nat,
                ) && final(self).sequencers@ == voices_after(
                    old(self).sequencers@,
                    elapsed,
                    (old(self).queue.capacity_spec() - old(self).queue@.len()) as nat,
                ),
    {
        let elapsed = self.clock.read();
        self.update_at(elapsed);
    }

    /// Fills an interleaved buffer from the queue, one sample per frame on every
    /// channel, advancing the clock once per frame.
    pub fn render(&mut self, out: &mut Vec<i32>)
        requires
            old(self).wf(),
            (old(out)@.len() as int) % (old(self).channels as int) == 0,
        ensures
            final(self).wf(),
            rendered(old(self).output, old(self).queue@, old(out)@.len() as int, old(self).channels as int, final(self).output, final(self).queue@, final(out)@),
            final(self).sequencers == old(self).sequencers,
            final(self).channels == old(self).channels,
    {
        self.output.render(&mut self.queue, &self.clock, out, self.channels);
    }

    /// The first voice's last sample.
    pub fn get_signal(&self) -> (r: i32)
        requires
            self.wf(),
        ensures
            r == self.sequencers@[0].signal,
    {
        self.sequencers[0].get_signal()
    }

    /// Whether the first voice's last update fell inside its beat gate; the
    /// first voice's gate serves as the engine's beat indicator.
    pub fn show_beat(&self) -> (r: bool)
        requires
            self.wf(),
        ensures
            r == self.sequencers@[0].is_beat,
    {
        self.sequencers[0].show_beat()
    }
}

} // verus!
