use beat_synth::audio_model::AudioModel;
use beat_synth::clock::AudioClock;
use beat_synth::mixer::{fill_queue, mix, top_up};
use beat_synth::oscillator::{wave_value, Lfo, Oscillator, WaveType, AMPLITUDE};
use beat_synth::output::OutputState;
use beat_synth::queue::{split_queue, SampleQueue};
use beat_synth::sequencer::{
    next_envelope, scale_sample, ConfigError, Sequencer, VoiceSettings, ENVELOPE_FULL,
};

fn voice(bpm: u16, sample_rate: u32, sequence: Vec<u32>) -> Sequencer {
    match Sequencer::new(bpm, sample_rate, 2, sequence) {
        Ok(s) => s,
        Err(e) => panic!("voice refused: {:?}", e),
    }
}

#[test]
fn oscillator_advances_phase_by_frequency_over_rate() {
    let mut osc = Oscillator::new(48000);
    osc.set_frequency(440_000);
    osc.run();
    assert_eq!(osc.phase, 440_000);
    osc.run();
    assert_eq!(osc.phase, 880_000);
}

#[test]
fn oscillator_is_periodic() {
    // 1000 Hz at 48000 Hz: 48 samples per cycle.
    let mut osc = Oscillator::new(48000);
    osc.set_frequency(1_000_000);
    let start = osc.phase;
    let mut first = Vec::new();
    for _ in 0..48 {
        first.push(osc.run());
    }
    assert_eq!(osc.phase, start);
    for i in 0..48 {
        assert_eq!(osc.run(), first[i]);
    }
    // 440 Hz returns to its start after one second of samples.
    let mut osc = Oscillator::new(48000);
    osc.set_frequency(440_000);
    for _ in 0..48000 {
        osc.run();
    }
    assert_eq!(osc.phase, 0);
}

#[test]
fn frequency_change_keeps_phase() {
    let mut osc = Oscillator::new(1000);
    osc.set_frequency(100_000);
    osc.run();
    let phase = osc.phase;
    osc.set_frequency(250_000);
    assert_eq!(osc.phase, phase);
    osc.set_wave_type(WaveType::Saw);
    assert_eq!(osc.phase, phase);
    osc.run();
    assert_eq!(osc.phase, phase + 250_000);
}

#[test]
fn wave_values_at_landmarks() {
    let c: u64 = 48_000_000;
    assert_eq!(wave_value(WaveType::Sine, 0, c), 0);
    assert_eq!(wave_value(WaveType::Sine, c / 4, c), AMPLITUDE);
    assert_eq!(wave_value(WaveType::Sine, 3 * c / 4, c), -AMPLITUDE);
    assert_eq!(wave_value(WaveType::Square, 0, c), AMPLITUDE);
    assert_eq!(wave_value(WaveType::Square, c / 2, c), -AMPLITUDE);
    assert_eq!(wave_value(WaveType::Saw, 0, c), -AMPLITUDE);
    assert_eq!(wave_value(WaveType::Saw, c / 2, c), 0);
    assert_eq!(wave_value(WaveType::Triangle, 0, c), -AMPLITUDE);
    assert_eq!(wave_value(WaveType::Triangle, c / 2, c), AMPLITUDE);
    assert_eq!(wave_value(WaveType::Triangle, c / 4, c), 0);
    // sine at a sixth of a cycle: 16*(1/3)(2/3)/(5 - 4*(2/9)) = 32/37
    assert_eq!(wave_value(WaveType::Sine, c / 6, c), 32767 * 32 / 37);
}

#[test]
fn lfo_runs_like_an_oscillator() {
    let mut lfo = Lfo::new(1000);
    lfo.set_frequency(250_000);
    assert_eq!(lfo.run(), AMPLITUDE);
    assert_eq!(lfo.oscillator.phase, 250_000);
    lfo.set_wave_type(WaveType::Square);
    assert_eq!(lfo.run(), -AMPLITUDE);
}

#[test]
fn envelope_steps_and_clamps() {
    assert_eq!(next_envelope(0, true, 1000), 1000);
    assert_eq!(next_envelope(999_500, true, 1000), ENVELOPE_FULL);
    assert_eq!(next_envelope(500, false, 1000), 0);
    assert_eq!(next_envelope(5000, false, 1000), 4000);
    assert_eq!(scale_sample(AMPLITUDE, ENVELOPE_FULL), AMPLITUDE);
    assert_eq!(scale_sample(-20000, 500_000), -10000);
    assert_eq!(scale_sample(3, 500_000), 1);
    assert_eq!(scale_sample(-3, 500_000), -1);
}

#[test]
fn sixty_bpm_single_step_scenario() {
    let mut s = voice(60, 48000, vec![440_000]);
    assert_eq!(s.tick_period, 48000);
    assert_eq!(s.beat_period, 16000);
    for e in 0..48000u64 {
        s.update(e);
        assert_eq!(s.get_beat_index(), 0);
        assert_eq!(s.oscillator.frequency, 7_040_000);
    }
    s.update(48000);
    assert_eq!(s.get_beat_index(), 1);
    assert_eq!(s.oscillator.frequency, 7_040_000);
}

#[test]
fn steps_follow_the_sequence() {
    let mut s = voice(60, 48000, vec![100_000, 200_000, 300_000]);
    s.update(0);
    assert_eq!(s.oscillator.frequency, 1_600_000);
    s.update(48000);
    assert_eq!(s.oscillator.frequency, 3_200_000);
    s.update(2 * 48000 + 5);
    assert_eq!(s.oscillator.frequency, 4_800_000);
    s.update(3 * 48000);
    assert_eq!(s.oscillator.frequency, 1_600_000);
    assert_eq!(s.get_beat_index(), 3);
}

#[test]
fn beat_gate_is_open_inside_first_third() {
    let mut s = voice(60, 48000, vec![440_000]);
    s.update(0);
    assert!(!s.show_beat());
    s.update(1);
    assert!(s.show_beat());
    s.update(15999);
    assert!(s.show_beat());
    s.update(16000);
    assert!(!s.show_beat());
}

#[test]
fn replay_is_deterministic() {
    let mut a = voice(120, 48000, vec![440_000, 330_000]);
    let mut b = voice(120, 48000, vec![440_000, 330_000]);
    let frames: Vec<u64> = vec![0, 1, 2, 2, 30000, 10, 24001, 24002, 7];
    for &e in frames.iter() {
        assert_eq!(a.update(e), b.update(e));
        assert_eq!(a.get_signal(), b.get_signal());
    }
    assert_eq!(a.envelope, b.envelope);
    assert_eq!(a.oscillator.phase, b.oscillator.phase);
}

#[test]
fn envelope_never_jumps() {
    let mut s = voice(240, 48000, vec![440_000, 550_000]);
    let mut level = s.envelope as i64;
    for e in 0..30000u64 {
        let out = s.update(e);
        let next = s.envelope as i64;
        assert!((next - level).abs() <= 1000);
        assert!(next >= 0 && next <= ENVELOPE_FULL as i64);
        assert!(out >= -AMPLITUDE && out <= AMPLITUDE);
        level = next;
    }
}

#[test]
fn envelope_rises_on_beat() {
    let mut s = voice(60, 48000, vec![440_000]);
    for e in 1..11u64 {
        s.update(e);
    }
    assert_eq!(s.envelope, 10_000);
    s.update(20000);
    assert_eq!(s.envelope, 9_000);
}

#[test]
fn configuration_errors() {
    assert!(matches!(
        Sequencer::new(0, 48000, 2, vec![440_000]),
        Err(ConfigError::ZeroTempo)
    ));
    assert!(matches!(
        Sequencer::new(60, 0, 2, vec![440_000]),
        Err(ConfigError::ZeroSampleRate)
    ));
    assert!(matches!(
        Sequencer::new(60, 48000, 2, vec![]),
        Err(ConfigError::EmptySequence)
    ));
    assert!(matches!(
        Sequencer::new(120, 1, 2, vec![440_000]),
        Err(ConfigError::ZeroTickPeriod)
    ));
    let mut settings = VoiceSettings::standard();
    settings.octave_multiplier = 0;
    assert!(matches!(
        Sequencer::with_settings(60, 48000, vec![440_000], settings),
        Err(ConfigError::ZeroOctaveMultiplier)
    ));
    let mut settings = VoiceSettings::standard();
    settings.ramp_increment = 0;
    assert!(matches!(
        Sequencer::with_settings(60, 48000, vec![440_000], settings),
        Err(ConfigError::InvalidRampIncrement)
    ));
    settings.ramp_increment = ENVELOPE_FULL + 1;
    assert!(matches!(
        Sequencer::with_settings(60, 48000, vec![440_000], settings),
        Err(ConfigError::InvalidRampIncrement)
    ));
    assert!(matches!(
        AudioModel::from_voices(vec![], 16, 2),
        Err(ConfigError::NoVoices)
    ));
    assert!(matches!(
        AudioModel::from_voices(vec![voice(60, 48000, vec![440_000])], 0, 2),
        Err(ConfigError::ZeroCapacity)
    ));
    assert!(matches!(
        AudioModel::from_voices(vec![voice(60, 48000, vec![440_000])], 16, 0),
        Err(ConfigError::ZeroChannels)
    ));
    assert!(matches!(AudioModel::new(48000, 0), Err(ConfigError::ZeroChannels)));
    assert!(matches!(AudioModel::new(0, 2), Err(ConfigError::ZeroSampleRate)));
}

#[test]
fn settings_choose_shape_and_transposition() {
    let settings = VoiceSettings { wave: WaveType::Square, octave_multiplier: 2, ramp_increment: ENVELOPE_FULL };
    let mut s = match Sequencer::with_settings(60, 1000, vec![100_000], settings) {
        Ok(s) => s,
        Err(e) => panic!("voice refused: {:?}", e),
    };
    assert_eq!(s.tick_period, 1000);
    // on beat: full envelope at once, square wave high on the first half cycle
    assert_eq!(s.update(1), AMPLITUDE);
    assert_eq!(s.oscillator.frequency, 200_000);
    assert_eq!(s.update(2), AMPLITUDE);
    assert_eq!(s.update(3), -AMPLITUDE);
}

#[test]
fn mix_averages_voices() {
    let settings = VoiceSettings { wave: WaveType::Square, octave_multiplier: 1, ramp_increment: ENVELOPE_FULL };
    let a = Sequencer::with_settings(60, 1000, vec![100_000], settings).ok().unwrap();
    let b = Sequencer::with_settings(60, 1000, vec![100_000], settings).ok().unwrap();
    let mut voices = vec![a, b];
    // off beat at frame 0: both silent
    assert_eq!(mix(&mut voices, 0), 0);
    assert_eq!(mix(&mut voices, 1), AMPLITUDE);
    // one voice on beat, the other off beat: the mean halves the level
    let c = Sequencer::with_settings(60, 1000, vec![100_000], settings).ok().unwrap();
    let d = Sequencer::with_settings(60, 1000, vec![100_000], settings).ok().unwrap();
    let mut voices = vec![c, d];
    voices[1].update(0);
    let out = mix(&mut voices, 1);
    assert_eq!(out, AMPLITUDE);
    let mut voices = vec![
        Sequencer::with_settings(60, 1000, vec![100_000], settings).ok().unwrap(),
        voice(60, 1000, vec![100_000]),
    ];
    // square voice at full level, sine voice at a thousandth of full level
    let out = mix(&mut voices, 1);
    let sine = voices[1].get_signal();
    assert_eq!(out, (AMPLITUDE + sine) / 2);
}

#[test]
fn queue_is_never_full_and_empty() {
    let mut q = SampleQueue::new(2);
    assert!(q.is_empty() && !q.is_full());
    assert!(q.push(1));
    assert!(!q.is_empty() && !q.is_full());
    assert!(q.push(2));
    assert!(!q.is_empty() && q.is_full());
    assert!(!q.push(3));
    assert_eq!(q.len(), 2);
    assert_eq!(q.capacity(), 2);
}

#[test]
fn pop_after_push_returns_pushed_value() {
    let mut q = SampleQueue::new(4);
    assert!(q.push(-1234));
    assert_eq!(q.pop(), Some(-1234));
    assert!(q.is_empty());
    assert!(q.push(5));
    assert!(q.push(6));
    assert_eq!(q.pop(), Some(5));
    assert_eq!(q.pop(), Some(6));
}

#[test]
fn pop_on_empty_queue_leaves_it_intact() {
    let mut q = SampleQueue::new(3);
    assert_eq!(q.pop(), None);
    assert_eq!(q.pop(), None);
    assert_eq!(q.len(), 0);
    assert!(q.push(7));
    assert_eq!(q.len(), 1);
    assert_eq!(q.pop(), Some(7));
}

#[test]
fn underrun_before_any_push_is_silence() {
    let mut q = SampleQueue::new(8);
    let clock = AudioClock::new();
    let mut state = OutputState::new();
    let mut out = vec![99i32; 6];
    state.render(&mut q, &clock, &mut out, 2);
    assert_eq!(out, vec![0; 6]);
    assert_eq!(state.underruns, 3);
    assert_eq!(clock.read(), 3);
}

#[test]
fn underrun_repeats_last_sample() {
    let mut q = SampleQueue::new(8);
    assert!(q.push(10));
    assert!(q.push(20));
    let clock = AudioClock::new();
    let mut state = OutputState::new();
    let mut out = vec![0i32; 8];
    state.render(&mut q, &clock, &mut out, 2);
    assert_eq!(out, vec![10, 10, 20, 20, 20, 20, 20, 20]);
    assert_eq!(state.underruns, 2);
    assert_eq!(state.last, 20);
    assert_eq!(state.next_frame(None), 20);
    assert_eq!(state.next_frame(Some(-4)), -4);
    assert_eq!(state.underruns, 3);
}

#[test]
fn full_queue_drains_then_underruns_once() {
    let mut q = SampleQueue::new(1024);
    let mut voices = vec![voice(60, 48000, vec![440_000])];
    assert_eq!(fill_queue(&mut q, &mut voices, 100), 1024);
    assert!(q.is_full());
    let clock = AudioClock::new();
    let mut state = OutputState::new();
    let mut out = vec![0i32; 1024];
    state.render(&mut q, &clock, &mut out, 1);
    assert_eq!(state.underruns, 0);
    assert!(q.is_empty());
    let mut one = vec![0i32; 1];
    state.render(&mut q, &clock, &mut one, 1);
    assert_eq!(state.underruns, 1);
    assert_eq!(one[0], out[1023]);
    assert_eq!(clock.read(), 1025);
}

#[test]
fn fill_queue_pushes_mixed_samples_in_order() {
    let mut q = SampleQueue::new(4);
    assert!(q.push(42));
    let mut voices = vec![voice(60, 48000, vec![440_000])];
    let mut twin = vec![voice(60, 48000, vec![440_000])];
    assert_eq!(fill_queue(&mut q, &mut voices, 5), 3);
    assert_eq!(q.pop(), Some(42));
    for _ in 0..3 {
        assert_eq!(q.pop(), Some(mix(&mut twin, 5)));
    }
    assert_eq!(q.pop(), None);
}

#[test]
fn engine_fills_and_renders() {
    let mut m = match AudioModel::new(48000, 2) {
        Ok(m) => m,
        Err(e) => panic!("engine refused: {:?}", e),
    };
    assert_eq!(m.queue.capacity(), 1024);
    assert_eq!(m.queue.len(), 1);
    m.update();
    assert!(m.queue.is_full());
    let mut out = vec![0i32; 8];
    m.render(&mut out);
    assert_eq!(m.clock.read(), 4);
    assert_eq!(m.queue.len(), 1020);
    assert_eq!(out[0], out[1]);
    assert_eq!(m.output.underruns, 0);
    assert_eq!(m.get_signal(), m.sequencers[0].get_signal());
    assert!(!m.show_beat() || m.sequencers[0].show_beat());
    m.update_at(4);
    assert!(m.queue.is_full());
}

#[test]
fn fresh_engine_plays_silence_first() {
    let mut m = match AudioModel::new(48000, 1) {
        Ok(m) => m,
        Err(e) => panic!("engine refused: {:?}", e),
    };
    assert_eq!(m.queue.len(), 1);
    let mut out = vec![55i32; 1];
    m.render(&mut out);
    assert_eq!(out, vec![0]);
    assert_eq!(m.output.underruns, 0);
    m.render(&mut out);
    assert_eq!(m.output.underruns, 1);
}

#[test]
fn update_with_full_queue_changes_nothing() {
    let mut m = AudioModel::new(48000, 2).ok().unwrap();
    m.update();
    let phase = m.sequencers[0].oscillator.phase;
    let envelope = m.sequencers[0].envelope;
    m.update();
    m.update_at(12345);
    assert_eq!(m.sequencers[0].oscillator.phase, phase);
    assert_eq!(m.sequencers[0].envelope, envelope);
    assert_eq!(m.queue.len(), 1024);
    assert_eq!(m.channels, 2);
    assert_eq!(m.output.underruns, 0);
}

#[test]
fn split_queue_top_up_and_render() {
    let (mut producer, mut consumer) = split_queue(4);
    assert_eq!(producer.capacity(), 4);
    assert!(producer.push(0));
    let mut voices = vec![voice(60, 48000, vec![440_000])];
    let mut twin = vec![voice(60, 48000, vec![440_000])];
    assert_eq!(top_up(&mut producer, &mut voices, 3), 3);
    assert!(producer.is_full());
    assert!(!producer.push(1));
    let clock = AudioClock::new();
    let mut state = OutputState::new();
    let mut out = vec![0i32; 10];
    state.render_from(&mut consumer, &clock, &mut out, 2);
    let a = mix(&mut twin, 3);
    let b = mix(&mut twin, 3);
    let c = mix(&mut twin, 3);
    assert_eq!(out, vec![0, 0, a, a, b, b, c, c, c, c]);
    assert_eq!(state.underruns, 1);
    assert_eq!(clock.read(), 5);
    assert_eq!(consumer.pop(), None);
}
