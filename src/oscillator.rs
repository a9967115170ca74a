use vstd::prelude::*;

verus! {

/// Peak magnitude of a sample: full scale is `-AMPLITUDE ..= AMPLITUDE`.
pub const AMPLITUDE: i32 = 32767;

/// Upper bound on the phase units of one cycle: `u32::MAX * 1000` lies below it.
pub const CYCLE_LIMIT: u128 = 0x400_0000_0000;

/// Frequencies are counted in milli-hertz.
pub const MILLI_HZ_PER_HZ: u64 = 1000;

/// The shape of one waveform cycle.
#[derive(Clone, Copy, Debug, PartialEq, Eq, Structural)]
pub enum WaveType {
    Sine,
    Square,
    Saw,
    Triangle,
}

/// Number of phase units in one full cycle at the given sample rate.
pub open spec fn cycle_len(sample_rate: u32) -> int {
    sample_rate as int * MILLI_HZ_PER_HZ as int
}

/// Rational sine approximation on a half cycle: with `x / half` the position in
/// the half cycle, `16 u (1 - u) / (5 - 4 u (1 - u))` scaled to full amplitude.
pub open spec fn half_sine(x: int, half: int) -> int {
    let p = x * (half - x);
    (AMPLITUDE as int * 16 * p) / (5 * half * half - 4 * p)
}

/// The sample a waveform takes at phase `t` of a cycle of `c` units.
pub open spec fn wave_sample(wave: WaveType, t: int, c: int) -> int {
    match wave {
        WaveType::Square => if 2 * t < c { AMPLITUDE as int } else { -AMPLITUDE },
        WaveType::Saw => -AMPLITUDE + (2 * AMPLITUDE * t) / c,
        WaveType::Triangle => {
            let d = if 2 * t >= c { 2 * t - c } else { c - 2 * t };
            AMPLITUDE - (2 * AMPLITUDE * d) / c
        },
        WaveType::Sine => if 2 * t < c { half_sine(2 * t, c) } else { -half_sine(2 * t - c, c) },
    }
}

/// Phase reached from `p` after `n` steps of `f` units, wrapping at `c`.
pub open spec fn phase_after(p: int, f: int, c: int, n: nat) -> int
    decreases n,
{
    if n == 0 {
        p
    } else {
        (phase_after(p, f, c, (n - 1) as nat) + f) % c
    }
}

proof fn lemma_half_sine_bounds(x: int, half: int)
    requires
        0 <= x < half,
    ensures
        0 <= half_sine(x, half) <= AMPLITUDE,
        0 <= x * (half - x),
        4 * (x * (half - x)) <= half * half,
        5 * half * half - 4 * (x * (half - x)) > 0,
{
    let p = x * (half - x);
    assert(0 <= p) by (nonlinear_arith)
        requires
            0 <= x < half,
            p == x * (half - x),
    ;
    assert(4 * p <= half * half) by (nonlinear_arith)
        requires
            p == x * (half - x),
    ;
    assert(half * half > 0) by (nonlinear_arith)
        requires
            half > 0,
    ;
    let den = 5 * half * half - 4 * p;
    assert(den > 0) by (nonlinear_arith)
        requires
            den == 5 * half * half - 4 * p,
            4 * p <= half * half,
            half * half > 0,
    ;
    assert(AMPLITUDE as int * 16 * p <= AMPLITUDE as int * den) by (nonlinear_arith)
        requires
            den == 5 * half * half - 4 * p,
            4 * p <= half * half,
    ;
    assert((AMPLITUDE as int * 16 * p) / den <= AMPLITUDE) by (nonlinear_arith)
        requires
            AMPLITUDE as int * 16 * p <= AMPLITUDE as int * den,
            den > 0,
    ;
    assert((AMPLITUDE as int * 16 * p) / den >= 0) by (nonlinear_arith)
        requires
            AMPLITUDE as int * 16 * p >= 0,
            den > 0,
    ;
}

proof fn lemma_wave_sample_bounds(wave: WaveType, t: int, c: int)
    requires
        0 <= t < c,
    ensures
        -AMPLITUDE <= wave_sample(wave, t, c) <= AMPLITUDE,
{
    match wave {
        WaveType::Square => {},
        WaveType::Saw => {
            assert(0 <= (2 * AMPLITUDE * t) / c <= 2 * AMPLITUDE) by (nonlinear_arith)
                requires
                    0 <= t < c,
            ;
        },
        WaveType::Triangle => {
            let d = if 2 * t >= c { 2 * t - c } else { c - 2 * t };
            assert(0 <= (2 * AMPLITUDE * d) / c <= 2 * AMPLITUDE) by (nonlinear_arith)
                requires
                    0 <= d <= c,
                    c > 0,
            ;
        },
        WaveType::Sine => {
            if 2 * t < c {
                lemma_half_sine_bounds(2 * t, c);
            } else {
                lemma_half_sine_bounds(2 * t - c, c);
            }
        },
    }
}

/// Sample of `wave` at phase `t` of a cycle of `c` units.
pub fn wave_value(wave: WaveType, t: u64, c: u64) -> (r: i32)
    requires
        t < c,
        c <= CYCLE_LIMIT,
    ensures
        r == wave_sample(wave, t as int, c as int),
        -AMPLITUDE <= r <= AMPLITUDE,
{
    proof {
        lemma_wave_sample_bounds(wave, t as int, c as int);
    }
    let a: u128 = AMPLITUDE as u128;
    let t2: u128 = 2 * (t as u128);
    let cw: u128 = c as u128;
    match wave {
        WaveType::Square => if t2 < cw { AMPLITUDE } else { -AMPLITUDE },
        WaveType::Saw => {
            assert(0 <= (2 * a * (t as u128)) / (cw as int) <= 2 * a) by (nonlinear_arith)
                requires
                    t < c,
                    cw == c,
            ;
            assert(2 * a * (t as u128) <= 2 * a * cw) by (nonlinear_arith)
                requires
                    t < c,
                    a == AMPLITUDE,
                    cw == c,
            ;
            let q: u128 = (2 * a * (t as u128)) / cw;
            -AMPLITUDE + (q as i32)
        },
        WaveType::Triangle => {
            let d: u128 = if t2 >= cw { t2 - cw } else { cw - t2 };
            assert(0 <= (2 * a * d) / (cw as int) <= 2 * a) by (nonlinear_arith)
                requires
                    d <= cw,
                    cw > 0,
            ;
            assert(2 * a * d <= 2 * a * cw) by (nonlinear_arith)
                requires
                    d <= c,
                    a == AMPLITUDE,
                    cw == c,
            ;
            let q: u128 = (2 * a * d) / cw;
            AMPLITUDE - (q as i32)
        },
        WaveType::Sine => {
            let x: u128 = if t2 < cw { t2 } else { t2 - cw };
            let h = half_sine_value(x, cw);
            if t2 < cw { h } else { -h }
        },
    }
}

fn half_sine_value(x: u128, half: u128) -> (r: i32)
    requires
        x < half,
        half <= CYCLE_LIMIT,
    ensures
        r == half_sine(x as int, half as int),
        0 <= r <= AMPLITUDE,
{
    proof {
        lemma_half_sine_bounds(x as int, half as int);
    }
    assert(x * (half - x) <= half * half) by (nonlinear_arith)
        requires
            x < half,
    ;
    assert(half * half <= CYCLE_LIMIT as int * CYCLE_LIMIT as int) by (nonlinear_arith)
        requires
            half <= CYCLE_LIMIT,
    ;
    let p: u128 = x * (half - x);
    assert(4 * p <= half * half) by (nonlinear_arith)
        requires
            p == x * (half - x),
    ;
    let sq: u128 = half * half;
    assert(5 * half * half == 5 * sq) by (nonlinear_arith)
        requires
            sq == half * half,
    ;
    let den: u128 = 5 * sq - 4 * p;
    assert(p <= sq);
    assert((AMPLITUDE as u128) * 16 * p <= 0x80000 * (CYCLE_LIMIT * CYCLE_LIMIT)) by (nonlinear_arith)
        requires
            p <= sq,
            sq <= CYCLE_LIMIT * CYCLE_LIMIT,
    ;
    let num: u128 = (AMPLITUDE as u128) * 16 * p;
    (num / den) as i32
}

/// A phase-accumulating waveform generator.
pub struct Oscillator {
    pub wave: WaveType,
    pub sample_rate: u32,
    /// Current frequency in milli-hertz.
    pub frequency: u64,
    /// Position in the cycle, in units of `1 / cycle_len(sample_rate)` turns.
    pub phase: u64,
}

impl Oscillator {
    pub open spec fn cycle(&self) -> int {
        cycle_len(self.sample_rate)
    }

    pub open spec fn wf(&self) -> bool {
        self.sample_rate > 0 && self.phase < self.cycle()
    }

    /// A sine oscillator at rest: zero frequency, zero phase.
    pub fn new(sample_rate: u32) -> (r: Self)
        requires
            sample_rate > 0,
        ensures
            r.wf(),
            r.sample_rate == sample_rate,
            r.wave == WaveType::Sine,
            r.frequency == 0,
            r.phase == 0,
    {
        Oscillator { wave: WaveType::Sine, sample_rate, frequency: 0, phase: 0 }
    }

    /// Changes the frequency; the phase is kept.
    pub fn set_frequency(&mut self, frequency: u64)
        ensures
            *final(self) == (Oscillator { frequency, ..*old(self) }),
    {
        self.frequency = frequency;
    }

    /// Changes the waveform; the phase is kept.
    pub fn set_wave_type(&mut self, wave: WaveType)
        ensures
            *final(self) == (Oscillator { wave, ..*old(self) }),
    {
        self.wave = wave;
    }

    /// Advances the phase by `frequency / sample_rate` of a cycle and returns the
    /// waveform's sample at the new phase.
    pub fn run(&mut self) -> (r: i32)
        requires
            old(self).wf(),
        ensures
            final(self).wf(),
            final(self).phase == (old(self).phase + old(self).frequency) % old(self).cycle(),
            *final(self) == (Oscillator { phase: final(self).phase, ..*old(self) }),
            r == wave_sample(final(self).wave, final(self).phase as int, final(self).cycle()),
            -AMPLITUDE <= r <= AMPLITUDE,
    {
        let c: u64 = self.sample_rate as u64 * MILLI_HZ_PER_HZ;
        let step: u64 = self.frequency % c;
        proof {
            vstd::arithmetic::div_mod::lemma_add_mod_noop(
                self.phase as int,
                self.frequency as int,
                c as int,
            );
            vstd::arithmetic::div_mod::lemma_small_mod(self.phase as nat, c as nat);
            vstd::arithmetic::div_mod::lemma_mod_twice(self.frequency as int, c as int);
            vstd::arithmetic::div_mod::lemma_add_mod_noop(
                self.phase as int,
                step as int,
                c as int,
            );
        }
        self.phase = (self.phase + step) % c;
        wave_value(self.wave, self.phase, c)
    }
}

/// A low-frequency oscillator: the same generator, run at sub-audio rates to
/// give a control signal in `-AMPLITUDE ..= AMPLITUDE`.
pub struct Lfo {
    pub oscillator: Oscillator,
}

impl Lfo {
    pub open spec fn wf(&self) -> bool {
        self.oscillator.wf()
    }

    /// A sine modulator at rest.
    pub fn new(sample_rate: u32) -> (r: Lfo)
        requires
            sample_rate > 0,
        ensures
            r.wf(),
            r.oscillator == (Oscillator { wave: WaveType::Sine, sample_rate, frequency: 0, phase: 0 }),
    {
        Lfo { oscillator: Oscillator::new(sample_rate) }
    }

    /// Changes the modulation rate, in milli-hertz; the phase is kept.
    pub fn set_frequency(&mut self, frequency: u64)
        ensures
            final(self).oscillator == (Oscillator { frequency, ..old(self).oscillator }),
    {
        self.oscillator.set_frequency(frequency);
    }

    /// Changes the modulation shape; the phase is kept.
    pub fn set_wave_type(&mut self, wave: WaveType)
        ensures
            final(self).oscillator == (Oscillator { wave, ..old(self).oscillator }),
    {
        self.oscillator.set_wave_type(wave);
    }

    /// Advances the modulator by one sample and returns its value.
    pub fn run(&mut self) -> (r: i32)
        requires
            old(self).wf(),
        ensures
            final(self).wf(),
            final(self).oscillator.phase == (old(self).oscillator.phase + old(self).oscillator.frequency) % old(self).oscillator.cycle(),
            final(self).oscillator == (Oscillator { phase: final(self).oscillator.phase, ..old(self).oscillator }),
            r == wave_sample(final(self).oscillator.wave, final(self).oscillator.phase as int, final(self).oscillator.cycle()),
    {
        self.oscillator.run()
    }
}

/// After `n` steps whose total advance `n * f` is a whole number of cycles, the
/// phase is back where it started: an oscillator is periodic with period `c / f`
/// steps whenever that is a whole number.
pub proof fn lemma_phase_periodic(p: int, f: int, c: int, n: nat)
    requires
        0 <= p < c,
        f >= 0,
        (n * f) % c == 0,
    ensures
        phase_after(p, f, c, n) == p,
{
    lemma_phase_after_closed(p, f, c, n);
    vstd::arithmetic::div_mod::lemma_add_mod_noop(p, n * f, c);
    vstd::arithmetic::div_mod::lemma_small_mod(p as nat, c as nat);
}

/// The phase after `n` steps is the start plus `n` steps, taken modulo the cycle.
pub proof fn lemma_phase_after_closed(p: int, f: int, c: int, n: nat)
    requires
        0 <= p < c,
        f >= 0,
    ensures
        phase_after(p, f, c, n) == (p + n * f) % c,
    decreases n,
{
    if n == 0 {
        vstd::arithmetic::div_mod::lemma_small_mod(p as nat, c as nat);
    } else {
        let m = (n - 1) as nat;
        lemma_phase_after_closed(p, f, c, m);
        vstd::arithmetic::div_mod::lemma_add_mod_noop(p + m * f, f, c);
        vstd::arithmetic::div_mod::lemma_mod_twice(f, c);
        vstd::arithmetic::div_mod::lemma_add_mod_noop(p + m * f, f, c);
        assert(p + m * f + f == p + n * f) by (nonlinear_arith)
            requires
                m + 1 == n,
        ;
        vstd::arithmetic::div_mod::lemma_mod_twice(p + m * f + f, c);
        vstd::arithmetic::div_mod::lemma_add_mod_noop((p + m * f) % c, f, c);
        vstd::arithmetic::div_mod::lemma_mod_twice(p + m * f, c);
    }
}

} // verus!
