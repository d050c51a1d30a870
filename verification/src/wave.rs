use vstd::prelude::*;
use vstd::arithmetic::div_mod::{lemma_add_mod_noop_right, lemma_mod_bound, lemma_sub_mod_noop, lemma_mod_add_multiples_vanish};
use crate::shape::{shape_value, waveform, NoteShape, lemma_shape_value_bounds};
use crate::units::{bend_frequency, bent_frequency, AMP_ONE, FREQ_SCALE, TURN_SCALE};

verus! {

/// An oscillator: a waveform that turns `freq` thousandths of a time per second.
///
/// A new frequency is first set down as `target_freq`; the next sample adopts it and
/// corrects `phase` so that the oscillator's place in its turn does not jump.
#[derive(Clone, Copy, Debug)]
pub struct PlaybackWave {
    freq: u32,
    target_freq: u32,
    shape: NoteShape,
    phase: u64,
}

/// What an oscillator holds, as plain numbers.
pub struct WaveView {
    /// The frequency in use, in millihertz.
    pub freq: int,
    /// The frequency to adopt at the next sample, in millihertz.
    pub target_freq: int,
    pub shape: NoteShape,
    /// The phase offset, in steps of a turn (see `turn_steps`).
    pub phase: int,
}

impl View for PlaybackWave {
    type V = WaveView;

    closed spec fn view(&self) -> WaveView {
        WaveView {
            freq: self.freq as int,
            target_freq: self.target_freq as int,
            shape: self.shape,
            phase: self.phase as int,
        }
    }
}

impl WaveView {
    /// Both frequencies are positive and every field fits its machine word.
    pub open spec fn wf(self) -> bool {
        &&& 1 <= self.freq <= u32::MAX
        &&& 1 <= self.target_freq <= u32::MAX
        &&& 0 <= self.phase <= u64::MAX
    }
}

/// The number of steps that one turn is split into at sample rate `rate`.
pub open spec fn turn_steps(rate: int) -> int {
    TURN_SCALE * rate
}

/// The time of sample `i`, counted from the last whole multiple of `rate * freq`
/// samples, in units of `1 / (FREQ_SCALE * rate)` seconds.
pub open spec fn time_steps(freq: int, rate: int, i: int) -> int {
    (i * FREQ_SCALE) % (rate * freq)
}

/// Where in its turn an oscillator stands at time `t`: `freq * t + phase`, in steps,
/// with whole turns taken off.
pub open spec fn turn_position(freq: int, phase: int, t: int, rate: int) -> int {
    (freq * t + phase) % turn_steps(rate)
}

/// The phase that goes with `target_freq` at sample `i`: the old phase, moved by as
/// much as the two frequencies differ in how far they have turned by then.
pub open spec fn retuned_phase(w: WaveView, rate: int, i: int) -> int {
    let t = time_steps(w.freq, rate, i);
    (w.phase + t * w.freq - t * w.target_freq) % turn_steps(rate)
}

/// The oscillator after sample `i`: a pending frequency is adopted, with its phase.
pub open spec fn wave_after(w: WaveView, rate: int, i: int) -> WaveView {
    if w.target_freq != w.freq {
        WaveView { freq: w.target_freq, phase: retuned_phase(w, rate, i), ..w }
    } else {
        w
    }
}

/// The oscillator's value at sample `i`. The time is taken with the frequency in use
/// before the sample; the place in the turn with the frequency and phase after it.
pub open spec fn wave_value(w: WaveView, rate: int, i: int) -> int {
    let t = time_steps(w.freq, rate, i);
    let a = wave_after(w, rate, i);
    shape_value(w.shape, turn_position(a.freq, a.phase, t, rate), turn_steps(rate))
}

impl PlaybackWave {
    /// An oscillator of `freq` millihertz that starts at the beginning of its turn.
    pub fn new(freq: u32, shape: NoteShape) -> (w: PlaybackWave)
        requires
            freq >= 1,
        ensures
            w@ == (WaveView { freq: freq as int, target_freq: freq as int, shape, phase: 0 }),
            w@.wf(),
    {
        PlaybackWave { freq, target_freq: freq, shape, phase: 0 }
    }

    /// The frequency in use, in millihertz.
    pub fn freq(&self) -> (f: u32)
        ensures
            f == self@.freq,
    {
        self.freq
    }

    /// The frequency that the next sample adopts, in millihertz.
    pub fn target_freq(&self) -> (f: u32)
        ensures
            f == self@.target_freq,
    {
        self.target_freq
    }

    pub fn shape(&self) -> (s: NoteShape)
        ensures
            s == self@.shape,
    {
        self.shape
    }

    /// The phase offset, in steps of a turn.
    pub fn phase(&self) -> (p: u64)
        ensures
            p == self@.phase,
    {
        self.phase
    }

    /// The value at sample `i` of a stream of `sample_rate` samples per second.
    pub fn get_sample(&mut self, sample_rate: u32, i: u32) -> (v: i64)
        requires
            old(self)@.wf(),
            sample_rate >= 1,
        ensures
            final(self)@ == wave_after(old(self)@, sample_rate as int, i as int),
            v == wave_value(old(self)@, sample_rate as int, i as int),
            final(self)@.wf(),
            -AMP_ONE <= v <= AMP_ONE,
    {
        let ghost rate = sample_rate as int;
        let ghost before = self@;
        let d: u64 = TURN_SCALE * (sample_rate as u64);
        proof {
            assert((sample_rate as int) * (self.freq as int) <= 4294967295int * 4294967295int
                && (sample_rate as int) * (self.freq as int) >= 1) by (nonlinear_arith)
                requires
                    1 <= sample_rate <= 4294967295int,
                    1 <= self.freq <= 4294967295int,
            ;
        }
        let span: u64 = (sample_rate as u64) * (self.freq as u64);
        let t: u64 = ((i as u64) * (FREQ_SCALE as u64)) % span;
        assert(t == time_steps(before.freq, rate, i as int));
        assert(d == turn_steps(rate));
        if self.target_freq != self.freq {
            proof {
                lemma_product_fits(t, self.freq);
                lemma_product_fits(t, self.target_freq);
            }
            let gained: u128 = (t as u128) * (self.freq as u128);
            let lost: u128 = (t as u128) * (self.target_freq as u128);
            let up: u128 = ((self.phase as u128) + gained) % (d as u128);
            let down: u128 = lost % (d as u128);
            let phase: u128 = (up + (d as u128) - down) % (d as u128);
            proof {
                let x = before.phase + t * before.freq;
                let y = t * before.target_freq;
                assert(up == x % (d as int));
                assert(down == y % (d as int));
                lemma_sub_mod_noop(x, y, d as int);
                lemma_mod_add_multiples_vanish(up - down, d as int);
                assert(phase == (x - y) % (d as int));
                assert(x - y == before.phase + t * before.freq - t * before.target_freq);
            }
            self.phase = phase as u64;
            self.freq = self.target_freq;
        }
        assert(self@ == wave_after(before, rate, i as int));
        proof {
            lemma_product_fits(t, self.freq);
            lemma_mod_bound(self.freq * t + self.phase, d as int);
            lemma_shape_value_bounds(self.shape, (self.freq * t + self.phase) % (d as int), d as int);
        }
        let turned: u128 = (self.freq as u128) * (t as u128) + (self.phase as u128);
        let n: u128 = turned % (d as u128);
        waveform(self.shape, n as u64, d)
    }

    /// Sets down `mult_ppm` millionths of the target frequency as the new target.
    pub fn adjust_freq(&mut self, mult_ppm: i64)
        requires
            old(self)@.wf(),
        ensures
            final(self)@ == (WaveView {
                target_freq: bent_frequency(old(self)@.target_freq, mult_ppm as int),
                ..old(self)@
            }),
            final(self)@.wf(),
    {
        self.target_freq = bend_frequency(self.target_freq, mult_ppm);
    }
}

proof fn lemma_product_fits(t: u64, f: u32)
    ensures
        0 <= (t as int) * (f as int) <= 18446744073709551615int * 4294967295int,
        (f as int) * (t as int) == (t as int) * (f as int),
{
    assert(0 <= (t as int) * (f as int) <= 18446744073709551615int * 4294967295int
        && (f as int) * (t as int) == (t as int) * (f as int)) by (nonlinear_arith)
        requires
            0 <= t <= 18446744073709551615int,
            0 <= f <= 4294967295int,
    ;
}

/// Adopting a new frequency does not move the oscillator: at the sample where
/// `target_freq` is taken up, the value is the one that the old frequency and the
/// old phase give at that sample.
pub proof fn lemma_retune_is_continuous(w: WaveView, rate: int, i: int)
    requires
        w.wf(),
        rate >= 1,
        i >= 0,
    ensures
        wave_value(w, rate, i) == wave_value(WaveView { target_freq: w.freq, ..w }, rate, i),
        turn_position(wave_after(w, rate, i).freq, wave_after(w, rate, i).phase,
            time_steps(w.freq, rate, i), rate)
            == turn_position(w.freq, w.phase, time_steps(w.freq, rate, i), rate),
{
    let t = time_steps(w.freq, rate, i);
    let d = turn_steps(rate);
    if w.target_freq != w.freq {
        let moved = w.phase + t * w.freq - t * w.target_freq;
        lemma_add_mod_noop_right(w.target_freq * t, moved, d);
        assert(w.target_freq * t + moved == w.freq * t + w.phase) by (nonlinear_arith)
            requires
                moved == w.phase + t * w.freq - t * w.target_freq,
        ;
    }
}

} // verus!
