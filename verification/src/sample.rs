use vstd::prelude::*;
use vstd::arithmetic::div_mod::{lemma_fundamental_div_mod, lemma_mod_bound};
use crate::units::{bend_frequency, bent_frequency, div_toward_zero, floor_div_rem, quotient_toward_zero};

verus! {

/// A recording that is played back through a read cursor, with an optional
/// sustain loop: a stretch of the recording that is gone through again and again.
#[derive(Debug)]
pub struct PlaybackSample {
    sample_def: Vec<i32>,
    native_rate: u32,
    freq: u32,
    target_freq: u32,
    phase: u32,
    loop_bounds: Option<(usize, usize)>,
    loop_offset: u64,
}

/// What a recording holds, as plain values.
pub struct SampleView {
    /// The amplitudes, in order.
    pub samples: Seq<i32>,
    /// The recording's own rate: read at this rate, one sample goes by per tick.
    pub native_rate: int,
    /// The rate it is read at: the cursor moves `freq / native_rate` samples per tick.
    pub freq: int,
    /// The rate that pitch bends are set down in.
    pub target_freq: int,
    /// Where the cursor starts, in steps of `1 / native_rate` of a sample.
    pub phase: int,
    /// The first and the last index of the sustain loop, if there is one.
    pub loop_bounds: Option<(int, int)>,
    /// What has been taken off the cursor so far to stay inside the loop, in steps of
    /// `1 / native_rate` of a sample. On the clock that is `loop_offset / freq` ticks.
    pub loop_offset: int,
}

impl View for PlaybackSample {
    type V = SampleView;

    closed spec fn view(&self) -> SampleView {
        SampleView {
            samples: self.sample_def@,
            native_rate: self.native_rate as int,
            freq: self.freq as int,
            target_freq: self.target_freq as int,
            phase: self.phase as int,
            loop_bounds: match self.loop_bounds {
                Some((start, end)) => Some((start as int, end as int)),
                None => None,
            },
            loop_offset: self.loop_offset as int,
        }
    }
}

impl SampleView {
    /// The recording is not empty, its rates are positive, and a loop lies inside it
    /// with its start before its end.
    pub open spec fn wf(self) -> bool {
        &&& 1 <= self.samples.len() <= usize::MAX
        &&& 1 <= self.native_rate <= u32::MAX
        &&& 1 <= self.freq <= u32::MAX
        &&& 1 <= self.target_freq <= u32::MAX
        &&& 0 <= self.phase <= u32::MAX
        &&& 0 <= self.loop_offset <= u64::MAX
        &&& match self.loop_bounds {
            Some((start, end)) => 0 <= start < end < self.samples.len(),
            None => true,
        }
    }
}

/// Whether an amplitude is within a tenth of the peak's.
pub open spec fn near_peak(amplitude: int, peak: int) -> bool {
    10 * amplitude >= 9 * peak
}

/// `p` is the first index at which `signal` is largest.
pub open spec fn is_first_peak(signal: Seq<i32>, p: int) -> bool {
    &&& 0 <= p < signal.len()
    &&& forall|j: int| 0 <= j < signal.len() ==> signal[j] <= signal[p]
    &&& forall|j: int| 0 <= j < p ==> signal[j] < signal[p]
}

/// `start ..= end` is the longest unbroken stretch around the peak `p` in which every
/// amplitude is within a tenth of the peak's.
pub open spec fn is_plateau(signal: Seq<i32>, p: int, start: int, end: int) -> bool {
    &&& 0 <= start <= p <= end < signal.len()
    &&& forall|j: int| start <= j <= end ==> near_peak(signal[j] as int, signal[p] as int)
    &&& (start > 0 ==> !near_peak(signal[start - 1] as int, signal[p] as int))
    &&& (end + 1 < signal.len() ==> !near_peak(signal[end + 1] as int, signal[p] as int))
}

/// The sustain loop of `signal`: the plateau around its first peak, where that
/// plateau is more than one sample long.
pub open spec fn sustain_bounds(signal: Seq<i32>, start: int, end: int) -> bool {
    exists|p: int| is_first_peak(signal, p) && is_plateau(signal, p, start, end) && start < end
}

/// The first peak and the plateau around it are each one of a kind.
pub proof fn lemma_plateau_is_unique(signal: Seq<i32>, p: int, start: int, end: int, q: int, from: int, to: int)
    requires
        is_first_peak(signal, p),
        is_plateau(signal, p, start, end),
        is_first_peak(signal, q),
        is_plateau(signal, q, from, to),
    ensures
        p == q,
        start == from,
        end == to,
{
    if p < q {
        assert(signal[p] < signal[q]);
    }
    if q < p {
        assert(signal[q] < signal[p]);
    }
    if start < from {
        assert(near_peak(signal[from - 1] as int, signal[p] as int));
    }
    if from < start {
        assert(near_peak(signal[start - 1] as int, signal[p] as int));
    }
    if end < to {
        assert(near_peak(signal[end + 1] as int, signal[p] as int));
    }
    if to < end {
        assert(near_peak(signal[to + 1] as int, signal[p] as int));
    }
}

/// Which way a signal is going.
#[derive(Clone, Copy, Debug, PartialEq, Eq, Structural)]
pub enum Trend {
    Falling,
    Level,
    Rising,
}

/// The sum of `signal[from .. to]`, the last index left out.
pub open spec fn run_sum(signal: Seq<i32>, from: int, to: int) -> int
    decreases to - from,
{
    if from >= to {
        0
    } else {
        run_sum(signal, from, to - 1) + signal[to - 1]
    }
}

/// The trend at index `i`: how the sum of the four samples before `i` stands to the
/// sum of the four samples that end five before `i`.
pub open spec fn trend_at(signal: Seq<i32>, i: int) -> Trend {
    let recent = run_sum(signal, i - 4, i);
    let earlier = run_sum(signal, i - 9, i - 5);
    if recent < earlier {
        Trend::Falling
    } else if recent == earlier {
        Trend::Level
    } else {
        Trend::Rising
    }
}

/// Whether the trend turns at index `i`. Trends are taken from index 10 on, and the
/// signal counts as rising before that.
pub open spec fn is_turn(signal: Seq<i32>, i: int) -> bool {
    &&& 10 <= i < signal.len()
    &&& trend_at(signal, i) != if i == 10 {
        Trend::Rising
    } else {
        trend_at(signal, i - 1)
    }
}

proof fn lemma_run_of_four(signal: Seq<i32>, to: int)
    ensures
        run_sum(signal, to - 4, to) == signal[to - 4] + signal[to - 3] + signal[to - 2] + signal[to - 1],
{
    reveal_with_fuel(run_sum, 5);
}

/// Cuts a signal into the stretches between its turns. Each stretch is given by its
/// first index and the index after its last: the first stretch starts at zero, each
/// further one at a turn, the last one ends with the signal, and no stretch has a
/// turn inside.
pub fn yield_slices(v: &Vec<i32>) -> (slices: Vec<(usize, usize)>)
    ensures
        slices@.len() >= 1,
        slices@[0].0 == 0,
        slices@[slices@.len() - 1].1 == v@.len(),
        forall|k: int| 0 <= k < slices@.len() ==> (#[trigger] slices@[k]).0 <= slices@[k].1,
        forall|k: int|
            0 <= k < slices@.len() - 1 ==> (#[trigger] slices@[k]).1 == slices@[k + 1].0 && is_turn(
                v@,
                slices@[k].1 as int,
            ),
        forall|k: int, j: int|
            0 <= k < slices@.len() && (#[trigger] slices@[k]).0 < j < slices@[k].1 ==> !#[trigger] is_turn(
                v@,
                j,
            ),
{
    let mut slices: Vec<(usize, usize)> = Vec::new();
    let mut start: usize = 0;
    let mut current = Trend::Rising;
    let mut i: usize = 10;
    while i < v.len()
        invariant
            10 <= i,
            start < i,
            start <= v@.len(),
            current == if i == 10 {
                Trend::Rising
            } else {
                trend_at(v@, i - 1)
            },
            slices@.len() == 0 ==> start == 0,
            slices@.len() > 0 ==> slices@[0].0 == 0 && slices@[slices@.len() - 1].1 == start,
            forall|k: int| 0 <= k < slices@.len() ==> (#[trigger] slices@[k]).0 <= slices@[k].1,
            forall|k: int| 0 <= k < slices@.len() ==> is_turn(v@, (#[trigger] slices@[k]).1 as int),
            forall|k: int| 0 <= k < slices@.len() - 1 ==> (#[trigger] slices@[k]).1 == slices@[k + 1].0,
            forall|k: int, j: int|
                0 <= k < slices@.len() && (#[trigger] slices@[k]).0 < j < slices@[k].1 ==> !#[trigger] is_turn(
                    v@,
                    j,
                ),
            forall|j: int| start < j < i ==> !is_turn(v@, j),
        decreases v@.len() - i,
    {
        proof {
            lemma_run_of_four(v@, i as int);
            lemma_run_of_four(v@, i - 5);
        }
        let recent: i64 = v[i - 4] as i64 + v[i - 3] as i64 + v[i - 2] as i64 + v[i - 1] as i64;
        let earlier: i64 = v[i - 9] as i64 + v[i - 8] as i64 + v[i - 7] as i64 + v[i - 6] as i64;
        let direction = if recent < earlier {
            Trend::Falling
        } else if recent == earlier {
            Trend::Level
        } else {
            Trend::Rising
        };
        assert(direction == trend_at(v@, i as int));
        if direction != current {
            slices.push((start, i));
            start = i;
            current = direction;
        }
        i += 1;
    }
    slices.push((start, v.len()));
    slices
}

/// Finds the sustain loop of a recording: `(Some(start), Some(end))` where the
/// plateau around the first peak is more than one sample long, `(None, None)`
/// where it is not, or where the recording is empty or its peak is below zero.
pub fn find_sustain_sample_bounds(signal: &Vec<i32>) -> (bounds: (Option<usize>, Option<usize>))
    ensures
        match bounds {
            (Some(start), Some(end)) => sustain_bounds(signal@, start as int, end as int),
            (None, None) => forall|start: int, end: int| !sustain_bounds(signal@, start, end),
            _ => false,
        },
{
    if signal.len() == 0 {
        return (None, None);
    }
    let mut peak_index: usize = 0;
    let mut i: usize = 1;
    while i < signal.len()
        invariant
            1 <= i <= signal.len(),
            is_first_peak(signal@.subrange(0, i as int), peak_index as int),
        decreases signal.len() - i,
    {
        let ghost before = signal@.subrange(0, i as int);
        let ghost after = signal@.subrange(0, i + 1);
        if signal[i] > signal[peak_index] {
            peak_index = i;
        }
        proof {
            assert forall|j: int| 0 <= j < after.len() implies after[j] <= after[peak_index as int] by {
                if j < i {
                    assert(before[j] == after[j]);
                }
            }
            assert forall|j: int| 0 <= j < peak_index implies after[j] < after[peak_index as int] by {
                assert(before[j] == after[j]);
            }
        }
        i += 1;
    }
    assert(signal@.subrange(0, signal@.len() as int) =~= signal@);
    let peak: i64 = signal[peak_index] as i64;
    if peak < 0 {
        proof {
            assert forall|start: int, end: int| !sustain_bounds(signal@, start, end) by {
                if sustain_bounds(signal@, start, end) {
                    let p = choose|p: int| is_first_peak(signal@, p) && is_plateau(signal@, p, start, end);
                    lemma_peak_is_unique(signal@, p, peak_index as int);
                    assert(near_peak(signal@[p] as int, signal@[p] as int));
                }
            }
        }
        return (None, None);
    }
    let mut end: usize = peak_index;
    while end + 1 < signal.len() && 10 * (signal[end + 1] as i64) >= 9 * peak
        invariant
            peak_index <= end < signal.len(),
            peak == signal@[peak_index as int],
            forall|j: int| peak_index <= j <= end ==> near_peak(signal@[j] as int, peak as int),
        decreases signal.len() - end,
    {
        end += 1;
    }
    let mut start: usize = peak_index;
    while start > 0 && 10 * (signal[start - 1] as i64) >= 9 * peak
        invariant
            start <= peak_index < signal.len(),
            peak == signal@[peak_index as int],
            forall|j: int| start <= j <= peak_index ==> near_peak(signal@[j] as int, peak as int),
        decreases start,
    {
        start -= 1;
    }
    assert(is_plateau(signal@, peak_index as int, start as int, end as int));
    if start < end {
        (Some(start), Some(end))
    } else {
        proof {
            assert forall|from: int, to: int| !sustain_bounds(signal@, from, to) by {
                if sustain_bounds(signal@, from, to) {
                    let p = choose|p: int| is_first_peak(signal@, p) && is_plateau(signal@, p, from, to);
                    lemma_plateau_is_unique(signal@, p, from, to, peak_index as int, start as int, end as int);
                }
            }
        }
        (None, None)
    }
}

proof fn lemma_peak_is_unique(signal: Seq<i32>, p: int, q: int)
    requires
        is_first_peak(signal, p),
        is_first_peak(signal, q),
    ensures
        p == q,
{
    if p < q {
        assert(signal[p] < signal[q]);
    }
    if q < p {
        assert(signal[q] < signal[p]);
    }
}

/// The read cursor at tick `i`, in steps of `1 / native_rate` of a sample: the
/// `freq` steps of each tick, and the phase, less what the loop has taken off.
pub open spec fn cursor_steps(s: SampleView, i: int) -> int {
    i * s.freq + s.phase - s.loop_offset
}

/// The first index of the loop (zero where there is none).
pub open spec fn loop_start(s: SampleView) -> int {
    match s.loop_bounds {
        Some((start, _)) => start,
        None => 0,
    }
}

/// The last index of the loop (zero where there is none).
pub open spec fn loop_end(s: SampleView) -> int {
    match s.loop_bounds {
        Some((_, end)) => end,
        None => 0,
    }
}

/// The length of the loop, in steps of `1 / native_rate` of a sample.
pub open spec fn loop_span(s: SampleView) -> int {
    (loop_end(s) - loop_start(s)) * s.native_rate
}

/// Whether the cursor has gone beyond the end of the loop at tick `i`.
pub open spec fn past_loop_end(s: SampleView, i: int) -> bool {
    match s.loop_bounds {
        Some((start, end)) => cursor_steps(s, i) > end * s.native_rate,
        None => false,
    }
}

/// The recording after tick `i`: where the cursor has gone beyond the end of the
/// loop, the loop's length is taken off the cursor, exactly.
pub open spec fn sample_after(s: SampleView, i: int) -> SampleView {
    if past_loop_end(s, i) {
        SampleView { loop_offset: s.loop_offset + loop_span(s), ..s }
    } else {
        s
    }
}

/// The straight line from `a` to `b`, `f / n` of the way along, rounded toward zero.
pub open spec fn blend(a: int, b: int, f: int, n: int) -> int {
    div_toward_zero(a * (n - f) + b * f, n)
}

/// The recording read at a cursor of `c / n` samples: the two samples next to the
/// cursor, blended. Indices beyond either end of the recording wrap around, so a
/// recording without a loop starts over when the cursor runs off its end.
pub open spec fn read_at(samples: Seq<i32>, c: int, n: int) -> int {
    let k = c / n;
    let len = samples.len() as int;
    blend(samples[k % len] as int, samples[(k + 1) % len] as int, c % n, n)
}

/// The recording's value at tick `i`, read after the loop has been seen to.
pub open spec fn sample_value(s: SampleView, i: int) -> int {
    let a = sample_after(s, i);
    read_at(a.samples, cursor_steps(a, i), a.native_rate)
}

/// A blend lies between the two values it is made from.
pub proof fn lemma_blend_bounds(a: int, b: int, f: int, n: int)
    requires
        0 <= f < n,
    ensures
        a <= b ==> a <= blend(a, b, f, n) <= b,
        b <= a ==> b <= blend(a, b, f, n) <= a,
{
    let lo = if a <= b { a } else { b };
    let hi = if a <= b { b } else { a };
    let x = a * (n - f) + b * f;
    assert(lo * n <= x <= hi * n) by (nonlinear_arith)
        requires
            0 <= f < n,
            lo <= a <= hi,
            lo <= b <= hi,
            x == a * (n - f) + b * f,
    ;
    if x >= 0 {
        lemma_fundamental_div_mod(x, n);
        lemma_mod_bound(x, n);
        let q = x / n;
        assert(lo <= q <= hi) by (nonlinear_arith)
            requires
                n > 0,
                lo * n <= x <= hi * n,
                x == n * q + x % n,
                0 <= x % n < n,
        ;
    } else {
        lemma_fundamental_div_mod(-x, n);
        lemma_mod_bound(-x, n);
        let q = (-x) / n;
        assert(lo <= -q <= hi) by (nonlinear_arith)
            requires
                n > 0,
                lo * n <= x <= hi * n,
                -x == n * q + (-x) % n,
                0 <= (-x) % n < n,
        ;
    }
}

/// Going back into the loop: where the cursor has passed the end of the loop by no
/// more than the loop's length, the cursor after the tick lies after the loop's
/// start and not after its end, exactly one loop length back. The value at the seam
/// is the recording read at that place; the samples and the loop stay as they are.
pub proof fn lemma_loop_stitch(s: SampleView, i: int)
    requires
        s.wf(),
        past_loop_end(s, i),
        cursor_steps(s, i) - loop_end(s) * s.native_rate <= loop_span(s),
    ensures
        loop_start(s) * s.native_rate < cursor_steps(sample_after(s, i), i) <= loop_end(s) * s.native_rate,
        cursor_steps(sample_after(s, i), i) == cursor_steps(s, i) - loop_span(s),
        loop_span(s) == (loop_end(s) - loop_start(s)) * s.native_rate,
        loop_span(s) > 0,
        sample_after(s, i).loop_offset == s.loop_offset + loop_span(s),
        sample_after(s, i).samples == s.samples,
        sample_after(s, i).loop_bounds == s.loop_bounds,
        sample_value(s, i) == read_at(s.samples, cursor_steps(s, i) - loop_span(s), s.native_rate),
{
    lemma_loop_step(s, i);
}

/// One pass through the loop moves the cursor back by the loop's length, whatever
/// the overshoot; the cursor stays beyond the loop's start.
pub proof fn lemma_loop_step(s: SampleView, i: int)
    requires
        s.wf(),
        past_loop_end(s, i),
    ensures
        s.loop_bounds is Some,
        cursor_steps(sample_after(s, i), i) == cursor_steps(s, i) - loop_span(s),
        cursor_steps(sample_after(s, i), i) > loop_start(s) * s.native_rate,
        loop_start(s) * s.native_rate >= 0,
        loop_span(s) > 0,
        s.loop_offset + loop_span(s) < i * s.freq + s.phase,
{
    let start = loop_start(s);
    let end = loop_end(s);
    let span = loop_span(s);
    assert(span > 0 && end * s.native_rate - span == start * s.native_rate && start * s.native_rate >= 0)
        by (nonlinear_arith)
        requires
            span == (end - start) * s.native_rate,
            end > start,
            start >= 0,
            s.native_rate >= 1,
    ;
}

impl Clone for PlaybackSample {
    fn clone(&self) -> (c: Self)
        ensures
            c@ == self@,
    {
        let sample_def = self.sample_def.clone();
        assert(sample_def@ =~= self.sample_def@);
        PlaybackSample {
            sample_def,
            native_rate: self.native_rate,
            freq: self.freq,
            target_freq: self.target_freq,
            phase: self.phase,
            loop_bounds: self.loop_bounds,
            loop_offset: self.loop_offset,
        }
    }
}

impl PlaybackSample {
    /// A recording that is read at its own rate, one sample per tick, from its first
    /// sample on, with the sustain loop that `find_sustain_sample_bounds` finds in it.
    pub fn new(sample_def: Vec<i32>, native_rate: u32) -> (s: PlaybackSample)
        requires
            sample_def@.len() >= 1,
            native_rate >= 1,
        ensures
            s@.wf(),
            s@.samples == sample_def@,
            s@.native_rate == native_rate,
            s@.freq == native_rate,
            s@.target_freq == native_rate,
            s@.phase == 0,
            s@.loop_offset == 0,
            match s@.loop_bounds {
                Some((start, end)) => sustain_bounds(sample_def@, start, end),
                None => forall|start: int, end: int| !sustain_bounds(sample_def@, start, end),
            },
    {
        PlaybackSample::with_freq(sample_def, native_rate, native_rate)
    }

    /// A recording whose own rate is `native_rate` and which is read at `freq`: the
    /// cursor moves `freq / native_rate` samples per tick.
    pub fn with_freq(sample_def: Vec<i32>, native_rate: u32, freq: u32) -> (s: PlaybackSample)
        requires
            sample_def@.len() >= 1,
            native_rate >= 1,
            freq >= 1,
        ensures
            s@.wf(),
            s@.samples == sample_def@,
            s@.native_rate == native_rate,
            s@.freq == freq,
            s@.target_freq == freq,
            s@.phase == 0,
            s@.loop_offset == 0,
            match s@.loop_bounds {
                Some((start, end)) => sustain_bounds(sample_def@, start, end),
                None => forall|start: int, end: int| !sustain_bounds(sample_def@, start, end),
            },
    {
        let _len: usize = sample_def.len();
        let bounds = find_sustain_sample_bounds(&sample_def);
        let loop_bounds = match bounds {
            (Some(start), Some(end)) => {
                proof {
                    lemma_bounds_inside(sample_def@, start as int, end as int);
                }
                Some((start, end))
            },
            _ => None,
        };
        PlaybackSample {
            sample_def,
            native_rate,
            freq,
            target_freq: freq,
            phase: 0,
            loop_bounds,
            loop_offset: 0,
        }
    }

    /// The number of samples in the recording.
    pub fn len(&self) -> (n: usize)
        ensures
            n == self@.samples.len(),
    {
        self.sample_def.len()
    }

    /// The rate that pitch bends are set down in.
    pub fn target_freq(&self) -> (f: u32)
        ensures
            f == self@.target_freq,
    {
        self.target_freq
    }

    /// The first and the last index of the sustain loop, if there is one.
    pub fn loop_bounds(&self) -> (b: Option<(usize, usize)>)
        ensures
            match b {
                Some((start, end)) => self@.loop_bounds == Some((start as int, end as int)),
                None => self@.loop_bounds is None,
            },
    {
        self.loop_bounds
    }

    /// What has been taken off the cursor so far, in steps of `1 / native_rate` of
    /// a sample.
    pub fn loop_offset(&self) -> (t: u64)
        ensures
            t == self@.loop_offset,
    {
        self.loop_offset
    }

    /// The value at tick `i`.
    pub fn get_sample(&mut self, i: u32) -> (v: i64)
        requires
            old(self)@.wf(),
        ensures
            final(self)@ == sample_after(old(self)@, i as int),
            v == sample_value(old(self)@, i as int),
            final(self)@.wf(),
            i32::MIN <= v <= i32::MAX,
    {
        let ghost before = self@;
        let freq: i128 = self.freq as i128;
        let rate: i128 = self.native_rate as i128;
        let phase: i128 = self.phase as i128;
        proof {
            lemma_turned_room(i as int, freq as int);
        }
        let turned: i128 = (i as i128) * freq;
        let mut cursor: i128 = turned + phase - (self.loop_offset as i128);
        assert(cursor == cursor_steps(before, i as int));
        match self.loop_bounds {
            Some((start, end)) => {
                proof {
                    lemma_product_room(end as int, rate as int);
                    lemma_product_room((end - start) as int, rate as int);
                }
                if cursor > (end as i128) * rate {
                    proof {
                        lemma_loop_step(before, i as int);
                    }
                    let span: i128 = ((end - start) as i128) * rate;
                    assert(span == loop_span(before));
                    self.loop_offset = self.loop_offset + (span as u64);
                    cursor = cursor - span;
                }
            },
            None => {},
        }
        assert(self@ == sample_after(before, i as int));
        assert(cursor == cursor_steps(self@, i as int));
        let (k, f) = floor_div_rem(cursor, rate);
        let len: i128 = self.sample_def.len() as i128;
        proof {
            lemma_fundamental_div_mod(cursor as int, rate as int);
            lemma_quotient_room(cursor as int, rate as int, k as int, f as int);
        }
        let (_q0, first) = floor_div_rem(k, len);
        let (_q1, second) = floor_div_rem(k + 1, len);
        let a: i128 = self.sample_def[first as usize] as i128;
        let b: i128 = self.sample_def[second as usize] as i128;
        proof {
            lemma_blend_bounds(a as int, b as int, f as int, rate as int);
            lemma_product_room(a as int, (rate - f) as int);
            lemma_product_room(b as int, f as int);
        }
        let mixed: i128 = a * (rate - f) + b * f;
        let v: i128 = quotient_toward_zero(mixed, rate);
        assert(v == blend(a as int, b as int, f as int, rate as int));
        v as i64
    }

    /// Sets down `mult_ppm` millionths of the target rate as the new target.
    pub fn adjust_freq(&mut self, mult_ppm: i64)
        requires
            old(self)@.wf(),
        ensures
            final(self)@ == (SampleView {
                target_freq: bent_frequency(old(self)@.target_freq, mult_ppm as int),
                ..old(self)@
            }),
            final(self)@.wf(),
    {
        self.target_freq = bend_frequency(self.target_freq, mult_ppm);
    }
}

/// The steps that the ticks have turned, with any phase added, fit 64 bits.
proof fn lemma_turned_room(i: int, freq: int)
    requires
        0 <= i <= 4294967295int,
        0 <= freq <= 4294967295int,
    ensures
        0 <= i * freq <= 18446744065119617025int,
{
    assert(0 <= i * freq <= 18446744065119617025int) by (nonlinear_arith)
        requires
            0 <= i <= 4294967295int,
            0 <= freq <= 4294967295int,
    ;
}

/// The product of a number of at most 64 bits and one of at most 32 has at most 96.
proof fn lemma_product_room(a: int, b: int)
    requires
        -18446744073709551616int <= a <= 18446744073709551616int,
        -4294967296int <= b <= 4294967296int,
    ensures
        -79228162514264337593543950336int <= a * b <= 79228162514264337593543950336int,
{
    assert(-79228162514264337593543950336int <= a * b <= 79228162514264337593543950336int) by (nonlinear_arith)
        requires
            -18446744073709551616int <= a <= 18446744073709551616int,
            -4294967296int <= b <= 4294967296int,
    ;
}

/// A quotient by a positive number is no further from zero than what was divided,
/// give or take the divisor.
proof fn lemma_quotient_room(c: int, n: int, k: int, f: int)
    requires
        n >= 1,
        c == n * k + f,
        0 <= f < n,
        -158456325028528675187087900672int <= c <= 158456325028528675187087900672int,
    ensures
        -158456325028528675187087900672int - 1 <= k <= 158456325028528675187087900672int,
{
    assert(-158456325028528675187087900672int - 1 <= k <= 158456325028528675187087900672int) by (nonlinear_arith)
        requires
            n >= 1,
            c == n * k + f,
            0 <= f < n,
            -158456325028528675187087900672int <= c <= 158456325028528675187087900672int,
    ;
}

/// A sustain loop lies inside the recording, with its start before its end.
proof fn lemma_bounds_inside(signal: Seq<i32>, start: int, end: int)
    requires
        sustain_bounds(signal, start, end),
    ensures
        0 <= start < end < signal.len(),
{
    let p = choose|p: int| is_first_peak(signal, p) && is_plateau(signal, p, start, end) && start < end;
}

} // verus!
