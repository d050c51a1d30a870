use vstd::prelude::*;
use crate::sample::{sample_after, sample_value, PlaybackSample, SampleView};
use crate::units::bent_frequency;
use crate::wave::{wave_after, wave_value, PlaybackWave, WaveView};

verus! {

/// A generator of sound: an oscillator or a recording.
#[derive(Debug)]
pub enum PlaybackType {
    Wave(PlaybackWave),
    Sample(PlaybackSample),
}

/// What a generator holds, as plain values.
pub enum GeneratorView {
    Wave(WaveView),
    Sample(SampleView),
}

impl View for PlaybackType {
    type V = GeneratorView;

    open spec fn view(&self) -> GeneratorView {
        match self {
            PlaybackType::Wave(w) => GeneratorView::Wave(w@),
            PlaybackType::Sample(s) => GeneratorView::Sample(s@),
        }
    }
}

impl GeneratorView {
    pub open spec fn wf(self) -> bool {
        match self {
            GeneratorView::Wave(w) => w.wf(),
            GeneratorView::Sample(s) => s.wf(),
        }
    }
}

/// The generator after tick `i` of a stream of `rate` samples per second.
pub open spec fn generator_after(g: GeneratorView, rate: int, i: int) -> GeneratorView {
    match g {
        GeneratorView::Wave(w) => GeneratorView::Wave(wave_after(w, rate, i)),
        GeneratorView::Sample(s) => GeneratorView::Sample(sample_after(s, i)),
    }
}

/// The generator's value at tick `i`.
pub open spec fn generator_value(g: GeneratorView, rate: int, i: int) -> int {
    match g {
        GeneratorView::Wave(w) => wave_value(w, rate, i),
        GeneratorView::Sample(s) => sample_value(s, i),
    }
}

/// The generator with its target frequency multiplied by `mult_ppm` millionths.
pub open spec fn generator_bent(g: GeneratorView, mult_ppm: int) -> GeneratorView {
    match g {
        GeneratorView::Wave(w) => GeneratorView::Wave(
            WaveView { target_freq: bent_frequency(w.target_freq, mult_ppm), ..w },
        ),
        GeneratorView::Sample(s) => GeneratorView::Sample(
            SampleView { target_freq: bent_frequency(s.target_freq, mult_ppm), ..s },
        ),
    }
}

impl Clone for PlaybackType {
    fn clone(&self) -> (c: Self)
        ensures
            c@ == self@,
    {
        match self {
            PlaybackType::Wave(w) => PlaybackType::Wave(*w),
            PlaybackType::Sample(s) => PlaybackType::Sample(s.clone()),
        }
    }
}

impl PlaybackType {
    /// The value at tick `i` of a stream of `sample_rate` samples per second.
    pub fn get_sample(&mut self, sample_rate: u32, i: u32) -> (v: i64)
        requires
            old(self)@.wf(),
            sample_rate >= 1,
        ensures
            final(self)@ == generator_after(old(self)@, sample_rate as int, i as int),
            v == generator_value(old(self)@, sample_rate as int, i as int),
            final(self)@.wf(),
            i32::MIN <= v <= i32::MAX,
    {
        match self {
            PlaybackType::Wave(w) => w.get_sample(sample_rate, i),
            PlaybackType::Sample(s) => s.get_sample(i),
        }
    }

    /// Sets down `mult_ppm` millionths of the target frequency as the new target.
    pub fn adjust_freq(&mut self, mult_ppm: i64)
        requires
            old(self)@.wf(),
        ensures
            final(self)@ == generator_bent(old(self)@, mult_ppm as int),
            final(self)@.wf(),
    {
        match self {
            PlaybackType::Wave(w) => w.adjust_freq(mult_ppm),
            PlaybackType::Sample(s) => s.adjust_freq(mult_ppm),
        }
    }
}

/// The most generators that one trigger may hold.
pub const MAX_GENERATORS: usize = 65_535;

/// The generators that sound together when one finger plays.
#[derive(Debug)]
pub struct TriggerDefinition {
    notes: Vec<PlaybackType>,
}

impl View for TriggerDefinition {
    type V = Seq<GeneratorView>;

    closed spec fn view(&self) -> Seq<GeneratorView> {
        Seq::new(self.notes@.len(), |k: int| self.notes@[k]@)
    }
}

/// There are no more than `MAX_GENERATORS` generators, each of them well formed.
pub open spec fn generators_wf(gens: Seq<GeneratorView>) -> bool {
    &&& gens.len() <= MAX_GENERATORS
    &&& forall|k: int| 0 <= k < gens.len() ==> (#[trigger] gens[k]).wf()
}

/// Each generator after tick `i`.
pub open spec fn generators_after(gens: Seq<GeneratorView>, rate: int, i: int) -> Seq<GeneratorView> {
    Seq::new(gens.len(), |k: int| generator_after(gens[k], rate, i))
}

/// The sum of the generators' values at tick `i`.
pub open spec fn generators_value(gens: Seq<GeneratorView>, rate: int, i: int) -> int
    decreases gens.len(),
{
    if gens.len() == 0 {
        0
    } else {
        generators_value(gens.drop_last(), rate, i) + generator_value(gens.last(), rate, i)
    }
}

/// Each generator with its target frequency multiplied by `mult_ppm` millionths.
pub open spec fn generators_bent(gens: Seq<GeneratorView>, mult_ppm: int) -> Seq<GeneratorView> {
    Seq::new(gens.len(), |k: int| generator_bent(gens[k], mult_ppm))
}

impl Clone for TriggerDefinition {
    fn clone(&self) -> (c: Self)
        ensures
            c@ == self@,
    {
        let mut notes: Vec<PlaybackType> = Vec::new();
        let mut k: usize = 0;
        while k < self.notes.len()
            invariant
                k <= self.notes@.len(),
                notes@.len() == k,
                forall|j: int| 0 <= j < k ==> notes@[j]@ == self.notes@[j]@,
            decreases self.notes@.len() - k,
        {
            notes.push(self.notes[k].clone());
            k += 1;
        }
        let c = TriggerDefinition { notes };
        assert(c@ =~= self@);
        c
    }
}

impl TriggerDefinition {
    /// A trigger made of the given generators.
    pub fn new(notes: Vec<PlaybackType>) -> (t: TriggerDefinition)
        requires
            notes@.len() <= MAX_GENERATORS,
            forall|k: int| 0 <= k < notes@.len() ==> (#[trigger] notes@[k])@.wf(),
        ensures
            t@ == Seq::new(notes@.len(), |k: int| notes@[k]@),
            generators_wf(t@),
    {
        TriggerDefinition { notes }
    }

    /// The number of generators.
    pub fn len(&self) -> (n: usize)
        ensures
            n == self@.len(),
    {
        self.notes.len()
    }

    /// The generator at index `k`.
    pub fn generator(&self, k: usize) -> (g: &PlaybackType)
        requires
            k < self@.len(),
        ensures
            g@ == self@[k as int],
    {
        &self.notes[k]
    }

    /// The sum of the generators' values at tick `i` of a stream of `sample_rate`
    /// samples per second.
    pub fn get_sample(&mut self, sample_rate: u32, i: u32) -> (v: i64)
        requires
            generators_wf(old(self)@),
            sample_rate >= 1,
        ensures
            final(self)@ == generators_after(old(self)@, sample_rate as int, i as int),
            v == generators_value(old(self)@, sample_rate as int, i as int),
            generators_wf(final(self)@),
            -(MAX_GENERATORS as int) * 0x8000_0000 <= v <= (MAX_GENERATORS as int) * 0x8000_0000,
    {
        let ghost before = self@;
        let ghost rate = sample_rate as int;
        let mut sum: i64 = 0;
        let mut k: usize = 0;
        assert(before.subrange(0, 0) =~= Seq::<GeneratorView>::empty());
        while k < self.notes.len()
            invariant
                sample_rate >= 1,
                rate == sample_rate as int,
                generators_wf(before),
                self.notes@.len() == before.len(),
                k <= self.notes@.len(),
                forall|j: int| 0 <= j < k ==> self.notes@[j]@ == generator_after(before[j], rate, i as int),
                forall|j: int| 0 <= j < k ==> (#[trigger] self.notes@[j])@.wf(),
                forall|j: int| k <= j < self.notes@.len() ==> (#[trigger] self.notes@[j])@ == before[j],
                sum == generators_value(before.subrange(0, k as int), rate, i as int),
                -(k as int) * 0x8000_0000 <= sum <= (k as int) * 0x8000_0000,
            decreases self.notes@.len() - k,
        {
            assert(before[k as int].wf());
            let v: i64 = self.notes[k].get_sample(sample_rate, i);
            proof {
                let upto = before.subrange(0, k + 1);
                assert(upto.drop_last() =~= before.subrange(0, k as int));
                assert(upto.last() == before[k as int]);
            }
            sum = sum + v;
            k += 1;
        }
        assert(before.subrange(0, before.len() as int) =~= before);
        assert(self@ =~= generators_after(before, rate, i as int));
        sum
    }

    /// Multiplies every generator's target frequency by `mult_ppm` millionths.
    pub fn adjust_freq(&mut self, mult_ppm: i64)
        requires
            generators_wf(old(self)@),
        ensures
            final(self)@ == generators_bent(old(self)@, mult_ppm as int),
            generators_wf(final(self)@),
    {
        let ghost before = self@;
        let mut k: usize = 0;
        while k < self.notes.len()
            invariant
                generators_wf(before),
                self.notes@.len() == before.len(),
                k <= self.notes@.len(),
                forall|j: int| 0 <= j < k ==> self.notes@[j]@ == generator_bent(before[j], mult_ppm as int),
                forall|j: int| 0 <= j < k ==> (#[trigger] self.notes@[j])@.wf(),
                forall|j: int| k <= j < self.notes@.len() ==> (#[trigger] self.notes@[j])@ == before[j],
            decreases self.notes@.len() - k,
        {
            assert(before[k as int].wf());
            self.notes[k].adjust_freq(mult_ppm);
            k += 1;
        }
        assert(self@ =~= generators_bent(before, mult_ppm as int));
    }
}

} // verus!
