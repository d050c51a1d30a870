use vstd::prelude::*;
use crate::frame::{
    finger_index, finger_tip, finger_to_usize, is_finger_active, playing_tip, select_map,
    selection_after, should_be_present, Finger, Frame, Vector,
};
use crate::note::{note_after, note_killed, note_moved, note_value, Note, NoteState, NoteView};
use crate::notefreq::{A_4, B_4, C_4, C_5, D_4, D_5, E_4, F_4, G_4};
use crate::playback::{generators_wf, GeneratorView, PlaybackType, TriggerDefinition};
use crate::pool_laws::{
    lemma_frame_keeps_fingers_apart, lemma_handling_keeps_fingers_apart,
    lemma_release_keeps_fingers_apart, lemma_sample_keeps_fingers_apart, no_duplicates,
};
use crate::shape::NoteShape;
use crate::units::{clamp_int, OUTPUT_ONE, TARGET_VOLUME};
use crate::wave::{PlaybackWave, WaveView};

verus! {

/// What each of the five fingers plays.
#[derive(Debug)]
pub struct InstrumentMap {
    thumb: TriggerDefinition,
    index: TriggerDefinition,
    middle: TriggerDefinition,
    ring: TriggerDefinition,
    little: TriggerDefinition,
}

/// What an instrument map holds, as plain values.
pub struct InstrumentMapView {
    pub thumb: Seq<GeneratorView>,
    pub index: Seq<GeneratorView>,
    pub middle: Seq<GeneratorView>,
    pub ring: Seq<GeneratorView>,
    pub little: Seq<GeneratorView>,
}

impl View for InstrumentMap {
    type V = InstrumentMapView;

    closed spec fn view(&self) -> InstrumentMapView {
        InstrumentMapView {
            thumb: self.thumb@,
            index: self.index@,
            middle: self.middle@,
            ring: self.ring@,
            little: self.little@,
        }
    }
}

impl InstrumentMapView {
    /// The generators that `finger` plays.
    pub open spec fn trigger_for(self, finger: Finger) -> Seq<GeneratorView> {
        match finger {
            Finger::Thumb => self.thumb,
            Finger::Index => self.index,
            Finger::Middle => self.middle,
            Finger::Ring => self.ring,
            Finger::Little => self.little,
        }
    }

    pub open spec fn wf(self) -> bool {
        forall|finger: Finger| generators_wf(#[trigger] self.trigger_for(finger))
    }
}

impl InstrumentMap {
    /// A map that gives each finger its generators.
    pub fn new(
        thumb: TriggerDefinition,
        index: TriggerDefinition,
        middle: TriggerDefinition,
        ring: TriggerDefinition,
        little: TriggerDefinition,
    ) -> (m: InstrumentMap)
        requires
            generators_wf(thumb@),
            generators_wf(index@),
            generators_wf(middle@),
            generators_wf(ring@),
            generators_wf(little@),
        ensures
            m@ == (InstrumentMapView {
                thumb: thumb@,
                index: index@,
                middle: middle@,
                ring: ring@,
                little: little@,
            }),
            m@.wf(),
    {
        let m = InstrumentMap { thumb, index, middle, ring, little };
        assert forall|finger: Finger| generators_wf(#[trigger] m@.trigger_for(finger)) by {
            match finger {
                Finger::Thumb => {},
                Finger::Index => {},
                Finger::Middle => {},
                Finger::Ring => {},
                Finger::Little => {},
            }
        }
        m
    }

    /// The generators that `finger` plays.
    pub fn get(&self, finger: Finger) -> (t: &TriggerDefinition)
        ensures
            t@ == self@.trigger_for(finger),
    {
        match finger {
            Finger::Thumb => &self.thumb,
            Finger::Index => &self.index,
            Finger::Middle => &self.middle,
            Finger::Ring => &self.ring,
            Finger::Little => &self.little,
        }
    }
}

/// One squared-sine oscillator of `freq` millihertz.
pub open spec fn tone_view(freq: int) -> GeneratorView {
    GeneratorView::Wave(
        WaveView { freq, target_freq: freq, shape: NoteShape::SineSquared, phase: 0 },
    )
}

/// The map of single tones: C4, D4, E4, F4 and G4, thumb to little finger.
pub open spec fn single_tones() -> InstrumentMapView {
    InstrumentMapView {
        thumb: seq![tone_view(C_4 as int)],
        index: seq![tone_view(D_4 as int)],
        middle: seq![tone_view(E_4 as int)],
        ring: seq![tone_view(F_4 as int)],
        little: seq![tone_view(G_4 as int)],
    }
}

/// The map of triads: on each finger its single tone with the two thirds above it.
pub open spec fn triads() -> InstrumentMapView {
    InstrumentMapView {
        thumb: seq![tone_view(C_4 as int), tone_view(E_4 as int), tone_view(G_4 as int)],
        index: seq![tone_view(D_4 as int), tone_view(F_4 as int), tone_view(A_4 as int)],
        middle: seq![tone_view(E_4 as int), tone_view(G_4 as int), tone_view(B_4 as int)],
        ring: seq![tone_view(F_4 as int), tone_view(A_4 as int), tone_view(C_5 as int)],
        little: seq![tone_view(G_4 as int), tone_view(B_4 as int), tone_view(D_5 as int)],
    }
}

fn tone(freq: u32) -> (t: TriggerDefinition)
    requires
        freq >= 1,
    ensures
        t@ == seq![tone_view(freq as int)],
        generators_wf(t@),
{
    let mut notes: Vec<PlaybackType> = Vec::new();
    notes.push(PlaybackType::Wave(PlaybackWave::new(freq, NoteShape::SineSquared)));
    let t = TriggerDefinition::new(notes);
    assert(t@ =~= seq![tone_view(freq as int)]);
    t
}

fn triad(low: u32, mid: u32, high: u32) -> (t: TriggerDefinition)
    requires
        low >= 1,
        mid >= 1,
        high >= 1,
    ensures
        t@ == seq![tone_view(low as int), tone_view(mid as int), tone_view(high as int)],
        generators_wf(t@),
{
    let mut notes: Vec<PlaybackType> = Vec::new();
    notes.push(PlaybackType::Wave(PlaybackWave::new(low, NoteShape::SineSquared)));
    notes.push(PlaybackType::Wave(PlaybackWave::new(mid, NoteShape::SineSquared)));
    notes.push(PlaybackType::Wave(PlaybackWave::new(high, NoteShape::SineSquared)));
    let t = TriggerDefinition::new(notes);
    assert(t@ =~= seq![tone_view(low as int), tone_view(mid as int), tone_view(high as int)]);
    t
}

/// The engine's state: the instrument maps, the one that is selected, and the pool of
/// voices that sound.
#[derive(Debug)]
pub struct State {
    selected_map: usize,
    freq_map: Vec<InstrumentMap>,
    active_playback: Vec<Note>,
    sample_rate: u32,
    shape: NoteShape,
}

/// What the state holds, as plain values.
pub struct StateView {
    pub selected_map: int,
    pub maps: Seq<InstrumentMapView>,
    pub voices: Seq<NoteView>,
    pub sample_rate: int,
    pub shape: NoteShape,
}

/// The voices in a pool, as plain values.
pub open spec fn voices_of(notes: Seq<Note>) -> Seq<NoteView> {
    Seq::new(notes.len(), |k: int| notes[k]@)
}

/// The maps in a bank, as plain values.
pub open spec fn maps_of(maps: Seq<InstrumentMap>) -> Seq<InstrumentMapView> {
    Seq::new(maps.len(), |k: int| maps[k]@)
}

impl View for State {
    type V = StateView;

    closed spec fn view(&self) -> StateView {
        StateView {
            selected_map: self.selected_map as int,
            maps: maps_of(self.freq_map@),
            voices: voices_of(self.active_playback@),
            sample_rate: self.sample_rate as int,
            shape: self.shape,
        }
    }
}

/// Every voice is well formed.
pub open spec fn voices_wf(voices: Seq<NoteView>) -> bool {
    forall|k: int| 0 <= k < voices.len() ==> (#[trigger] voices[k]).wf()
}

impl StateView {
    /// There are three maps, one of them selected, and every map and voice is well
    /// formed.
    pub open spec fn wf(self) -> bool {
        &&& 1 <= self.sample_rate <= u32::MAX
        &&& self.maps.len() == 3
        &&& 0 <= self.selected_map < 3
        &&& forall|m: int| 0 <= m < 3 ==> (#[trigger] self.maps[m]).wf()
        &&& voices_wf(self.voices)
    }
}

/// The voices that are not dead, in their order.
pub open spec fn without_dead(voices: Seq<NoteView>) -> Seq<NoteView>
    decreases voices.len(),
{
    if voices.len() == 0 {
        voices
    } else if voices.last().state == NoteState::Dead {
        without_dead(voices.drop_last())
    } else {
        without_dead(voices.drop_last()).push(voices.last())
    }
}

/// Each voice after tick `i`.
pub open spec fn voices_after(voices: Seq<NoteView>, rate: int, i: int) -> Seq<NoteView> {
    Seq::new(voices.len(), |k: int| note_after(voices[k], rate, i))
}

/// The sum of the voices' outputs at tick `i`.
pub open spec fn voices_value(voices: Seq<NoteView>, rate: int, i: int) -> int
    decreases voices.len(),
{
    if voices.len() == 0 {
        0
    } else {
        voices_value(voices.drop_last(), rate, i) + note_value(voices.last(), rate, i)
    }
}

/// A sum of outputs, held to full scale.
pub open spec fn mix(total: int) -> int {
    clamp_int(total, -OUTPUT_ONE, OUTPUT_ONE as int)
}

/// The index of the first voice from `from` on that `finger` holds.
pub open spec fn held_from(voices: Seq<NoteView>, finger: Finger, from: int) -> Option<int>
    decreases voices.len() - from,
{
    if from < 0 || from >= voices.len() {
        None
    } else if voices[from].matches(finger) {
        Some(from)
    } else {
        held_from(voices, finger, from + 1)
    }
}

/// The index of the first voice that `finger` holds, where there is one.
pub open spec fn held_voice(voices: Seq<NoteView>, finger: Finger) -> Option<int> {
    held_from(voices, finger, 0)
}

/// A voice as it is when `finger` triggers it.
pub open spec fn fresh_note(finger: Finger, generators: Seq<GeneratorView>, position: Vector) -> NoteView {
    NoteView {
        finger,
        state: NoteState::Rising,
        volume: 0,
        target_volume: TARGET_VOLUME as int,
        position,
        generators,
    }
}

/// The pool after a voice is added: the voice goes to the end, and then every dead
/// voice leaves.
pub open spec fn with_added(voices: Seq<NoteView>, note: NoteView) -> Seq<NoteView> {
    without_dead(voices.push(note))
}

/// The pool after `finger` is lifted: the voice that it holds, if any, is dying.
pub open spec fn with_released(voices: Seq<NoteView>, finger: Finger) -> Seq<NoteView> {
    match held_voice(voices, finger) {
        Some(k) => voices.update(k, note_killed(voices[k])),
        None => voices,
    }
}

/// Takes the dead voices out of the pool, keeping the order of the others.
fn prune_dead(pool: &mut Vec<Note>)
    ensures
        voices_of(final(pool)@) == without_dead(voices_of(old(pool)@)),
        voices_wf(voices_of(old(pool)@)) ==> voices_wf(voices_of(final(pool)@)),
{
    let ghost before = pool@;
    let ghost mut j: int = 0;
    let mut k: usize = 0;
    assert(voices_of(pool@.subrange(0, 0)) =~= without_dead(voices_of(before.subrange(0, 0))));
    while k < pool.len()
        invariant
            0 <= j <= before.len(),
            k <= pool@.len(),
            pool@.len() - k == before.len() - j,
            voices_of(pool@.subrange(0, k as int)) == without_dead(voices_of(before.subrange(0, j))),
            forall|t: int| k <= t < pool@.len() ==> (#[trigger] pool@[t]) == before[t + j - k],
            voices_wf(voices_of(before)) ==> voices_wf(voices_of(pool@)),
        decreases pool@.len() - k,
    {
        let ghost current = pool@;
        assert(current[k as int] == before[j]);
        proof {
            let upto = voices_of(before.subrange(0, j + 1));
            assert(upto.drop_last() =~= voices_of(before.subrange(0, j)));
            assert(upto.last() == before[j]@);
        }
        if pool[k].should_retain() {
            proof {
                assert(voices_of(current.subrange(0, k + 1)) =~= voices_of(
                    current.subrange(0, k as int),
                ).push(current[k as int]@));
            }
            k += 1;
        } else {
            let _gone = pool.remove(k);
            proof {
                assert(pool@.subrange(0, k as int) =~= current.subrange(0, k as int));
                assert forall|t: int| k <= t < pool@.len() implies (#[trigger] pool@[t]) == before[t + j + 1
                    - k] by {
                    assert(pool@[t] == current[t + 1]);
                }
                if voices_wf(voices_of(before)) {
                    assert forall|t: int| 0 <= t < pool@.len() implies (#[trigger] voices_of(pool@)[t]).wf() by {
                        if t < k {
                            assert(voices_of(current)[t].wf());
                        } else {
                            assert(voices_of(current)[t + 1].wf());
                        }
                    }
                }
            }
        }
        proof {
            j = j + 1;
        }
    }
    assert(pool@.subrange(0, pool@.len() as int) =~= pool@);
    assert(before.subrange(0, before.len() as int) =~= before);
}

impl State {
    /// A state for a stream of `sample_rate` samples per second, with no voice
    /// sounding. Map 0 holds the single tones, map 1 the triads, and map 2, which is
    /// selected, is `instruments`.
    pub fn new(sample_rate: u32, instruments: InstrumentMap) -> (s: State)
        requires
            sample_rate >= 1,
            instruments@.wf(),
        ensures
            s@ == (StateView {
                selected_map: 2,
                maps: seq![single_tones(), triads(), instruments@],
                voices: Seq::empty(),
                sample_rate: sample_rate as int,
                shape: NoteShape::SineSquared,
            }),
            s@.wf(),
            no_duplicates(s@.voices),
    {
        let default_map = InstrumentMap::new(tone(C_4), tone(D_4), tone(E_4), tone(F_4), tone(G_4));
        let second_map = InstrumentMap::new(
            triad(C_4, E_4, G_4),
            triad(D_4, F_4, A_4),
            triad(E_4, G_4, B_4),
            triad(F_4, A_4, C_5),
            triad(G_4, B_4, D_5),
        );
        let mut freq_map: Vec<InstrumentMap> = Vec::new();
        freq_map.push(default_map);
        freq_map.push(second_map);
        freq_map.push(instruments);
        let s = State {
            selected_map: 2,
            freq_map,
            active_playback: Vec::new(),
            sample_rate,
            shape: NoteShape::SineSquared,
        };
        assert(s@.maps =~= seq![single_tones(), triads(), instruments@]);
        assert(s@.voices =~= Seq::empty());
        s
    }

    /// The samples per second of the stream that the state renders.
    pub fn sample_rate(&self) -> (r: u32)
        ensures
            r == self@.sample_rate,
    {
        self.sample_rate
    }

    /// The waveform that was last asked for.
    pub fn shape(&self) -> (s: NoteShape)
        ensures
            s == self@.shape,
    {
        self.shape
    }

    /// Takes note of the waveform that is asked for.
    pub fn set_shape(&mut self, shape: NoteShape)
        ensures
            final(self)@ == (StateView { shape, ..old(self)@ }),
    {
        self.shape = shape;
    }

    /// The index of the selected map.
    pub fn selected_map(&self) -> (m: usize)
        ensures
            m == self@.selected_map,
    {
        self.selected_map
    }

    /// The number of voices in the pool.
    pub fn voice_count(&self) -> (n: usize)
        ensures
            n == self@.voices.len(),
    {
        self.active_playback.len()
    }

    /// The voice at index `k` of the pool.
    pub fn voice(&self, k: usize) -> (n: &Note)
        requires
            k < self@.voices.len(),
        ensures
            n@ == self@.voices[k as int],
    {
        &self.active_playback[k]
    }

    /// Moves every voice on by one sample and gives the mixed output at tick `i`:
    /// the sum of the voices' outputs, held to full scale (`OUTPUT_ONE`). The voices that are dead
    /// after the tick leave the pool.
    pub fn get_sample(&mut self, i: u32) -> (v: i64)
        requires
            old(self)@.wf(),
        ensures
            final(self)@ == (StateView {
                voices: without_dead(voices_after(old(self)@.voices, old(self)@.sample_rate, i as int)),
                ..old(self)@
            }),
            v == mix(voices_value(old(self)@.voices, old(self)@.sample_rate, i as int)),
            final(self)@.wf(),
            -OUTPUT_ONE <= v <= OUTPUT_ONE,
            old(self)@.voices.len() == 0 ==> v == 0,
            no_duplicates(old(self)@.voices) ==> no_duplicates(final(self)@.voices),
    {
        let ghost before = self@.voices;
        let ghost rate = self.sample_rate as int;
        proof {
            if no_duplicates(before) {
                lemma_sample_keeps_fingers_apart(before, rate, i as int);
            }
        }
        let sample_rate: u32 = self.sample_rate;
        let mut total: i128 = 0;
        let mut k: usize = 0;
        assert(before.subrange(0, 0) =~= Seq::<NoteView>::empty());
        while k < self.active_playback.len()
            invariant
                sample_rate >= 1,
                rate == sample_rate as int,
                voices_wf(before),
                self.selected_map == old(self).selected_map,
                self.freq_map == old(self).freq_map,
                self.sample_rate == old(self).sample_rate,
                self.shape == old(self).shape,
                self.active_playback@.len() == before.len(),
                k <= before.len(),
                forall|j: int| 0 <= j < k ==> self.active_playback@[j]@ == note_after(before[j], rate, i as int),
                forall|j: int| 0 <= j < k ==> (#[trigger] self.active_playback@[j])@.wf(),
                forall|j: int| k <= j < before.len() ==> (#[trigger] self.active_playback@[j])@ == before[j],
                total == voices_value(before.subrange(0, k as int), rate, i as int),
                -(k as int) * 14073534087168000 <= total <= (k as int) * 14073534087168000,
            decreases before.len() - k,
        {
            assert(before[k as int].wf());
            let v: i64 = self.active_playback[k].get_sample(sample_rate, i);
            proof {
                let upto = before.subrange(0, k + 1);
                assert(upto.drop_last() =~= before.subrange(0, k as int));
                assert(upto.last() == before[k as int]);
            }
            total = total + (v as i128);
            k += 1;
        }
        assert(before.subrange(0, before.len() as int) =~= before);
        assert(voices_of(self.active_playback@) =~= voices_after(before, rate, i as int));
        assert(voices_wf(voices_of(self.active_playback@)));
        prune_dead(&mut self.active_playback);
        if total > OUTPUT_ONE as i128 {
            OUTPUT_ONE
        } else if total < -(OUTPUT_ONE as i128) {
            -OUTPUT_ONE
        } else {
            total as i64
        }
    }

    /// Adds a voice at the end of the pool, and then takes the dead voices out.
    pub fn add_note(&mut self, note: Note)
        requires
            old(self)@.wf(),
            note@.wf(),
        ensures
            final(self)@ == (StateView { voices: with_added(old(self)@.voices, note@), ..old(self)@ }),
            final(self)@.wf(),
    {
        let ghost before = self@.voices;
        self.active_playback.push(note);
        assert(voices_of(self.active_playback@) =~= before.push(note@));
        prune_dead(&mut self.active_playback);
    }

    /// The index of the voice that `finger` holds: the first voice of that finger
    /// that is neither dying nor dead.
    pub fn has_note(&self, finger: Finger) -> (index: Option<usize>)
        ensures
            match index {
                Some(k) => held_voice(self@.voices, finger) == Some(k as int) && k < self@.voices.len(),
                None => held_voice(self@.voices, finger) is None,
            },
    {
        let mut k: usize = 0;
        while k < self.active_playback.len()
            invariant
                k <= self.active_playback@.len(),
                held_voice(self@.voices, finger) == held_from(self@.voices, finger, k as int),
            decreases self.active_playback@.len() - k,
        {
            if self.active_playback[k].matches(finger) {
                return Some(k);
            }
            k += 1;
        }
        None
    }

    /// Lets the voice that `finger` holds die away. The voice stays in the pool
    /// until it is dead.
    pub fn remove_note(&mut self, finger: Finger)
        requires
            old(self)@.wf(),
        ensures
            final(self)@ == (StateView { voices: with_released(old(self)@.voices, finger), ..old(self)@ }),
            final(self)@.wf(),
            no_duplicates(old(self)@.voices) ==> no_duplicates(final(self)@.voices),
    {
        let ghost before = self@.voices;
        proof {
            if no_duplicates(before) {
                lemma_release_keeps_fingers_apart(before, finger);
            }
        }
        let index = self.has_note(finger);
        match index {
            Some(k) => {
                assert(before[k as int].wf());
                self.active_playback[k].kill();
                assert(voices_of(self.active_playback@) =~= before.update(k as int, note_killed(before[k as int])));
            },
            None => {},
        }
    }
}

/// The tip of the playing hand's finger at `fing_index`; the origin where the hand
/// reports no such finger.
pub open spec fn tip_or_origin(frame: &Frame, fing_index: int) -> Vector {
    match playing_tip(frame, fing_index) {
        Some(position) => position,
        None => Vector { x: 0, y: 0, z: 0 },
    }
}

/// The state after one finger is reconciled with a frame. A finger that is seen
/// pressed and holds no voice triggers one, from the selected map. A finger that
/// holds a voice and is seen lifted lets it die away. A finger that holds a voice and
/// is still pressed hands its tip position on to the voice. Else nothing changes.
pub open spec fn finger_handled(s: StateView, frame: &Frame, finger: Finger) -> StateView {
    let fing_index = finger_index(finger);
    let position = tip_or_origin(frame, fing_index);
    let present = should_be_present(frame, finger, fing_index);
    match held_voice(s.voices, finger) {
        None => {
            if present {
                let generators = s.maps[s.selected_map].trigger_for(finger);
                StateView { voices: with_added(s.voices, fresh_note(finger, generators, position)), ..s }
            } else {
                s
            }
        },
        Some(k) => {
            if present {
                StateView { voices: s.voices.update(k, note_moved(s.voices[k], position)), ..s }
            } else {
                StateView { voices: with_released(s.voices, finger), ..s }
            }
        },
    }
}

/// The state after a new frame: first the left hand's choice of map is taken up,
/// then the five fingers are reconciled, thumb first.
pub open spec fn frame_played(s: StateView, frame: &Frame) -> StateView {
    let chosen = StateView { selected_map: selection_after(frame.hands@, s.selected_map), ..s };
    let thumb = finger_handled(chosen, frame, Finger::Thumb);
    let index = finger_handled(thumb, frame, Finger::Index);
    let middle = finger_handled(index, frame, Finger::Middle);
    let ring = finger_handled(middle, frame, Finger::Ring);
    finger_handled(ring, frame, Finger::Little)
}

/// Reconciles one finger with a frame.
pub fn handle_finger(frame: &Frame, finger: Finger, notes: &mut State)
    requires
        old(notes)@.wf(),
    ensures
        final(notes)@ == finger_handled(old(notes)@, frame, finger),
        final(notes)@.wf(),
        no_duplicates(old(notes)@.voices) ==> no_duplicates(final(notes)@.voices),
{
    let ghost before = notes@;
    proof {
        if no_duplicates(before.voices) {
            lemma_handling_keeps_fingers_apart(before, frame, finger);
        }
    }
    let fing_index: usize = finger_to_usize(finger);
    let has_note = notes.has_note(finger);
    let should_be_present = is_finger_active(frame, finger, fing_index);
    match has_note {
        None => {
            if should_be_present {
                let position = finger_tip(frame, fing_index).unwrap();
                assert(before.maps[before.selected_map].wf());
                let trigger = notes.freq_map[notes.selected_map].get(finger).clone();
                notes.add_note(Note::new(finger, trigger, position));
            }
        },
        Some(k) => {
            if should_be_present {
                let position = finger_tip(frame, fing_index).unwrap();
                assert(before.voices[k as int].wf());
                notes.active_playback[k].update_position(position);
                assert(voices_of(notes.active_playback@) =~= before.voices.update(
                    k as int,
                    note_moved(before.voices[k as int], position),
                ));
            } else {
                notes.remove_note(finger);
            }
        },
    }
}

/// Takes up a new frame: the choice of map, then each finger.
pub fn read_and_play(frame: &Frame, notes: &mut State)
    requires
        old(notes)@.wf(),
    ensures
        final(notes)@ == frame_played(old(notes)@, frame),
        final(notes)@.wf(),
        no_duplicates(old(notes)@.voices) ==> no_duplicates(final(notes)@.voices),
{
    proof {
        if no_duplicates(notes@.voices) {
            lemma_frame_keeps_fingers_apart(notes@, frame);
        }
    }
    notes.selected_map = select_map(frame, notes.selected_map);
    handle_finger(frame, Finger::Thumb, notes);
    handle_finger(frame, Finger::Index, notes);
    handle_finger(frame, Finger::Middle, notes);
    handle_finger(frame, Finger::Ring, notes);
    handle_finger(frame, Finger::Little, notes);
}

} // verus!
