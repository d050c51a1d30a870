use vstd::prelude::*;
use crate::frame::{finger_index, should_be_present, Finger, Frame};
use crate::note::{note_killed, note_moved, note_value, NoteState, NoteView};
use crate::state::{
    finger_handled, frame_played, fresh_note, held_from, held_voice, mix, tip_or_origin, voices_after,
    voices_value, with_released, without_dead, StateView,
};
use crate::units::OUTPUT_ONE;

verus! {

/// The number of voices that `finger` holds.
pub open spec fn live_count(voices: Seq<NoteView>, finger: Finger) -> nat
    decreases voices.len(),
{
    if voices.len() == 0 {
        0
    } else {
        live_count(voices.drop_last(), finger) + if voices.last().matches(finger) {
            1nat
        } else {
            0nat
        }
    }
}

/// No finger holds more than one voice.
pub open spec fn no_duplicates(voices: Seq<NoteView>) -> bool {
    forall|finger: Finger| #[trigger] live_count(voices, finger) <= 1
}

/// What `held_from` finds is the first voice from `from` on that the finger holds.
pub proof fn lemma_held_from(voices: Seq<NoteView>, finger: Finger, from: int)
    requires
        0 <= from <= voices.len(),
    ensures
        match held_from(voices, finger, from) {
            Some(k) => {
                &&& from <= k < voices.len()
                &&& voices[k].matches(finger)
                &&& forall|t: int| from <= t < k ==> !(#[trigger] voices[t]).matches(finger)
            },
            None => forall|t: int| from <= t < voices.len() ==> !(#[trigger] voices[t]).matches(finger),
        },
    decreases voices.len() - from,
{
    if from < voices.len() && !voices[from].matches(finger) {
        lemma_held_from(voices, finger, from + 1);
    }
}

/// Where the voice at `k` is the first that the finger holds, `held_voice` finds it.
pub proof fn lemma_held_is_first(voices: Seq<NoteView>, finger: Finger, k: int)
    requires
        0 <= k < voices.len(),
        voices[k].matches(finger),
        forall|t: int| 0 <= t < k ==> !(#[trigger] voices[t]).matches(finger),
    ensures
        held_voice(voices, finger) == Some(k),
{
    lemma_held_from(voices, finger, 0);
}

/// A finger holds no voice exactly where the count of its voices is zero.
pub proof fn lemma_count_zero(voices: Seq<NoteView>, finger: Finger)
    ensures
        live_count(voices, finger) == 0 <==> (forall|t: int|
            0 <= t < voices.len() ==> !(#[trigger] voices[t]).matches(finger)),
        live_count(voices, finger) == 0 <==> held_voice(voices, finger) is None,
    decreases voices.len(),
{
    lemma_held_from(voices, finger, 0);
    if voices.len() > 0 {
        let front = voices.drop_last();
        lemma_count_zero(front, finger);
        if live_count(voices, finger) == 0 {
            assert forall|t: int| 0 <= t < voices.len() implies !(#[trigger] voices[t]).matches(finger) by {
                if t < front.len() {
                    assert(front[t] == voices[t]);
                }
            }
        }
        if forall|t: int| 0 <= t < voices.len() ==> !(#[trigger] voices[t]).matches(finger) {
            assert forall|t: int| 0 <= t < front.len() implies !(#[trigger] front[t]).matches(finger) by {
                assert(front[t] == voices[t]);
            }
            assert(!voices[voices.len() - 1].matches(finger));
        }
    }
}

/// Taking the dead voices out changes no finger's count.
pub proof fn lemma_count_without_dead(voices: Seq<NoteView>, finger: Finger)
    ensures
        live_count(without_dead(voices), finger) == live_count(voices, finger),
    decreases voices.len(),
{
    if voices.len() > 0 {
        lemma_count_without_dead(voices.drop_last(), finger);
        if voices.last().state != NoteState::Dead {
            let kept = without_dead(voices.drop_last());
            assert(kept.push(voices.last()).drop_last() =~= kept);
        }
    }
}

/// A voice at the end of the pool adds one to its finger's count while it is held.
pub proof fn lemma_count_push(voices: Seq<NoteView>, note: NoteView, finger: Finger)
    ensures
        live_count(voices.push(note), finger) == live_count(voices, finger) + if note.matches(finger) {
            1nat
        } else {
            0nat
        },
{
    assert(voices.push(note).drop_last() =~= voices);
}

/// Putting another voice in the place of one changes the count by what the two differ in.
pub proof fn lemma_count_update(voices: Seq<NoteView>, k: int, note: NoteView, finger: Finger)
    requires
        0 <= k < voices.len(),
    ensures
        live_count(voices.update(k, note), finger) + (if voices[k].matches(finger) {
            1nat
        } else {
            0nat
        }) == live_count(voices, finger) + (if note.matches(finger) {
            1nat
        } else {
            0nat
        }),
    decreases voices.len(),
{
    let changed = voices.update(k, note);
    if k == voices.len() - 1 {
        assert(changed.drop_last() =~= voices.drop_last());
    } else {
        lemma_count_update(voices.drop_last(), k, note, finger);
        assert(changed.drop_last() =~= voices.drop_last().update(k, note));
    }
}

/// A sample adds to no finger's count: a voice that is held after it was held before.
pub proof fn lemma_count_after(voices: Seq<NoteView>, rate: int, i: int, finger: Finger)
    ensures
        live_count(voices_after(voices, rate, i), finger) <= live_count(voices, finger),
    decreases voices.len(),
{
    if voices.len() > 0 {
        lemma_count_after(voices.drop_last(), rate, i, finger);
        assert(voices_after(voices, rate, i).drop_last() =~= voices_after(voices.drop_last(), rate, i));
    }
}

/// A voice that is not dead stays in the pool when the dead ones are taken out.
pub proof fn lemma_kept(voices: Seq<NoteView>, k: int)
    requires
        0 <= k < voices.len(),
        voices[k].state != NoteState::Dead,
    ensures
        without_dead(voices).contains(voices[k]),
    decreases voices.len(),
{
    let kept = without_dead(voices.drop_last());
    if k == voices.len() - 1 {
        assert(kept.push(voices.last())[kept.len() as int] == voices[k]);
    } else {
        lemma_kept(voices.drop_last(), k);
        let at = choose|at: int| 0 <= at < kept.len() && kept[at] == voices[k];
        if voices.last().state != NoteState::Dead {
            assert(kept.push(voices.last())[at] == voices[k]);
        }
    }
}

/// Lifting a finger leaves at most one voice to each finger.
pub proof fn lemma_release_keeps_fingers_apart(voices: Seq<NoteView>, finger: Finger)
    requires
        no_duplicates(voices),
    ensures
        no_duplicates(with_released(voices, finger)),
{
    lemma_held_from(voices, finger, 0);
    assert forall|f: Finger| #[trigger] live_count(with_released(voices, finger), f) <= 1 by {
        assert(live_count(voices, f) <= 1);
        match held_voice(voices, finger) {
            Some(k) => {
                lemma_count_update(voices, k, note_killed(voices[k]), f);
            },
            None => {},
        }
    }
}

/// Reconciling a finger leaves at most one voice to each finger.
pub proof fn lemma_handling_keeps_fingers_apart(s: StateView, frame: &Frame, finger: Finger)
    requires
        no_duplicates(s.voices),
    ensures
        no_duplicates(finger_handled(s, frame, finger).voices),
{
    let after = finger_handled(s, frame, finger);
    let fing_index = finger_index(finger);
    let position = tip_or_origin(frame, fing_index);
    let present = should_be_present(frame, finger, fing_index);
    assert forall|f: Finger| #[trigger] live_count(after.voices, f) <= 1 by {
        assert(live_count(s.voices, f) <= 1);
        lemma_count_zero(s.voices, finger);
        lemma_held_from(s.voices, finger, 0);
        match held_voice(s.voices, finger) {
            None => {
                if present {
                    let note = fresh_note(finger, s.maps[s.selected_map].trigger_for(finger), position);
                    lemma_count_push(s.voices, note, f);
                    lemma_count_without_dead(s.voices.push(note), f);
                    assert(live_count(s.voices, finger) == 0);
                }
            },
            Some(k) => {
                if present {
                    lemma_count_update(s.voices, k, note_moved(s.voices[k], position), f);
                } else {
                    lemma_count_update(s.voices, k, note_killed(s.voices[k]), f);
                }
            },
        }
    }
}

/// A new frame leaves at most one voice to each finger.
pub proof fn lemma_frame_keeps_fingers_apart(s: StateView, frame: &Frame)
    requires
        no_duplicates(s.voices),
    ensures
        no_duplicates(frame_played(s, frame).voices),
{
    let chosen = StateView { selected_map: crate::frame::selection_after(frame.hands@, s.selected_map), ..s };
    let thumb = finger_handled(chosen, frame, Finger::Thumb);
    let index = finger_handled(thumb, frame, Finger::Index);
    let middle = finger_handled(index, frame, Finger::Middle);
    let ring = finger_handled(middle, frame, Finger::Ring);
    lemma_handling_keeps_fingers_apart(chosen, frame, Finger::Thumb);
    lemma_handling_keeps_fingers_apart(thumb, frame, Finger::Index);
    lemma_handling_keeps_fingers_apart(index, frame, Finger::Middle);
    lemma_handling_keeps_fingers_apart(middle, frame, Finger::Ring);
    lemma_handling_keeps_fingers_apart(ring, frame, Finger::Little);
}

/// A sample leaves at most one voice to each finger.
pub proof fn lemma_sample_keeps_fingers_apart(voices: Seq<NoteView>, rate: int, i: int)
    requires
        no_duplicates(voices),
    ensures
        no_duplicates(without_dead(voices_after(voices, rate, i))),
{
    assert forall|f: Finger| #[trigger] live_count(without_dead(voices_after(voices, rate, i)), f) <= 1 by {
        assert(live_count(voices, f) <= 1);
        lemma_count_after(voices, rate, i, f);
        lemma_count_without_dead(voices_after(voices, rate, i), f);
    }
}

/// No second trigger: a finger that holds a voice and is seen pressed again gets no
/// new voice. The pool keeps its length, and every finger its count.
pub proof fn lemma_held_finger_triggers_nothing(s: StateView, frame: &Frame, finger: Finger)
    requires
        held_voice(s.voices, finger) is Some,
        should_be_present(frame, finger, finger_index(finger)),
    ensures
        finger_handled(s, frame, finger).voices.len() == s.voices.len(),
        forall|f: Finger|
            live_count(finger_handled(s, frame, finger).voices, f) == #[trigger] live_count(s.voices, f),
{
    let k = held_voice(s.voices, finger).unwrap();
    let position = tip_or_origin(frame, finger_index(finger));
    lemma_held_from(s.voices, finger, 0);
    assert forall|f: Finger|
        live_count(finger_handled(s, frame, finger).voices, f) == #[trigger] live_count(s.voices, f) by {
        lemma_count_update(s.voices, k, note_moved(s.voices[k], position), f);
    }
}

/// Lifting a finger and pressing it again: the voice that the finger held is still
/// in the pool, dying; a new, rising voice stands at the end of the pool; and that
/// new voice is the one that the finger holds.
pub proof fn lemma_release_then_press(s: StateView, lifted: &Frame, pressed: &Frame, finger: Finger)
    requires
        no_duplicates(s.voices),
        held_voice(s.voices, finger) is Some,
        !should_be_present(lifted, finger, finger_index(finger)),
        should_be_present(pressed, finger, finger_index(finger)),
    ensures
        ({
            let old_voice = s.voices[held_voice(s.voices, finger).unwrap()];
            let after = finger_handled(finger_handled(s, lifted, finger), pressed, finger);
            &&& after.voices.len() >= 2
            &&& held_voice(after.voices, finger) == Some(after.voices.len() - 1)
            &&& after.voices.last() == fresh_note(
                finger,
                s.maps[s.selected_map].trigger_for(finger),
                tip_or_origin(pressed, finger_index(finger)),
            )
            &&& after.voices.drop_last().contains(note_killed(old_voice))
            &&& note_killed(old_voice).state == NoteState::Dying
            &&& live_count(after.voices, finger) == 1
        }),
{
    let k = held_voice(s.voices, finger).unwrap();
    lemma_held_from(s.voices, finger, 0);
    let released = finger_handled(s, lifted, finger);
    assert(released.voices == s.voices.update(k, note_killed(s.voices[k])));
    lemma_count_update(s.voices, k, note_killed(s.voices[k]), finger);
    lemma_count_zero(s.voices, finger);
    assert(live_count(s.voices, finger) <= 1);
    assert(live_count(released.voices, finger) == 0);
    lemma_count_zero(released.voices, finger);
    let note = fresh_note(
        finger,
        s.maps[s.selected_map].trigger_for(finger),
        tip_or_origin(pressed, finger_index(finger)),
    );
    let after = finger_handled(released, pressed, finger);
    let pushed = released.voices.push(note);
    assert(after.voices == without_dead(pushed));
    assert(pushed.drop_last() =~= released.voices);
    let kept = without_dead(released.voices);
    assert(after.voices == kept.push(note));
    assert(after.voices.drop_last() =~= kept);
    lemma_kept(released.voices, k);
    lemma_count_without_dead(released.voices, finger);
    lemma_count_zero(kept, finger);
    lemma_count_push(kept, note, finger);
    assert forall|t: int| 0 <= t < after.voices.len() - 1 implies !(#[trigger] after.voices[t]).matches(
        finger,
    ) by {
        assert(after.voices[t] == kept[t]);
    }
    lemma_held_is_first(after.voices, finger, after.voices.len() - 1);
}

/// The mixed output is the sum of the voices' outputs, held to full scale: no voice
/// gives exactly zero, one more voice adds its own output to the sum, and a sum
/// within full scale is given as it is.
pub proof fn lemma_output_is_the_held_sum(voices: Seq<NoteView>, note: NoteView, rate: int, i: int)
    ensures
        mix(voices_value(Seq::<NoteView>::empty(), rate, i)) == 0,
        voices_value(voices.push(note), rate, i) == voices_value(voices, rate, i) + note_value(note, rate, i),
        -OUTPUT_ONE <= mix(voices_value(voices, rate, i)) <= OUTPUT_ONE,
        -OUTPUT_ONE <= voices_value(voices, rate, i) <= OUTPUT_ONE ==> mix(voices_value(voices, rate, i))
            == voices_value(voices, rate, i),
        voices_value(voices, rate, i) > OUTPUT_ONE ==> mix(voices_value(voices, rate, i)) == OUTPUT_ONE,
        voices_value(voices, rate, i) < -OUTPUT_ONE ==> mix(voices_value(voices, rate, i)) == -OUTPUT_ONE,
{
    assert(voices.push(note).drop_last() =~= voices);
}

/// The sum of the outputs of two pools put together is the sum of their sums.
pub proof fn lemma_output_of_two_pools(first: Seq<NoteView>, second: Seq<NoteView>, rate: int, i: int)
    ensures
        voices_value(first + second, rate, i) == voices_value(first, rate, i) + voices_value(second, rate, i),
    decreases second.len(),
{
    if second.len() == 0 {
        assert(first + second =~= first);
    } else {
        lemma_output_of_two_pools(first, second.drop_last(), rate, i);
        assert((first + second).drop_last() =~= first + second.drop_last());
    }
}

} // verus!
