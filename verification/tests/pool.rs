use leap_synth::frame::{Finger, FingerPose, Frame, Hand, Vector};
use leap_synth::note::{Note, NoteState};
use leap_synth::playback::{PlaybackType, TriggerDefinition};
use leap_synth::sample::PlaybackSample;
use leap_synth::shape::NoteShape;
use leap_synth::state::{handle_finger, read_and_play, InstrumentMap, State};
use leap_synth::wave::PlaybackWave;

const HIGH: i32 = 300_000;
const LOW: i32 = 100_000;

fn level(value: i32) -> TriggerDefinition {
    TriggerDefinition::new(vec![PlaybackType::Sample(PlaybackSample::new(vec![value, value], 1))])
}

fn levels() -> InstrumentMap {
    InstrumentMap::new(level(1_000_000), level(-1_000_000), level(500_000), level(250_000), level(100))
}

fn right_hand(timestamp: i32, heights: [i32; 5], x: i32) -> Frame {
    let fingers = heights.iter().map(|y| FingerPose { tip_position: Vector { x, y: *y, z: 0 } }).collect();
    Frame { timestamp, hands: vec![Hand { is_left: false, fingers }] }
}

fn voice(finger: Finger, value: i32) -> Note {
    Note::new(finger, level(value), Vector { x: 0, y: 0, z: 0 })
}

fn first_target(note: &Note) -> u32 {
    match note.trigger().generator(0) {
        PlaybackType::Wave(w) => w.target_freq(),
        PlaybackType::Sample(s) => s.target_freq(),
    }
}

#[test]
fn a_new_state_is_silent_and_has_the_third_map_selected() {
    let mut s = State::new(44_100, levels());
    assert_eq!(s.sample_rate(), 44_100);
    assert_eq!(s.selected_map(), 2);
    assert_eq!(s.shape(), NoteShape::SineSquared);
    assert_eq!(s.voice_count(), 0);
    assert_eq!(s.get_sample(0), 0);
    assert_eq!(s.get_sample(1), 0);
    assert_eq!(s.has_note(Finger::Thumb), None);
}

#[test]
fn a_voice_is_found_by_its_finger_while_it_is_held() {
    let mut s = State::new(44_100, levels());
    s.add_note(voice(Finger::Ring, 1));
    s.add_note(voice(Finger::Thumb, 2));
    assert_eq!(s.voice_count(), 2);
    assert_eq!(s.has_note(Finger::Ring), Some(0));
    assert_eq!(s.has_note(Finger::Thumb), Some(1));
    assert_eq!(s.has_note(Finger::Index), None);
}

#[test]
fn a_released_voice_stays_in_the_pool_until_it_is_dead() {
    let mut s = State::new(44_100, levels());
    s.add_note(voice(Finger::Ring, 1));
    for i in 0..10 {
        s.get_sample(i);
    }
    s.remove_note(Finger::Ring);
    assert_eq!(s.voice_count(), 1);
    assert_eq!(s.voice(0).state(), NoteState::Dying);
    assert_eq!(s.voice(0).volume(), 2_000);
    assert_eq!(s.has_note(Finger::Ring), None);
    s.get_sample(10);
    assert_eq!(s.voice_count(), 1);
    assert_eq!(s.voice(0).volume(), 1_998);
}

#[test]
fn releasing_a_finger_that_holds_nothing_changes_nothing() {
    let mut s = State::new(44_100, levels());
    s.add_note(voice(Finger::Ring, 1));
    s.remove_note(Finger::Thumb);
    assert_eq!(s.voice_count(), 1);
    assert_eq!(s.voice(0).state(), NoteState::Rising);
}

#[test]
fn adding_a_voice_takes_the_dead_ones_out() {
    let mut s = State::new(44_100, levels());
    let mut dead = voice(Finger::Thumb, 1);
    dead.kill();
    dead.get_sample(44_100, 0);
    assert_eq!(dead.state(), NoteState::Dead);
    let mut dying = voice(Finger::Index, 2);
    dying.get_sample(44_100, 0);
    dying.get_sample(44_100, 1);
    dying.kill();
    s.add_note(dying);
    s.add_note(dead);
    assert_eq!(s.voice_count(), 1);
    assert_eq!(s.voice(0).finger(), Finger::Index);
    s.add_note(voice(Finger::Middle, 3));
    assert_eq!(s.voice_count(), 2);
    assert_eq!(s.voice(0).finger(), Finger::Index);
    assert_eq!(s.voice(1).finger(), Finger::Middle);
}

#[test]
fn a_sample_takes_the_dead_voices_out() {
    let mut s = State::new(44_100, levels());
    s.add_note(voice(Finger::Thumb, 1));
    s.add_note(voice(Finger::Index, 2));
    s.remove_note(Finger::Thumb);
    assert_eq!(s.voice_count(), 2);
    s.get_sample(0);
    assert_eq!(s.voice_count(), 1);
    assert_eq!(s.voice(0).finger(), Finger::Index);
    assert_eq!(s.voice(0).volume(), 200);
}

#[test]
fn a_pressed_finger_triggers_a_voice_from_the_selected_map() {
    let mut s = State::new(44_100, levels());
    let frame = right_hand(1, [HIGH, HIGH, LOW, HIGH, HIGH], 12_000);
    handle_finger(&frame, Finger::Middle, &mut s);
    assert_eq!(s.voice_count(), 1);
    let n = s.voice(0);
    assert_eq!(n.finger(), Finger::Middle);
    assert_eq!(n.state(), NoteState::Rising);
    assert_eq!(n.volume(), 0);
    assert_eq!(n.target_volume(), 20_000_000);
    assert_eq!(n.position(), Vector { x: 12_000, y: LOW, z: 0 });
    for i in 0..100_000 {
        s.get_sample(i);
    }
    // the middle finger's generator stands at half of full scale: 0.2 * 0.5
    assert_eq!(s.get_sample(100_000), 10_000_000);
}

#[test]
fn a_finger_that_is_up_triggers_nothing() {
    let mut s = State::new(44_100, levels());
    let frame = right_hand(1, [HIGH, HIGH, LOW, HIGH, HIGH], 0);
    handle_finger(&frame, Finger::Index, &mut s);
    assert_eq!(s.voice_count(), 0);
}

#[test]
fn a_held_finger_is_not_triggered_again() {
    let mut s = State::new(44_100, levels());
    read_and_play(&right_hand(1, [HIGH, LOW, HIGH, HIGH, HIGH], 0), &mut s);
    assert_eq!(s.voice_count(), 1);
    for i in 0..50 {
        s.get_sample(i);
    }
    read_and_play(&right_hand(2, [HIGH, LOW, HIGH, HIGH, HIGH], 0), &mut s);
    assert_eq!(s.voice_count(), 1);
    assert_eq!(s.voice(0).volume(), 10_000);
    assert_eq!(s.voice(0).state(), NoteState::Rising);
    for i in 50..100_050 {
        s.get_sample(i);
    }
    assert_eq!(s.voice(0).state(), NoteState::Steady);
    read_and_play(&right_hand(3, [HIGH, LOW, HIGH, HIGH, HIGH], 0), &mut s);
    assert_eq!(s.voice_count(), 1);
    assert_eq!(s.has_note(Finger::Index), Some(0));
}

#[test]
fn a_lifted_finger_releases_its_voice() {
    let mut s = State::new(44_100, levels());
    read_and_play(&right_hand(1, [HIGH, LOW, HIGH, HIGH, HIGH], 0), &mut s);
    s.get_sample(0);
    read_and_play(&right_hand(2, [HIGH, HIGH, HIGH, HIGH, HIGH], 0), &mut s);
    assert_eq!(s.voice_count(), 1);
    assert_eq!(s.voice(0).state(), NoteState::Dying);
    assert_eq!(s.has_note(Finger::Index), None);
}

#[test]
fn lifting_and_pressing_again_leaves_a_dying_and_a_rising_voice() {
    let mut s = State::new(44_100, levels());
    read_and_play(&right_hand(1, [HIGH, LOW, HIGH, HIGH, HIGH], 0), &mut s);
    for i in 0..1000 {
        s.get_sample(i);
    }
    read_and_play(&right_hand(2, [HIGH, HIGH, HIGH, HIGH, HIGH], 0), &mut s);
    read_and_play(&right_hand(3, [HIGH, LOW, HIGH, HIGH, HIGH], 0), &mut s);
    assert_eq!(s.voice_count(), 2);
    assert_eq!(s.voice(0).finger(), Finger::Index);
    assert_eq!(s.voice(0).state(), NoteState::Dying);
    assert_eq!(s.voice(0).volume(), 200_000);
    assert_eq!(s.voice(1).finger(), Finger::Index);
    assert_eq!(s.voice(1).state(), NoteState::Rising);
    assert_eq!(s.voice(1).volume(), 0);
    assert_eq!(s.has_note(Finger::Index), Some(1));
}

#[test]
fn a_held_finger_that_moves_sideways_bends_its_voice() {
    let mut s = State::new(44_100, levels());
    read_and_play(&right_hand(1, [LOW, HIGH, HIGH, HIGH, HIGH], 0), &mut s);
    assert_eq!(first_target(s.voice(0)), 1);
    let wave = PlaybackWave::new(440_000, NoteShape::Sine);
    let tone = || TriggerDefinition::new(vec![PlaybackType::Wave(wave)]);
    let mut t = State::new(44_100, InstrumentMap::new(tone(), tone(), tone(), tone(), tone()));
    read_and_play(&right_hand(1, [LOW, HIGH, HIGH, HIGH, HIGH], 0), &mut t);
    read_and_play(&right_hand(2, [LOW, HIGH, HIGH, HIGH, HIGH], 10_000), &mut t);
    assert_eq!(t.voice_count(), 1);
    assert_eq!(first_target(t.voice(0)), 444_400);
    assert_eq!(t.voice(0).position(), Vector { x: 10_000, y: LOW, z: 0 });
}

#[test]
fn a_change_of_map_leaves_the_sounding_voices_alone() {
    let mut s = State::new(44_100, levels());
    read_and_play(&right_hand(1, [HIGH, HIGH, HIGH, HIGH, LOW], 0), &mut s);
    assert_eq!(first_target(s.voice(0)), 1);
    let left = Hand {
        is_left: true,
        fingers: [HIGH, HIGH, HIGH, HIGH, LOW]
            .iter()
            .map(|y| FingerPose { tip_position: Vector { x: 0, y: *y, z: 0 } })
            .collect(),
    };
    let mut both = right_hand(2, [LOW, HIGH, HIGH, HIGH, LOW], 0);
    both.hands.push(left);
    read_and_play(&both, &mut s);
    assert_eq!(s.selected_map(), 0);
    assert_eq!(s.voice_count(), 2);
    // the little finger's voice keeps its recording; the thumb's is the tone C4
    assert_eq!(s.voice(0).finger(), Finger::Little);
    assert_eq!(first_target(s.voice(0)), 1);
    assert_eq!(s.voice(1).finger(), Finger::Thumb);
    assert_eq!(first_target(s.voice(1)), 261_626);
    assert_eq!(s.voice(1).trigger().len(), 1);
}

#[test]
fn the_second_map_holds_triads() {
    let mut s = State::new(44_100, levels());
    let left = Hand {
        is_left: true,
        fingers: [HIGH, HIGH, HIGH, LOW, HIGH]
            .iter()
            .map(|y| FingerPose { tip_position: Vector { x: 0, y: *y, z: 0 } })
            .collect(),
    };
    let mut both = right_hand(1, [HIGH, HIGH, HIGH, LOW, HIGH], 0);
    both.hands.push(left);
    read_and_play(&both, &mut s);
    assert_eq!(s.selected_map(), 1);
    assert_eq!(s.voice_count(), 1);
    let t = s.voice(0).trigger();
    assert_eq!(t.len(), 3);
    let freqs: Vec<u32> = (0..3)
        .map(|k| match t.generator(k) {
            PlaybackType::Wave(w) => {
                assert_eq!(w.shape(), NoteShape::SineSquared);
                w.freq()
            },
            PlaybackType::Sample(_) => panic!("the triads are oscillators"),
        })
        .collect();
    assert_eq!(freqs, vec![349_228, 440_000, 523_251]);
}

#[test]
fn the_output_is_the_sum_of_the_voices() {
    let mut s = State::new(44_100, levels());
    let mut a = voice(Finger::Thumb, 900_000);
    let mut b = voice(Finger::Index, -400_000);
    let mut c = voice(Finger::Middle, 123_457);
    s.add_note(voice(Finger::Thumb, 900_000));
    s.add_note(voice(Finger::Index, -400_000));
    s.add_note(voice(Finger::Middle, 123_457));
    for i in 0..5000 {
        let sum = a.get_sample(44_100, i) + b.get_sample(44_100, i) + c.get_sample(44_100, i);
        assert_eq!(s.get_sample(i), sum);
    }
}

#[test]
fn the_output_is_held_to_full_scale() {
    let mut s = State::new(44_100, levels());
    let mut t = State::new(44_100, levels());
    for finger in [Finger::Thumb, Finger::Index, Finger::Middle, Finger::Ring, Finger::Little] {
        s.add_note(voice(finger, 1_500_000));
        t.add_note(voice(finger, -1_500_000));
    }
    let mut top = 0;
    let mut bottom = 0;
    for i in 0..100_000 {
        top = s.get_sample(i);
        bottom = t.get_sample(i);
    }
    // five voices of 0.2 * 1.5 each come to 1.5
    assert_eq!(top, 100_000_000);
    assert_eq!(bottom, -100_000_000);
    // two thirds of the way up they come to 1.0 less a little
    let mut u = State::new(44_100, levels());
    for finger in [Finger::Thumb, Finger::Index, Finger::Middle, Finger::Ring, Finger::Little] {
        u.add_note(voice(finger, 1_500_000));
    }
    let mut last = 0;
    for i in 0..66_666 {
        last = u.get_sample(i);
    }
    // 66_666 steps of 200 are a volume of 0.1333320: five times 1.5 times that
    assert_eq!(last, 99_999_000);
}
