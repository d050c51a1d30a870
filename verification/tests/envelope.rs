use leap_synth::frame::{Finger, Vector};
use leap_synth::note::{Note, NoteState};
use leap_synth::playback::{PlaybackType, TriggerDefinition};
use leap_synth::sample::PlaybackSample;
use leap_synth::shape::NoteShape;
use leap_synth::units::{RISE_STEP, TARGET_VOLUME};
use leap_synth::wave::PlaybackWave;

const ORIGIN: Vector = Vector { x: 0, y: 0, z: 0 };

fn sine_voice(finger: Finger) -> Note {
    let wave = PlaybackWave::new(440_000, NoteShape::Sine);
    Note::new(finger, TriggerDefinition::new(vec![PlaybackType::Wave(wave)]), ORIGIN)
}

fn constant_voice(level: i32) -> Note {
    let recording = PlaybackSample::new(vec![level, level], 1);
    Note::new(Finger::Ring, TriggerDefinition::new(vec![PlaybackType::Sample(recording)]), ORIGIN)
}

fn steady_voice(level: i32) -> Note {
    let mut n = constant_voice(level);
    for i in 0..100_000 {
        n.get_sample(44_100, i);
    }
    assert_eq!(n.state(), NoteState::Steady);
    n
}

#[test]
fn a_new_voice_rises_from_silence() {
    let n = sine_voice(Finger::Index);
    assert_eq!(n.finger(), Finger::Index);
    assert_eq!(n.state(), NoteState::Rising);
    assert_eq!(n.volume(), 0);
    assert_eq!(n.target_volume(), 20_000_000);
    assert_eq!(n.target_volume(), TARGET_VOLUME);
    assert_eq!(n.position(), ORIGIN);
    assert_eq!(n.trigger().len(), 1);
    assert!(n.should_retain());
    assert!(n.matches(Finger::Index));
    assert!(!n.matches(Finger::Thumb));
}

#[test]
fn a_rising_voice_gains_one_step_per_sample() {
    let mut n = sine_voice(Finger::Index);
    n.get_sample(44_100, 0);
    assert_eq!(n.volume(), 200);
    assert_eq!(RISE_STEP, 200);
    n.get_sample(44_100, 1);
    assert_eq!(n.volume(), 400);
    assert_eq!(n.state(), NoteState::Rising);
}

#[test]
fn the_output_is_the_generators_at_the_volume() {
    let mut n = sine_voice(Finger::Index);
    let mut last = 0;
    for i in 0..=25 {
        last = n.get_sample(44_100, i);
    }
    // the sine stands at 999_993 millionths, the volume at 26 steps of 200:
    // 5_199.9636 hundred-millionths, cut toward zero
    assert_eq!(n.volume(), 5_200);
    assert_eq!(last, 5_199);
    let mut c = steady_voice(-1_000_000);
    assert_eq!(c.get_sample(44_100, 0), -20_000_000);
    let mut odd = steady_voice(-999_999);
    assert_eq!(odd.get_sample(44_100, 0), -19_999_980);
    let mut small = steady_voice(-7);
    // 20_000_000 * 7 / 1_000_000 = 140
    assert_eq!(small.get_sample(44_100, 0), -140);
}

#[test]
fn a_rising_voice_stays_below_its_target_and_a_steady_one_holds() {
    let mut n = constant_voice(1_000_000);
    for i in 0..99_999 {
        n.get_sample(44_100, i);
        assert_eq!(n.state(), NoteState::Rising);
        assert!(n.volume() < n.target_volume());
    }
    n.get_sample(44_100, 99_999);
    assert_eq!(n.state(), NoteState::Steady);
    assert_eq!(n.volume(), 20_000_000);
    for i in 0..1000 {
        assert_eq!(n.get_sample(44_100, i), 20_000_000);
        assert_eq!(n.state(), NoteState::Steady);
        assert_eq!(n.volume(), 20_000_000);
    }
}

#[test]
fn a_lifted_finger_lets_the_voice_die_away() {
    let mut n = steady_voice(1_000_000);
    n.kill();
    assert_eq!(n.state(), NoteState::Dying);
    assert_eq!(n.volume(), 20_000_000);
    assert!(n.should_retain());
    assert!(!n.matches(Finger::Ring));
    let out = n.get_sample(44_100, 0);
    // 20_000_000 * 99_995 / 100_000 - 1, and the generator at full scale
    assert_eq!(n.volume(), 19_998_999);
    assert_eq!(out, 19_998_999);
    n.get_sample(44_100, 1);
    // 19_998_999 * 0.99995 = 19_997_999.05, rounded down, less one
    assert_eq!(n.volume(), 19_997_998);
}

#[test]
fn a_dying_voice_never_gets_louder_and_ends_dead() {
    let mut n = steady_voice(1_000_000);
    n.kill();
    let mut samples: u32 = 0;
    let mut last = n.volume();
    while n.state() != NoteState::Dead {
        n.get_sample(44_100, samples);
        samples += 1;
        assert!(n.volume() <= last);
        last = n.volume();
        assert!(samples <= 20_000_001);
    }
    assert_eq!(samples, 129_727);
    assert_eq!(n.volume(), 0);
    assert!(!n.should_retain());
}

#[test]
fn a_dead_voice_stays_dead_and_silent() {
    let mut n = sine_voice(Finger::Thumb);
    n.kill();
    n.get_sample(44_100, 0);
    assert_eq!(n.state(), NoteState::Dead);
    for i in 0..1000 {
        assert_eq!(n.get_sample(44_100, i), 0);
        assert_eq!(n.state(), NoteState::Dead);
        assert_eq!(n.volume(), 0);
    }
    n.kill();
    assert_eq!(n.state(), NoteState::Dead);
    let wave = match n.trigger().generator(0) {
        PlaybackType::Wave(w) => *w,
        PlaybackType::Sample(_) => panic!("an oscillator was put in"),
    };
    assert_eq!(wave.phase(), 0);
}

#[test]
fn the_states_only_go_forward() {
    fn rank(s: NoteState) -> u8 {
        match s {
            NoteState::Rising => 0,
            NoteState::Steady => 1,
            NoteState::Dying => 2,
            NoteState::Dead => 3,
        }
    }
    let mut n = constant_voice(5);
    let mut last = rank(n.state());
    for i in 0..400_000u32 {
        if i == 150_000 {
            n.kill();
        }
        n.get_sample(44_100, i);
        assert!(rank(n.state()) >= last);
        last = rank(n.state());
    }
    assert_eq!(n.state(), NoteState::Dead);
}

#[test]
fn the_states_have_names() {
    assert_eq!(NoteState::Rising.name(), "Rising");
    assert_eq!(NoteState::Steady.name(), "Steady");
    assert_eq!(NoteState::Dying.name(), "Dying");
    assert_eq!(NoteState::Dead.name(), "Dead");
}

#[test]
fn a_sideways_move_bends_every_generator() {
    let a = PlaybackWave::new(440_000, NoteShape::Sine);
    let b = PlaybackWave::new(261_626, NoteShape::Saw);
    let s = PlaybackSample::new(vec![0, 1], 44_100);
    let trigger = TriggerDefinition::new(vec![
        PlaybackType::Wave(a),
        PlaybackType::Sample(s),
        PlaybackType::Wave(b),
    ]);
    let mut n = Note::new(Finger::Middle, trigger, Vector { x: 5_000, y: 7, z: 9 });
    n.update_position(Vector { x: 15_000, y: 100, z: 200 });
    assert_eq!(n.position(), Vector { x: 15_000, y: 7, z: 9 });
    let targets: Vec<u32> = (0..3)
        .map(|k| match n.trigger().generator(k) {
            PlaybackType::Wave(w) => w.target_freq(),
            PlaybackType::Sample(s) => s.target_freq(),
        })
        .collect();
    // 261_626 * 1.01 = 264_242.26
    assert_eq!(targets, vec![444_400, 44_541, 264_242]);
}

#[test]
fn a_move_that_is_not_sideways_bends_nothing() {
    let mut n = sine_voice(Finger::Index);
    n.update_position(Vector { x: 0, y: 55_000, z: -3 });
    assert_eq!(n.position(), ORIGIN);
    match n.trigger().generator(0) {
        PlaybackType::Wave(w) => assert_eq!(w.target_freq(), 440_000),
        PlaybackType::Sample(_) => panic!("an oscillator was put in"),
    }
}

#[test]
fn a_move_to_the_left_lowers_the_pitch() {
    let mut n = sine_voice(Finger::Index);
    n.update_position(Vector { x: -10_000, y: 0, z: 0 });
    match n.trigger().generator(0) {
        PlaybackType::Wave(w) => assert_eq!(w.target_freq(), 435_600),
        PlaybackType::Sample(_) => panic!("an oscillator was put in"),
    }
}

#[test]
fn the_generators_of_a_trigger_are_summed() {
    let one = PlaybackSample::new(vec![300, 300], 1);
    let two = PlaybackSample::new(vec![-1_000, -1_000], 1);
    let wave = PlaybackWave::new(440_000, NoteShape::Sine);
    let mut t = TriggerDefinition::new(vec![
        PlaybackType::Sample(one),
        PlaybackType::Wave(wave),
        PlaybackType::Sample(two),
    ]);
    assert_eq!(t.get_sample(44_100, 25), 300 + 999_993 - 1_000);
    let mut empty = TriggerDefinition::new(vec![]);
    assert_eq!(empty.get_sample(44_100, 25), 0);
    assert_eq!(empty.len(), 0);
}

#[test]
fn a_copy_of_a_trigger_is_independent() {
    let wave = PlaybackWave::new(440_000, NoteShape::Sine);
    let t = TriggerDefinition::new(vec![PlaybackType::Wave(wave)]);
    let mut c = t.clone();
    c.adjust_freq(2_000_000);
    match (t.generator(0), c.generator(0)) {
        (PlaybackType::Wave(a), PlaybackType::Wave(b)) => {
            assert_eq!(a.target_freq(), 440_000);
            assert_eq!(b.target_freq(), 880_000);
        },
        _ => panic!("an oscillator was put in"),
    }
}

#[test]
fn a_generator_at_the_top_of_its_turn_gives_exactly_the_volume() {
    // one turn per second at four samples per second: tick 1 is the top
    let wave = PlaybackWave::new(1_000, NoteShape::Sine);
    let trigger = TriggerDefinition::new(vec![PlaybackType::Wave(wave)]);
    let mut n = Note::new(Finger::Index, trigger, ORIGIN);
    for _ in 0..100_000 {
        n.get_sample(4, 0);
    }
    assert_eq!(n.state(), NoteState::Steady);
    assert_eq!(n.volume(), 20_000_000);
    n.kill();
    let out = n.get_sample(4, 1);
    assert_eq!(n.state(), NoteState::Dying);
    assert_eq!(n.volume(), 19_998_999);
    assert_eq!(out, 19_998_999);
    // three quarters of the way through the turn the generator is at the bottom
    let out = n.get_sample(4, 3);
    assert_eq!(n.volume(), 19_997_998);
    assert_eq!(out, -19_997_998);
}

#[test]
fn a_voice_let_go_at_its_loudest_is_dead_within_150000_samples() {
    for top in [20_000_000u32, 19_999_800] {
        let mut n = constant_voice(1);
        while n.volume() < top {
            n.get_sample(44_100, 0);
        }
        n.kill();
        for i in 0..150_000 {
            n.get_sample(44_100, i);
        }
        assert_eq!(n.state(), NoteState::Dead);
        assert_eq!(n.volume(), 0);
    }
}
