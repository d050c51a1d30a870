use leap_synth::frame::{
    finger_tip, finger_to_usize, is_finger_active, select_map, Finger, FingerPose, Frame, Hand, Vector,
};

fn gesture_hand(is_left: bool, heights: &[i32]) -> Hand {
    let mut fingers = Vec::new();
    for (k, y) in heights.iter().enumerate() {
        fingers.push(FingerPose { tip_position: Vector { x: 1_000 * k as i32, y: *y, z: 0 } });
    }
    Hand { is_left, fingers }
}

const UP: i32 = 300_000;
const DOWN: i32 = 100_000;

#[test]
fn fingers_are_numbered_from_the_thumb() {
    assert_eq!(finger_to_usize(Finger::Thumb), 0);
    assert_eq!(finger_to_usize(Finger::Index), 1);
    assert_eq!(finger_to_usize(Finger::Middle), 2);
    assert_eq!(finger_to_usize(Finger::Ring), 3);
    assert_eq!(finger_to_usize(Finger::Little), 4);
}

#[test]
fn no_hand_means_no_finger() {
    let frame = Frame { timestamp: 1, hands: vec![] };
    assert!(!is_finger_active(&frame, Finger::Index, 1));
    assert_eq!(finger_tip(&frame, 1), None);
}

#[test]
fn a_lone_left_hand_plays_nothing() {
    let frame = Frame { timestamp: 1, hands: vec![gesture_hand(true, &[DOWN, DOWN, DOWN, DOWN, DOWN])] };
    assert!(!is_finger_active(&frame, Finger::Thumb, 0));
    assert!(!is_finger_active(&frame, Finger::Little, 4));
}

#[test]
fn a_lone_right_hand_plays_its_pressed_fingers() {
    let frame = Frame { timestamp: 1, hands: vec![gesture_hand(false, &[UP, DOWN, UP, DOWN, UP])] };
    assert!(!is_finger_active(&frame, Finger::Thumb, 0));
    assert!(is_finger_active(&frame, Finger::Index, 1));
    assert!(!is_finger_active(&frame, Finger::Middle, 2));
    assert!(is_finger_active(&frame, Finger::Ring, 3));
    assert!(!is_finger_active(&frame, Finger::Little, 4));
}

#[test]
fn the_thumb_is_pressed_below_190_units() {
    let below = Frame { timestamp: 1, hands: vec![gesture_hand(false, &[189_999])] };
    let at = Frame { timestamp: 1, hands: vec![gesture_hand(false, &[190_000])] };
    assert!(is_finger_active(&below, Finger::Thumb, 0));
    assert!(!is_finger_active(&at, Finger::Thumb, 0));
}

#[test]
fn the_other_fingers_are_pressed_below_200_units() {
    let below = Frame { timestamp: 1, hands: vec![gesture_hand(false, &[UP, 199_999, 195_000])] };
    let at = Frame { timestamp: 1, hands: vec![gesture_hand(false, &[195_000, 200_000])] };
    assert!(is_finger_active(&below, Finger::Index, 1));
    assert!(is_finger_active(&below, Finger::Middle, 2));
    assert!(!is_finger_active(&at, Finger::Index, 1));
    assert!(!is_finger_active(&at, Finger::Thumb, 0));
}

#[test]
fn of_two_hands_the_one_that_is_not_left_plays() {
    let left_first = Frame {
        timestamp: 1,
        hands: vec![gesture_hand(true, &[DOWN, DOWN]), gesture_hand(false, &[UP, DOWN])],
    };
    assert!(!is_finger_active(&left_first, Finger::Thumb, 0));
    assert!(is_finger_active(&left_first, Finger::Index, 1));
    let right_first = Frame {
        timestamp: 1,
        hands: vec![gesture_hand(false, &[DOWN, UP]), gesture_hand(true, &[UP, DOWN])],
    };
    assert!(is_finger_active(&right_first, Finger::Thumb, 0));
    assert!(!is_finger_active(&right_first, Finger::Index, 1));
}

#[test]
fn two_left_hands_play_nothing() {
    let frame = Frame {
        timestamp: 1,
        hands: vec![gesture_hand(true, &[DOWN, DOWN]), gesture_hand(true, &[DOWN, DOWN])],
    };
    assert!(!is_finger_active(&frame, Finger::Thumb, 0));
    assert!(!is_finger_active(&frame, Finger::Index, 1));
}

#[test]
fn a_finger_that_is_not_reported_is_absent() {
    let frame = Frame { timestamp: 1, hands: vec![gesture_hand(false, &[DOWN, DOWN])] };
    assert!(is_finger_active(&frame, Finger::Index, 1));
    assert!(!is_finger_active(&frame, Finger::Middle, 2));
    assert!(!is_finger_active(&frame, Finger::Little, 4));
    assert_eq!(finger_tip(&frame, 2), None);
}

#[test]
fn the_tip_is_that_of_the_playing_hand() {
    let frame = Frame {
        timestamp: 1,
        hands: vec![gesture_hand(true, &[UP, UP, UP]), gesture_hand(false, &[UP, DOWN, UP])],
    };
    assert_eq!(finger_tip(&frame, 1), Some(Vector { x: 1_000, y: DOWN, z: 0 }));
}

#[test]
fn the_left_hand_selects_the_map() {
    let middle = Frame { timestamp: 1, hands: vec![gesture_hand(true, &[UP, UP, DOWN, UP, UP])] };
    let ring = Frame { timestamp: 1, hands: vec![gesture_hand(true, &[UP, UP, UP, DOWN, UP])] };
    let little = Frame { timestamp: 1, hands: vec![gesture_hand(true, &[UP, UP, UP, UP, DOWN])] };
    assert_eq!(select_map(&middle, 0), 2);
    assert_eq!(select_map(&ring, 0), 1);
    assert_eq!(select_map(&little, 2), 0);
}

#[test]
fn the_middle_finger_comes_before_the_ring_and_the_little_finger() {
    let all = Frame { timestamp: 1, hands: vec![gesture_hand(true, &[UP, UP, DOWN, DOWN, DOWN])] };
    let two = Frame { timestamp: 1, hands: vec![gesture_hand(true, &[UP, UP, UP, DOWN, DOWN])] };
    assert_eq!(select_map(&all, 0), 2);
    assert_eq!(select_map(&two, 0), 1);
}

#[test]
fn without_a_press_the_selection_stays() {
    let open_left = Frame { timestamp: 1, hands: vec![gesture_hand(true, &[DOWN, DOWN, UP, UP, UP])] };
    let right_only = Frame { timestamp: 1, hands: vec![gesture_hand(false, &[UP, UP, DOWN, DOWN, DOWN])] };
    let sparse_left = Frame { timestamp: 1, hands: vec![gesture_hand(true, &[DOWN, DOWN])] };
    assert_eq!(select_map(&open_left, 1), 1);
    assert_eq!(select_map(&right_only, 1), 1);
    assert_eq!(select_map(&sparse_left, 0), 0);
}

#[test]
fn the_selecting_threshold_is_200_units() {
    let below = Frame { timestamp: 1, hands: vec![gesture_hand(true, &[UP, UP, 199_999])] };
    let at = Frame { timestamp: 1, hands: vec![gesture_hand(true, &[UP, UP, 200_000])] };
    assert_eq!(select_map(&below, 0), 2);
    assert_eq!(select_map(&at, 0), 0);
}
