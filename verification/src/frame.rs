use vstd::prelude::*;

verus! {

/// A finger of the playing hand: the unit of note triggering.
#[derive(Clone, Copy, Debug, PartialEq, Eq, Structural)]
pub enum Finger {
    Thumb,
    Index,
    Middle,
    Ring,
    Little,
}

/// A point in the tracker's space, in thousandths of a device unit.
#[derive(Clone, Copy, Debug, PartialEq, Eq, Structural)]
pub struct Vector {
    pub x: i32,
    pub y: i32,
    pub z: i32,
}

/// One tracked finger.
#[derive(Clone, Copy, Debug)]
pub struct FingerPose {
    pub tip_position: Vector,
}

/// One tracked hand, with the fingers that the tracker reports for it, thumb first.
#[derive(Debug)]
pub struct Hand {
    pub is_left: bool,
    pub fingers: Vec<FingerPose>,
}

/// One snapshot of the tracker.
#[derive(Debug)]
pub struct Frame {
    pub timestamp: i32,
    pub hands: Vec<Hand>,
}

/// A thumb is pressed while its tip is below this height.
pub const THUMB_HEIGHT: i32 = 190_000;

/// Any other finger is pressed while its tip is below this height.
pub const FINGER_HEIGHT: i32 = 200_000;

/// The place of a finger among a hand's fingers.
pub open spec fn finger_index(finger: Finger) -> int {
    match finger {
        Finger::Thumb => 0,
        Finger::Index => 1,
        Finger::Middle => 2,
        Finger::Ring => 3,
        Finger::Little => 4,
    }
}

/// The height below which a finger counts as pressed.
pub open spec fn press_height(finger: Finger) -> int {
    if finger == Finger::Thumb {
        THUMB_HEIGHT as int
    } else {
        FINGER_HEIGHT as int
    }
}

/// The hand that plays: a lone hand unless it is a left one; of two hands the first
/// that is not a left one. There is none where no hand qualifies.
pub open spec fn playing_hand(frame: &Frame) -> Option<int> {
    if frame.hands@.len() == 0 {
        None
    } else if !frame.hands@[0].is_left {
        Some(0)
    } else if frame.hands@.len() >= 2 && !frame.hands@[1].is_left {
        Some(1)
    } else {
        None
    }
}

/// Whether `hand` reports a finger at `index` and holds its tip below `height`.
pub open spec fn finger_pressed(hand: &Hand, index: int, height: int) -> bool {
    0 <= index < hand.fingers@.len() && hand.fingers@[index].tip_position.y < height
}

/// Whether `finger` should be sounding: there is a playing hand, it reports a finger
/// at `fing_index`, and that finger's tip is below the finger's press height.
pub open spec fn should_be_present(frame: &Frame, finger: Finger, fing_index: int) -> bool {
    match playing_hand(frame) {
        Some(h) => finger_pressed(&frame.hands@[h], fing_index, press_height(finger)),
        None => false,
    }
}

/// The tip of the playing hand's finger at `fing_index`, where there is one.
pub open spec fn playing_tip(frame: &Frame, fing_index: int) -> Option<Vector> {
    match playing_hand(frame) {
        Some(h) => if 0 <= fing_index < frame.hands@[h].fingers@.len() {
            Some(frame.hands@[h].fingers@[fing_index].tip_position)
        } else {
            None
        },
        None => None,
    }
}

/// The instrument map that a hand asks for: a left hand asks for map 2 with its
/// middle finger pressed, else for map 1 with its ring finger, else for map 0 with
/// its little finger. Any other hand asks for none.
pub open spec fn hand_request(hand: &Hand) -> Option<int> {
    if !hand.is_left {
        None
    } else if finger_pressed(hand, 2, FINGER_HEIGHT as int) {
        Some(2)
    } else if finger_pressed(hand, 3, FINGER_HEIGHT as int) {
        Some(1)
    } else if finger_pressed(hand, 4, FINGER_HEIGHT as int) {
        Some(0)
    } else {
        None
    }
}

/// The selected map after the hands have been gone through in order, each request
/// taking the place of the selection before it.
pub open spec fn selection_after(hands: Seq<Hand>, current: int) -> int
    decreases hands.len(),
{
    if hands.len() == 0 {
        current
    } else {
        match hand_request(&hands.last()) {
            Some(m) => m,
            None => selection_after(hands.drop_last(), current),
        }
    }
}

/// The place of a finger among a hand's fingers.
pub fn finger_to_usize(finger: Finger) -> (index: usize)
    ensures
        index == finger_index(finger),
        index < 5,
{
    match finger {
        Finger::Thumb => 0,
        Finger::Index => 1,
        Finger::Middle => 2,
        Finger::Ring => 3,
        Finger::Little => 4,
    }
}

fn find_playing_hand(frame: &Frame) -> (hand: Option<usize>)
    ensures
        match hand {
            Some(h) => playing_hand(frame) == Some(h as int) && h < frame.hands@.len(),
            None => playing_hand(frame) is None,
        },
{
    if frame.hands.len() == 0 {
        None
    } else if !frame.hands[0].is_left {
        Some(0)
    } else if frame.hands.len() >= 2 && !frame.hands[1].is_left {
        Some(1)
    } else {
        None
    }
}

fn is_pressed(hand: &Hand, index: usize, height: i32) -> (pressed: bool)
    ensures
        pressed == finger_pressed(hand, index as int, height as int),
{
    index < hand.fingers.len() && hand.fingers[index].tip_position.y < height
}

/// Whether `finger` should be sounding in `frame`. This holds for every shape of
/// frame: a hand that reports too few fingers has the finger absent.
pub fn is_finger_active(frame: &Frame, finger: Finger, fing_index: usize) -> (active: bool)
    ensures
        active == should_be_present(frame, finger, fing_index as int),
{
    let bottom: i32 = if finger != Finger::Thumb {
        FINGER_HEIGHT
    } else {
        THUMB_HEIGHT
    };
    match find_playing_hand(frame) {
        Some(h) => is_pressed(&frame.hands[h], fing_index, bottom),
        None => false,
    }
}

/// The tip of the playing hand's finger at `fing_index`, where there is one.
pub fn finger_tip(frame: &Frame, fing_index: usize) -> (tip: Option<Vector>)
    ensures
        tip == playing_tip(frame, fing_index as int),
{
    match find_playing_hand(frame) {
        Some(h) => {
            if fing_index < frame.hands[h].fingers.len() {
                Some(frame.hands[h].fingers[fing_index].tip_position)
            } else {
                None
            }
        },
        None => None,
    }
}

/// The instrument map that is selected once `frame` has been seen, where `current`
/// was selected before it.
pub fn select_map(frame: &Frame, current: usize) -> (selected: usize)
    ensures
        selected == selection_after(frame.hands@, current as int),
        selected == current || selected <= 2,
{
    let mut selected: usize = current;
    let mut h: usize = 0;
    assert(frame.hands@.subrange(0, 0) =~= Seq::<Hand>::empty());
    while h < frame.hands.len()
        invariant
            h <= frame.hands@.len(),
            selected == selection_after(frame.hands@.subrange(0, h as int), current as int),
            selected == current || selected <= 2,
        decreases frame.hands@.len() - h,
    {
        let hand = &frame.hands[h];
        proof {
            let upto = frame.hands@.subrange(0, h + 1);
            assert(upto.drop_last() =~= frame.hands@.subrange(0, h as int));
            assert(upto.last() == frame.hands@[h as int]);
        }
        if hand.is_left {
            if is_pressed(hand, 2, FINGER_HEIGHT) {
                selected = 2;
            } else if is_pressed(hand, 3, FINGER_HEIGHT) {
                selected = 1;
            } else if is_pressed(hand, 4, FINGER_HEIGHT) {
                selected = 0;
            }
        }
        h += 1;
    }
    assert(frame.hands@.subrange(0, frame.hands@.len() as int) =~= frame.hands@);
    selected
}

} // verus!
