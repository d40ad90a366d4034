//! Tracked hands: landmarks, and which hand counts.
use vstd::prelude::*;

use crate::scalar::{Scalar, LARGEST_BITS, LOWEST_BITS};
use crate::settings::{number, threshold, LANDMARKS};

verus! {

/// A position in the view or on the screen.
#[derive(Clone, Copy, Debug, PartialEq, Eq, Structural)]
pub struct Point {
    pub x: Scalar,
    pub y: Scalar,
}

/// One tracked spot of a hand, with its depth.
#[derive(Clone, Copy, Debug, PartialEq, Eq, Structural)]
pub struct Landmark {
    pub x: Scalar,
    pub y: Scalar,
    pub z: Scalar,
}

/// A hand as the tracker reports it.
#[derive(Debug)]
pub struct Hand {
    pub landmarks: Vec<Landmark>,
    pub handedness: Option<String>,
}

/// Landmark of the wrist.
pub const WRIST: usize = 0;

/// Landmark of the thumb's tip.
pub const THUMB_TIP: usize = 4;

/// Landmark of the index finger's tip.
pub const INDEX_TIP: usize = 8;

/// Landmark of the middle finger's knuckle: its distance from the wrist is the
/// size of the palm.
pub const MIDDLE_KNUCKLE: usize = 9;

/// Landmark of the middle finger's tip.
pub const MIDDLE_TIP: usize = 12;

/// The landmarks whose mean is the centre of the palm.
pub const PALM_CORNERS: [usize; 3] = [0, 5, 17];

impl Hand {
    /// Whether every landmark was found.
    pub open spec fn full(self) -> bool {
        self.landmarks@.len() >= LANDMARKS
    }

    /// Whether the tracker calls it a right hand.
    pub open spec fn right(self) -> bool {
        self.handedness matches Some(side) && side@ == "Right"@
    }

    /// Whether every landmark was found.
    pub fn is_full(&self) -> (result: bool)
        ensures
            result == self.full(),
    {
        self.landmarks.len() >= LANDMARKS
    }

    /// Whether the tracker calls it a right hand.
    pub fn is_right(&self) -> (result: bool)
        ensures
            result == self.right(),
    {
        match &self.handedness {
            Some(side) => *side == "Right".to_owned(),
            None => false,
        }
    }
}

/// The joint of each finger (thumb first) by which it is measured: the landmarks
/// before it, at it and behind it.
pub open spec fn joint_of(finger: int) -> (usize, usize, usize) {
    if finger == 0 {
        (2, 3, 4)
    } else {
        ((4 * finger + 1) as usize, (4 * finger + 2) as usize, (4 * finger + 4) as usize)
    }
}

/// The joint of a finger by which it is measured.
pub fn finger_joint(finger: usize) -> (joint: (usize, usize, usize))
    requires
        finger < 5,
    ensures
        joint == joint_of(finger as int),
        joint.0 < LANDMARKS,
        joint.1 < LANDMARKS,
        joint.2 < LANDMARKS,
{
    if finger == 0 {
        (2, 3, 4)
    } else {
        (4 * finger + 1, 4 * finger + 2, 4 * finger + 4)
    }
}

/// The smallest box around landmarks.
#[derive(Clone, Copy, Debug, PartialEq, Eq, Structural)]
pub struct Bounds {
    pub min_x: Scalar,
    pub max_x: Scalar,
    pub min_y: Scalar,
    pub max_y: Scalar,
}

/// The box around landmarks, grown one landmark at a time from a box that nothing
/// fits in.
pub open spec fn bounds_of(landmarks: Seq<Landmark>) -> Bounds
    decreases landmarks.len(),
{
    if landmarks.len() == 0 {
        Bounds {
            min_x: number(LARGEST_BITS),
            max_x: number(LOWEST_BITS),
            min_y: number(LARGEST_BITS),
            max_y: number(LOWEST_BITS),
        }
    } else {
        let before = bounds_of(landmarks.drop_last());
        let p = landmarks.last();
        Bounds {
            min_x: before.min_x.smaller(p.x),
            max_x: before.max_x.larger(p.x),
            min_y: before.min_y.smaller(p.y),
            max_y: before.max_y.larger(p.y),
        }
    }
}

/// The smallest box around the landmarks. The longer of its sides is the span of
/// the hand.
pub fn hand_bounds(landmarks: &Vec<Landmark>) -> (bounds: Bounds)
    ensures
        bounds == bounds_of(landmarks@),
{
    let mut bounds = Bounds {
        min_x: threshold(LARGEST_BITS),
        max_x: threshold(LOWEST_BITS),
        min_y: threshold(LARGEST_BITS),
        max_y: threshold(LOWEST_BITS),
    };
    let mut i: usize = 0;
    while i < landmarks.len()
        invariant
            i <= landmarks.len(),
            bounds == bounds_of(landmarks@.take(i as int)),
        decreases landmarks.len() - i,
    {
        assert(landmarks@.take(i + 1).drop_last() == landmarks@.take(i as int));
        let p = landmarks[i];
        bounds = Bounds {
            min_x: bounds.min_x.min(p.x),
            max_x: bounds.max_x.max(p.x),
            min_y: bounds.min_y.min(p.y),
            max_y: bounds.max_y.max(p.y),
        };
        i = i + 1;
    }
    assert(landmarks@.take(landmarks@.len() as int) == landmarks@);
    bounds
}

/// Of finite landmarks, none lies outside the box, and every side of it touches
/// one of them.
pub proof fn law_bounds_are_tight(landmarks: Seq<Landmark>)
    requires
        landmarks.len() > 0,
        forall|i: int|
            0 <= i < landmarks.len() ==> (#[trigger] landmarks[i]).x.is_finite()
                && landmarks[i].y.is_finite(),
    ensures
        forall|i: int|
            0 <= i < landmarks.len() ==> {
                &&& bounds_of(landmarks).min_x.at_most((#[trigger] landmarks[i]).x)
                &&& landmarks[i].x.at_most(bounds_of(landmarks).max_x)
                &&& bounds_of(landmarks).min_y.at_most(landmarks[i].y)
                &&& landmarks[i].y.at_most(bounds_of(landmarks).max_y)
            },
        exists|i: int|
            0 <= i < landmarks.len() && (#[trigger] landmarks[i]).x.rank() == bounds_of(
                landmarks,
            ).min_x.rank(),
        exists|i: int|
            0 <= i < landmarks.len() && (#[trigger] landmarks[i]).x.rank() == bounds_of(
                landmarks,
            ).max_x.rank(),
        exists|i: int|
            0 <= i < landmarks.len() && (#[trigger] landmarks[i]).y.rank() == bounds_of(
                landmarks,
            ).min_y.rank(),
        exists|i: int|
            0 <= i < landmarks.len() && (#[trigger] landmarks[i]).y.rank() == bounds_of(
                landmarks,
            ).max_y.rank(),
    decreases landmarks.len(),
{
    let rest = landmarks.drop_last();
    let p = landmarks.last();
    let last = landmarks.len() - 1;
    assert(landmarks[last] == p);
    if rest.len() > 0 {
        assert forall|i: int| 0 <= i < rest.len() implies (#[trigger] rest[i]).x.is_finite()
            && rest[i].y.is_finite() by {
            assert(rest[i] == landmarks[i]);
        }
        law_bounds_are_tight(rest);
        let a = choose|i: int|
            0 <= i < rest.len() && (#[trigger] rest[i]).x.rank() == bounds_of(rest).min_x.rank();
        let b = choose|i: int|
            0 <= i < rest.len() && (#[trigger] rest[i]).x.rank() == bounds_of(rest).max_x.rank();
        let c = choose|i: int|
            0 <= i < rest.len() && (#[trigger] rest[i]).y.rank() == bounds_of(rest).min_y.rank();
        let d = choose|i: int|
            0 <= i < rest.len() && (#[trigger] rest[i]).y.rank() == bounds_of(rest).max_y.rank();
        assert(rest[a] == landmarks[a] && rest[b] == landmarks[b]);
        assert(rest[c] == landmarks[c] && rest[d] == landmarks[d]);
        assert forall|i: int| 0 <= i < landmarks.len() implies {
            &&& bounds_of(landmarks).min_x.at_most((#[trigger] landmarks[i]).x)
            &&& landmarks[i].x.at_most(bounds_of(landmarks).max_x)
            &&& bounds_of(landmarks).min_y.at_most(landmarks[i].y)
            &&& landmarks[i].y.at_most(bounds_of(landmarks).max_y)
        } by {
            if i < last {
                assert(rest[i] == landmarks[i]);
            }
        }
    } else {
        assert(bounds_of(rest) == bounds_of(Seq::<Landmark>::empty()));
    }
}

/// The hand that counts among the first `n`: the one with the largest span, and
/// the latest of equals, among those that were tracked completely.
pub open spec fn primary_among(hands: Seq<Hand>, spans: Seq<Scalar>, n: int) -> Option<int>
    decreases n,
{
    if n <= 0 {
        None
    } else {
        match primary_among(hands, spans, n - 1) {
            _ if !hands[n - 1].full() => primary_among(hands, spans, n - 1),
            Some(best) if spans[n - 1].below(spans[best]) => Some(best),
            _ => Some(n - 1),
        }
    }
}

/// The hand that counts: the largest, and so the closest. `spans` holds the span
/// of each hand.
pub fn primary_hand(hands: &Vec<Hand>, spans: &Vec<Scalar>) -> (primary: Option<usize>)
    requires
        spans@.len() == hands@.len(),
    ensures
        match primary {
            Some(i) => primary_among(hands@, spans@, hands@.len() as int) == Some(i as int)
                && i < hands@.len() && hands@[i as int].full(),
            None => primary_among(hands@, spans@, hands@.len() as int) is None,
        },
{
    let mut primary: Option<usize> = None;
    let mut n: usize = 0;
    while n < hands.len()
        invariant
            n <= hands.len(),
            spans@.len() == hands@.len(),
            match primary {
                Some(i) => primary_among(hands@, spans@, n as int) == Some(i as int) && i < n
                    && hands@[i as int].full(),
                None => primary_among(hands@, spans@, n as int) is None,
            },
        decreases hands.len() - n,
    {
        if hands[n].is_full() {
            primary = match primary {
                Some(best) => if spans[n].lt(spans[best]) {
                    Some(best)
                } else {
                    Some(n)
                },
                None => Some(n),
            };
        }
        n = n + 1;
    }
    primary
}

/// Where every span is a number, the hand that counts is at least as large as
/// every completely tracked hand, larger than every later one, and there is one
/// as soon as one hand was tracked completely.
pub proof fn law_primary_is_largest(hands: Seq<Hand>, spans: Seq<Scalar>, n: int)
    requires
        0 <= n <= hands.len(),
        spans.len() == hands.len(),
        forall|i: int| 0 <= i < spans.len() ==> !(#[trigger] spans[i]).is_nan(),
    ensures
        match primary_among(hands, spans, n) {
            Some(best) => {
                &&& 0 <= best < n
                &&& hands[best].full()
                &&& forall|i: int|
                    0 <= i < n && (#[trigger] hands[i]).full() ==> spans[i].at_most(spans[best])
                &&& forall|i: int|
                    best < i < n && (#[trigger] hands[i]).full() ==> spans[i].below(spans[best])
            },
            None => forall|i: int| 0 <= i < n ==> !(#[trigger] hands[i]).full(),
        },
    decreases n,
{
    if n > 0 {
        law_primary_is_largest(hands, spans, n - 1);
    }
}

/// A hand is complete with its 21 landmarks, and a right one if the tracker says so.
pub proof fn law_hands_are_told_apart(hand: Hand)
    ensures
        hand.full() <==> hand.landmarks@.len() >= 21,
        hand.right() <==> hand.handedness is Some && hand.handedness->0@ == "Right"@,
{
}

/// Each finger is measured by landmarks of its own, from its knuckle outwards: the
/// joint follows the knuckle, and the tip is the last landmark before the next finger.
pub proof fn law_fingers_have_their_own_landmarks(finger: int, other: int)
    requires
        0 <= finger < other < 5,
    ensures
        joint_of(finger).0 + 1 == joint_of(finger).1,
        joint_of(other).0 + 1 == joint_of(other).1,
        joint_of(finger).1 < joint_of(finger).2 < joint_of(other).0,
        joint_of(other).1 < joint_of(other).2 <= 20,
        joint_of(finger).2 == 4 * (finger + 1),
        joint_of(other).2 == 4 * (other + 1),
        joint_of(other).0 + 3 == joint_of(other).2,
        joint_of(0).0 + 2 == joint_of(0).2,
        joint_of(0).2 == THUMB_TIP,
        joint_of(1).2 == INDEX_TIP,
        joint_of(2).0 == MIDDLE_KNUCKLE,
        joint_of(2).2 == MIDDLE_TIP,
{
}

/// The sides of the box are measured apart: the horizontal ones by the horizontal places
/// of the landmarks alone, the vertical ones by the vertical places alone.
pub proof fn law_sides_are_measured_apart(a: Seq<Landmark>, b: Seq<Landmark>)
    requires
        a.len() == b.len(),
    ensures
        (forall|i: int| 0 <= i < a.len() ==> (#[trigger] a[i]).x == b[i].x) ==> bounds_of(a).min_x
            == bounds_of(b).min_x && bounds_of(a).max_x == bounds_of(b).max_x,
        (forall|i: int| 0 <= i < a.len() ==> (#[trigger] a[i]).y == b[i].y) ==> bounds_of(a).min_y
            == bounds_of(b).min_y && bounds_of(a).max_y == bounds_of(b).max_y,
    decreases a.len(),
{
    if a.len() > 0 {
        law_sides_are_measured_apart(a.drop_last(), b.drop_last());
        assert(a[a.len() - 1] == a.last() && b[a.len() - 1] == b.last());
        assert(forall|i: int| 0 <= i < a.len() - 1 ==> a.drop_last()[i] == #[trigger] a[i]);
        assert(forall|i: int| 0 <= i < a.len() - 1 ==> b.drop_last()[i] == #[trigger] b[i]);
    }
}

/// A place that is not a number moves no side of the box.
pub proof fn law_no_number_moves_no_side(landmarks: Seq<Landmark>, p: Landmark)
    ensures
        !bounds_of(landmarks).min_x.is_nan() && !bounds_of(landmarks).max_x.is_nan(),
        !bounds_of(landmarks).min_y.is_nan() && !bounds_of(landmarks).max_y.is_nan(),
        p.x.is_nan() ==> bounds_of(landmarks.push(p)).min_x == bounds_of(landmarks).min_x
            && bounds_of(landmarks.push(p)).max_x == bounds_of(landmarks).max_x,
        p.y.is_nan() ==> bounds_of(landmarks.push(p)).min_y == bounds_of(landmarks).min_y
            && bounds_of(landmarks.push(p)).max_y == bounds_of(landmarks).max_y,
    decreases landmarks.len(),
{
    assert(landmarks.push(p).drop_last() == landmarks);
    if landmarks.len() > 0 {
        law_no_number_moves_no_side(landmarks.drop_last(), landmarks.last());
        assert(landmarks.drop_last().push(landmarks.last()) == landmarks);
    }
}

/// Whatever the spans are, a complete hand counts as soon as there is one; no later
/// complete hand fails to be smaller, and it was not smaller than the one that counted
/// before it came.
pub proof fn law_primary_gives_way_to_no_smaller_hand(
    hands: Seq<Hand>,
    spans: Seq<Scalar>,
    n: int,
)
    requires
        0 <= n <= hands.len(),
        spans.len() == hands.len(),
    ensures
        match primary_among(hands, spans, n) {
            Some(best) => {
                &&& 0 <= best < n
                &&& hands[best].landmarks@.len() >= 21
                &&& forall|i: int|
                    best < i < n && (#[trigger] hands[i]).landmarks@.len() >= 21
                        ==> spans[i].below(spans[best])
                &&& primary_among(hands, spans, best) matches Some(before) ==> !spans[best].below(
                    spans[before],
                )
            },
            None => forall|i: int| 0 <= i < n ==> (#[trigger] hands[i]).landmarks@.len() < 21,
        },
    decreases n,
{
    if n > 0 {
        law_primary_gives_way_to_no_smaller_hand(hands, spans, n - 1);
    }
}

} // verus!
