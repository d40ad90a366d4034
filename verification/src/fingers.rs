//! Which fingers are stretched out.
use vstd::prelude::*;

use crate::mode::{count_raised, raised};
use crate::scalar::Scalar;
use crate::settings::{
    number, threshold, EXT_RATIO_DOWN, EXT_RATIO_UP, FINGER_DOWN_DEG, FINGER_UP_DEG,
    FIST_MAX_WRIST_Y,
};

verus! {

/// Whether a cue shows the finger stretched out: a straight joint, or a tip far
/// from the knuckle.
pub open spec fn stretched(angle: Scalar, ratio: Scalar) -> bool {
    number(FINGER_UP_DEG).at_most(angle) || number(EXT_RATIO_UP).at_most(ratio)
}

/// Whether the cues show the finger folded: a bent joint, and a tip not far from
/// the knuckle.
pub open spec fn folded(angle: Scalar, ratio: Scalar) -> bool {
    angle.at_most(number(FINGER_DOWN_DEG)) && ratio.below(number(EXT_RATIO_UP))
}

/// Whether the finger counts as up after a reading: a clear cue decides, and in
/// between the finger stays as it was.
pub open spec fn finger_after(prev: bool, angle: Scalar, ratio: Scalar) -> bool {
    if stretched(angle, ratio) {
        true
    } else if folded(angle, ratio) {
        false
    } else {
        prev
    }
}

/// Hysteresis for one finger: the angle of its joint in degrees, and the distance
/// of its tip from its knuckle in palms.
pub fn hysteresis_step(prev: bool, angle: Scalar, ratio: Scalar) -> (up: bool)
    ensures
        up == finger_after(prev, angle, ratio),
{
    let angle_up = threshold(FINGER_UP_DEG).le(angle);
    let angle_down = angle.le(threshold(FINGER_DOWN_DEG));
    let ratio_up = threshold(EXT_RATIO_UP).le(ratio);
    let ratio_down = ratio.le(threshold(EXT_RATIO_DOWN));
    if angle_up || ratio_up {
        true
    } else if angle_down && ratio_down {
        false
    } else if angle_down && ratio.lt(threshold(EXT_RATIO_UP)) {
        // The tip is undecided: fold on the angle alone.
        false
    } else {
        prev
    }
}

/// All fingers after a reading, thumb first.
pub open spec fn fingers_after(prev: Seq<bool>, angles: Seq<Scalar>, ratios: Seq<Scalar>) -> Seq<
    bool,
> {
    Seq::new(5, |i: int| finger_after(prev[i], angles[i], ratios[i]))
}

/// Updates every finger, thumb first.
pub fn update_fingers(
    finger_up: &mut [bool; 5],
    angles: &[Scalar; 5],
    ratios: &[Scalar; 5],
)
    ensures
        final(finger_up)@ == fingers_after(old(finger_up)@, angles@, ratios@),
{
    let mut i: usize = 0;
    while i < 5
        invariant
            i <= 5,
            forall|j: int|
                0 <= j < i ==> finger_up@[j] == finger_after(old(finger_up)@[j], angles@[j], ratios@[j]),
            forall|j: int| i <= j < 5 ==> finger_up@[j] == old(finger_up)@[j],
        decreases 5 - i,
    {
        finger_up[i] = hysteresis_step(finger_up[i], angles[i], ratios[i]);
        i = i + 1;
    }
    assert(finger_up@ =~= fingers_after(old(finger_up)@, angles@, ratios@));
}

/// Whether the hand is a raised fist: all four fingers folded and the wrist high
/// in the view.
pub open spec fn raised_fist(fingers: Seq<bool>, wrist_y: Scalar) -> bool {
    raised(fingers) == 0 && wrist_y.below(number(FIST_MAX_WRIST_Y))
}

/// Whether the hand is a raised fist.
pub fn is_raised_fist(fingers: [bool; 5], wrist_y: Scalar) -> (fist: bool)
    ensures
        fist == raised_fist(fingers@, wrist_y),
{
    count_raised(fingers) == 0 && wrist_y.lt(threshold(FIST_MAX_WRIST_Y))
}

/// Whether the hand is open as far as the fist goes: one of the four fingers is up.
pub open spec fn opened(fingers: Seq<bool>) -> bool {
    raised(fingers) > 0
}

/// Whether one of the four fingers is up.
pub fn is_opened(fingers: [bool; 5]) -> (result: bool)
    ensures
        result == opened(fingers@),
{
    count_raised(fingers) > 0
}

/// Between the thresholds a finger stays as it was, up or folded.
pub proof fn law_dead_band_keeps_state(prev: bool, angle: Scalar, ratio: Scalar)
    requires
        number(FINGER_DOWN_DEG).below(angle),
        angle.below(number(FINGER_UP_DEG)),
        ratio.below(number(EXT_RATIO_UP)),
    ensures
        finger_after(prev, angle, ratio) == prev,
{
}

/// Borderline fingers do not flicker: seeing the same reading again changes
/// nothing.
pub proof fn law_repeated_reading_is_stable(prev: bool, angle: Scalar, ratio: Scalar)
    ensures
        finger_after(finger_after(prev, angle, ratio), angle, ratio) == finger_after(
            prev,
            angle,
            ratio,
        ),
{
}

/// No reading is both stretched and folded, so a finger flips only when a cue
/// crosses from one threshold to the other.
pub proof fn law_flip_crosses_the_band(prev: bool, angle: Scalar, ratio: Scalar)
    ensures
        !(stretched(angle, ratio) && folded(angle, ratio)),
        !prev && finger_after(prev, angle, ratio) ==> stretched(angle, ratio),
        prev && !finger_after(prev, angle, ratio) ==> folded(angle, ratio),
{
}

/// A hand resting low in the view is never a raised fist, however closed it is.
pub proof fn law_low_hand_is_no_fist(fingers: Seq<bool>, wrist_y: Scalar)
    requires
        number(FIST_MAX_WRIST_Y).at_most(wrist_y),
    ensures
        !raised_fist(fingers, wrist_y),
{
}

/// What decides about a finger: a straight joint or a tip far out puts it up; a bent
/// joint folds it unless the tip is far out; and anything else leaves it as it was.
pub proof fn law_cues_decide(prev: bool, angle: Scalar, ratio: Scalar)
    ensures
        number(FINGER_UP_DEG).at_most(angle) ==> finger_after(prev, angle, ratio),
        number(EXT_RATIO_UP).at_most(ratio) ==> finger_after(prev, angle, ratio),
        angle.at_most(number(FINGER_DOWN_DEG)) && ratio.below(number(EXT_RATIO_UP))
            ==> !finger_after(prev, angle, ratio),
        !number(FINGER_UP_DEG).at_most(angle) && !number(EXT_RATIO_UP).at_most(ratio) && !(
        angle.at_most(number(FINGER_DOWN_DEG)) && ratio.below(number(EXT_RATIO_UP)))
            ==> finger_after(prev, angle, ratio) == prev,
{
}

/// Stretching a finger never folds it: a straighter joint and a tip further out leave
/// up what would have been up.
pub proof fn law_stretching_never_folds(
    prev: bool,
    angle: Scalar,
    ratio: Scalar,
    straighter: Scalar,
    further: Scalar,
)
    requires
        angle.at_most(straighter),
        ratio.at_most(further),
        finger_after(prev, angle, ratio),
    ensures
        finger_after(prev, straighter, further),
        finger_after(true, straighter, further),
{
}

/// Every finger is read by its own cues alone.
pub proof fn law_fingers_are_read_one_by_one(
    prev: Seq<bool>,
    angles: Seq<Scalar>,
    ratios: Seq<Scalar>,
    i: int,
)
    requires
        0 <= i < 5,
    ensures
        fingers_after(prev, angles, ratios).len() == 5,
        number(FINGER_UP_DEG).at_most(angles[i]) || number(EXT_RATIO_UP).at_most(ratios[i])
            ==> fingers_after(prev, angles, ratios)[i],
        angles[i].at_most(number(FINGER_DOWN_DEG)) && ratios[i].below(number(EXT_RATIO_UP))
            ==> !fingers_after(prev, angles, ratios)[i],
        !number(FINGER_UP_DEG).at_most(angles[i]) && !number(EXT_RATIO_UP).at_most(ratios[i]) && !(
        angles[i].at_most(number(FINGER_DOWN_DEG)) && ratios[i].below(number(EXT_RATIO_UP)))
            ==> fingers_after(prev, angles, ratios)[i] == prev[i],
{
}

/// A raised fist has all four fingers folded and the wrist high in the view, whatever
/// the thumb does, and opens with any of the four.
pub proof fn law_fist_is_four_folded_fingers(fingers: Seq<bool>, wrist_y: Scalar)
    requires
        fingers.len() == 5,
    ensures
        raised_fist(fingers, wrist_y) <==> !fingers[1] && !fingers[2] && !fingers[3]
            && !fingers[4] && wrist_y.below(number(FIST_MAX_WRIST_Y)),
        opened(fingers) <==> fingers[1] || fingers[2] || fingers[3] || fingers[4],
{
}

} // verus!
