//! Thresholds and timings.
//!
//! A threshold on a measurement is a bit pattern: the single-precision number
//! closest to the decimal beside it. `law_thresholds_are_nearest` proves each.
//! Timings are in nanoseconds.
use vstd::arithmetic::power2::{lemma2_to64, lemma_pow2_unfold, pow2};
use vstd::prelude::*;

use crate::scalar::{scaled_magnitude, Scalar};

verus! {

/// Hands spanning less than 0.06 of the view are spurious detections.
pub const MIN_HAND_SPAN: u32 = 0x3d75_c28f;

/// Fingertips closer than 0.055 pinch ...
pub const PINCH_ON: u32 = 0x3d61_47ae;

/// ... and count as apart only beyond 0.095.
pub const PINCH_OFF: u32 = 0x3dc2_8f5c;

/// Fingertips closer than 0.35 palms pinch as well ...
pub const PINCH_PALM_REL_ON: u32 = 0x3eb3_3333;

/// ... and count as apart only beyond 0.45 palms.
pub const PINCH_PALM_REL_OFF: u32 = 0x3ee6_6666;

/// A finger bent to 90 degrees or less is folded away and cannot pinch.
pub const PINCH_MIN_ANGLE_DEG: u32 = 0x42b4_0000;

pub const CLICK_COOLDOWN: u64 = 180_000_000;

/// Part of the view at each edge that the cursor mapping cuts off: 0.08.
pub const MARGIN: u32 = 0x3da3_d70a;

/// Cursor targets closer than 1.5 pixels are shake.
pub const CURSOR_JITTER_PX: u32 = 0x3fc0_0000;

/// Smoothing for slow movement: 0.1.
pub const SMOOTH_MIN: u32 = 0x3dcc_cccd;

/// Smoothing for fast movement: 1.
pub const SMOOTH_MAX: u32 = 0x3f80_0000;

/// Distance over which the smoothing ramps up: 120 pixels.
pub const SMOOTH_RANGE_PX: u32 = 0x42f0_0000;

/// Fingertip travel per wheel tick: 0.035.
pub const SCROLL_TICK: u32 = 0x3d0f_5c29;

pub const SCROLL_SETTLE: u64 = 120_000_000;

pub const SCROLL_MAX_TICKS: u32 = 3;

/// Palm travel per workspace switch: 0.18.
pub const SWIPE_DIST: u32 = 0x3e38_51ec;

/// Horizontal speed above which travel counts as a swipe: 0.35 per second.
pub const SWIPE_VEL: u32 = 0x3eb3_3333;

/// Share of the way by which the anchor follows a hand that is not swiping: 0.05.
pub const SWIPE_REANCHOR: u32 = 0x3d4c_cccd;

/// Vertical speed above which the palm flips: 0.85 per second.
pub const FLIP_VEL: u32 = 0x3f59_999a;

/// Vertical speed below which the next flip is armed: half of `FLIP_VEL`.
pub const FLIP_REST_VEL: u32 = 0x3ed9_999a;

/// Factor by which the speed along an axis must beat the other axis: 1.3.
pub const DOMINANCE: u32 = 0x3fa6_6666;

pub const WORKSPACE_COOLDOWN: u64 = 400_000_000;

pub const VOLUME_FLIP_COOLDOWN: u64 = 500_000_000;

/// Volume change of one flip, in percent.
pub const VOLUME_STEP: u32 = 5;

pub const FIST_HOLD: u64 = 400_000_000;

pub const FIST_REARM: u64 = 400_000_000;

/// Only a fist whose wrist is above 0.6 of the view (y grows downwards) is raised.
pub const FIST_MAX_WRIST_Y: u32 = 0x3f19_999a;

/// A joint at 135 degrees or more is straight ...
pub const FINGER_UP_DEG: u32 = 0x4307_0000;

/// ... and at 115 degrees or less it is bent.
pub const FINGER_DOWN_DEG: u32 = 0x42e6_0000;

/// A fingertip 0.6 palms or more from its knuckle is stretched out ...
pub const EXT_RATIO_UP: u32 = 0x3f19_999a;

/// ... and at 0.42 palms or less it is curled up.
pub const EXT_RATIO_DOWN: u32 = 0x3ed7_0a3d;

/// Consecutive frames in which a pose must be seen before it becomes the mode.
pub const MODE_CONFIRM_FRAMES: u32 = 3;

pub const PALM_SETTLE: u64 = 200_000_000;

/// How far back motion is remembered.
pub const MOTION_WINDOW: u64 = 350_000_000;

/// Shortest time over which a speed is measured: the first length that, as a
/// single-precision number of seconds, is not below the one closest to 0.05.
pub const MOTION_MIN_SPAN: u64 = 49_999_998;

/// Wrists closer than 0.12 clap.
pub const CLAP_THRESHOLD: u32 = 0x3df5_c28f;

pub const CLAP_TIMEOUT: u64 = 1_500_000_000;

pub const CLAP_COOLDOWN: u64 = 300_000_000;

pub const AFTER_CLAP_WINDOW: u64 = 2_500_000_000;

/// The right hand must drop by more than 0.22 to confirm a shutdown.
pub const SHUTDOWN_DOWN_THRESHOLD: u32 = 0x3e61_47ae;

pub const SHUTDOWN_COOLDOWN: u64 = 5_000_000_000;

pub const VOICE_COOLDOWN: u64 = 10_000_000_000;

/// Landmarks of a completely tracked hand.
pub const LANDMARKS: usize = 21;

/// The number with this bit pattern.
pub open spec fn number(bits: u32) -> Scalar {
    Scalar { bits }
}

/// The number with this bit pattern.
pub fn threshold(bits: u32) -> (result: Scalar)
    ensures
        result == number(bits),
{
    Scalar { bits }
}

/// Time from `since` to `now`, and nothing where `since` is not in the past.
pub open spec fn span_of(now: u64, since: u64) -> int {
    if now >= since {
        now - since
    } else {
        0
    }
}

/// Time from `since` to `now`, and nothing where `since` is not in the past.
pub fn elapsed(now: u64, since: u64) -> (result: u64)
    ensures
        result == span_of(now, since),
{
    if now >= since {
        now - since
    } else {
        0
    }
}

/// Every threshold pattern stands for the number closest to its decimal.
pub proof fn law_thresholds_are_nearest()
    ensures
        number(MIN_HAND_SPAN).is_nearest(6, 100),
        number(PINCH_ON).is_nearest(55, 1000),
        number(PINCH_OFF).is_nearest(95, 1000),
        number(PINCH_PALM_REL_ON).is_nearest(35, 100),
        number(PINCH_PALM_REL_OFF).is_nearest(45, 100),
        number(PINCH_MIN_ANGLE_DEG).is_nearest(90, 1),
        number(MARGIN).is_nearest(8, 100),
        number(CURSOR_JITTER_PX).is_nearest(15, 10),
        number(SMOOTH_MIN).is_nearest(1, 10),
        number(SMOOTH_MAX).is_nearest(1, 1),
        number(SMOOTH_RANGE_PX).is_nearest(120, 1),
        number(SCROLL_TICK).is_nearest(35, 1000),
        number(SWIPE_DIST).is_nearest(18, 100),
        number(SWIPE_VEL).is_nearest(35, 100),
        number(SWIPE_REANCHOR).is_nearest(5, 100),
        number(FLIP_VEL).is_nearest(85, 100),
        number(FLIP_REST_VEL).is_nearest(425, 1000),
        2 * number(FLIP_REST_VEL).scaled() == number(FLIP_VEL).scaled(),
        number(DOMINANCE).is_nearest(13, 10),
        number(FIST_MAX_WRIST_Y).is_nearest(6, 10),
        number(FINGER_UP_DEG).is_nearest(135, 1),
        number(FINGER_DOWN_DEG).is_nearest(115, 1),
        number(EXT_RATIO_UP).is_nearest(6, 10),
        number(EXT_RATIO_DOWN).is_nearest(42, 100),
        number(CLAP_THRESHOLD).is_nearest(12, 100),
        number(SHUTDOWN_DOWN_THRESHOLD).is_nearest(22, 100),
{
    reveal(scaled_magnitude);
    lemma2_to64();
    lemma_pow2_unfold(125);
    assert(number(FLIP_REST_VEL).scaled() == 0xd9_999a * pow2(124));
    assert(number(FLIP_VEL).scaled() == 0xd9_999a * pow2(125));
}

/// Time adds up: what lies in the past lies back by as much as has passed since, and
/// what does not lies back by nothing.
pub proof fn law_time_adds_up(now: u64, since: u64)
    ensures
        since <= now ==> since + span_of(now, since) == now,
        now <= since ==> span_of(now, since) == 0,
{
}

} // verus!
