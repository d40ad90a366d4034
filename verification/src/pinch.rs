//! Pinching thumb and finger clicks.
use vstd::arithmetic::power2::{lemma_pow2_pos, pow2};
use vstd::prelude::*;

use crate::scalar::{
    law_rank_orders_numbers, law_rounding_keeps_order, law_rounding_passes_no_number, lemma_zero,
    Scalar,
};
use crate::settings::{
    elapsed, number, span_of, threshold, CLICK_COOLDOWN, PINCH_MIN_ANGLE_DEG, PINCH_OFF, PINCH_ON,
    PINCH_PALM_REL_OFF, PINCH_PALM_REL_ON,
};

verus! {

/// A mouse button that a pinch can click.
#[derive(Clone, Copy, Debug, PartialEq, Eq, Structural)]
pub enum PinchButton {
    /// Thumb and index finger.
    Left,
    /// Thumb and middle finger.
    Right,
}

/// Whether fingertips this far apart touch: closer than a fixed distance, or
/// closer than `reach`, which is `PINCH_PALM_REL_ON` palms.
pub open spec fn touching(gap: Scalar, reach: Scalar) -> bool {
    gap.below(number(PINCH_ON)) || gap.below(reach)
}

/// Whether fingertips this far apart have separated: beyond a fixed distance and
/// beyond `reach`, which is `PINCH_PALM_REL_OFF` palms.
pub open spec fn apart(gap: Scalar, reach: Scalar) -> bool {
    number(PINCH_OFF).below(gap) && reach.below(gap)
}

/// Whether fingertips touch.
pub fn pinch_closed(gap: Scalar, reach: Scalar) -> (result: bool)
    ensures
        result == touching(gap, reach),
{
    gap.lt(threshold(PINCH_ON)) || gap.lt(reach)
}

/// Whether fingertips have separated.
pub fn pinch_open(gap: Scalar, reach: Scalar) -> (result: bool)
    ensures
        result == apart(gap, reach),
{
    threshold(PINCH_OFF).lt(gap) && reach.lt(gap)
}

/// What is measured of one pinch in a frame.
#[derive(Clone, Copy, Debug, PartialEq, Eq, Structural)]
pub struct PinchReading {
    /// Angle of the finger's joint, in degrees.
    pub angle: Scalar,
    /// Distance of the fingertip from the thumb's.
    pub gap: Scalar,
    /// `PINCH_PALM_REL_ON` palms.
    pub close_reach: Scalar,
    /// `PINCH_PALM_REL_OFF` palms.
    pub open_reach: Scalar,
}

impl PinchReading {
    /// Whether the finger is not folded away.
    pub open spec fn unfolded(self) -> bool {
        number(PINCH_MIN_ANGLE_DEG).below(self.angle)
    }

    /// Whether the finger is not folded away.
    pub fn is_unfolded(&self) -> (result: bool)
        ensures
            result == self.unfolded(),
    {
        threshold(PINCH_MIN_ANGLE_DEG).lt(self.angle)
    }
}

/// Which buttons may click, and when the last click was.
#[derive(Clone, Copy, Debug, PartialEq, Eq, Structural)]
pub struct PinchState {
    pub left_armed: bool,
    pub right_armed: bool,
    pub last_click: u64,
}

impl PinchState {
    /// Whether the button may click.
    pub open spec fn armed(self, button: PinchButton) -> bool {
        match button {
            PinchButton::Left => self.left_armed,
            PinchButton::Right => self.right_armed,
        }
    }

    /// The state with the button armed or not.
    pub open spec fn with_armed(self, button: PinchButton, armed: bool) -> PinchState {
        match button {
            PinchButton::Left => PinchState { left_armed: armed, ..self },
            PinchButton::Right => PinchState { right_armed: armed, ..self },
        }
    }

    /// Whether the last click is long enough ago.
    pub open spec fn rested(self, now: u64) -> bool {
        span_of(now, self.last_click) > CLICK_COOLDOWN
    }

    /// Whether the pinch clicks, given that the last click is long enough ago.
    pub open spec fn due(self, button: PinchButton, rested: bool, r: PinchReading) -> bool {
        self.armed(button) && rested && r.unfolded() && touching(r.gap, r.close_reach)
    }

    /// The state after a frame in which the pinch did not click.
    pub open spec fn released(self, button: PinchButton, r: PinchReading) -> PinchState {
        if apart(r.gap, r.open_reach) {
            self.with_armed(button, true)
        } else {
            self
        }
    }

    /// The state after a click.
    pub open spec fn clicked(self, button: PinchButton, now: u64) -> PinchState {
        PinchState { last_click: now, ..self.with_armed(button, false) }
    }

    /// Whether the last click is long enough ago.
    pub fn is_rested(&self, now: u64) -> (result: bool)
        ensures
            result == self.rested(now),
    {
        elapsed(now, self.last_click) > CLICK_COOLDOWN
    }

    /// Takes in one pinch. Returns whether to click now.
    pub fn watch(&mut self, button: PinchButton, rested: bool, r: PinchReading) -> (due: bool)
        ensures
            due == old(self).due(button, rested, r),
            *final(self) == if due {
                *old(self)
            } else {
                old(self).released(button, r)
            },
    {
        let armed = match button {
            PinchButton::Left => self.left_armed,
            PinchButton::Right => self.right_armed,
        };
        if armed && rested && r.is_unfolded() && pinch_closed(r.gap, r.close_reach) {
            return true;
        }
        if pinch_open(r.gap, r.open_reach) {
            self.set_armed(button, true);
        }
        false
    }

    fn set_armed(&mut self, button: PinchButton, armed: bool)
        ensures
            *final(self) == old(self).with_armed(button, armed),
    {
        match button {
            PinchButton::Left => {
                self.left_armed = armed;
            },
            PinchButton::Right => {
                self.right_armed = armed;
            },
        }
    }

    /// Records a click.
    pub fn click(&mut self, button: PinchButton, now: u64)
        ensures
            *final(self) == old(self).clicked(button, now),
    {
        self.last_click = now;
        self.set_armed(button, false);
    }
}

/// A frame as far as pinches go. A fist suppresses both of them; `left_done` and
/// `right_done` are whether a click that was due could be made.
pub struct PinchFrame {
    pub now: u64,
    pub fist: bool,
    pub left: PinchReading,
    pub right: PinchReading,
    pub left_done: bool,
    pub right_done: bool,
}

impl PinchFrame {
    /// What is measured of one pinch.
    pub open spec fn reading(self, button: PinchButton) -> PinchReading {
        match button {
            PinchButton::Left => self.left,
            PinchButton::Right => self.right,
        }
    }
}

/// The state after one pinch of a frame, and whether it clicked.
pub open spec fn after_pinch(
    s: PinchState,
    button: PinchButton,
    rested: bool,
    r: PinchReading,
    now: u64,
    done: bool,
) -> (PinchState, bool) {
    if !s.due(button, rested, r) {
        (s.released(button, r), false)
    } else if done {
        (s.clicked(button, now), true)
    } else {
        (s, false)
    }
}

/// The state after a frame, and which buttons clicked in it. A click that fails
/// ends the frame; both pinches share one look at the cooldown.
pub open spec fn after_frame(s: PinchState, f: PinchFrame) -> (PinchState, bool, bool) {
    if f.fist {
        (s, false, false)
    } else {
        let rested = s.rested(f.now);
        let (s1, left) = after_pinch(s, PinchButton::Left, rested, f.left, f.now, f.left_done);
        if s.due(PinchButton::Left, rested, f.left) && !f.left_done {
            (s1, false, false)
        } else {
            let (s2, right) = after_pinch(
                s1,
                PinchButton::Right,
                rested,
                f.right,
                f.now,
                f.right_done,
            );
            (s2, left, right)
        }
    }
}

/// The state after a sequence of frames.
pub open spec fn after_frames(start: PinchState, frames: Seq<PinchFrame>) -> PinchState
    decreases frames.len(),
{
    if frames.len() == 0 {
        start
    } else {
        after_frame(after_frames(start, frames.drop_last()), frames.last()).0
    }
}

/// Whether the frame at this position clicked the button.
pub open spec fn clicks_at(
    start: PinchState,
    frames: Seq<PinchFrame>,
    button: PinchButton,
    k: int,
) -> bool {
    let (_, left, right) = after_frame(after_frames(start, frames.take(k)), frames[k]);
    match button {
        PinchButton::Left => left,
        PinchButton::Right => right,
    }
}

/// No phantom clicks: a click needs a hand that is no fist, a finger that is not
/// folded away, fingertips that touch, and a button that is armed.
pub proof fn law_click_needs_real_pinch(s: PinchState, f: PinchFrame)
    ensures
        after_frame(s, f).1 ==> !f.fist && f.left.unfolded() && touching(
            f.left.gap,
            f.left.close_reach,
        ) && s.left_armed && s.rested(f.now),
        after_frame(s, f).2 ==> !f.fist && f.right.unfolded() && touching(
            f.right.gap,
            f.right.close_reach,
        ) && s.right_armed && s.rested(f.now),
{
}

/// The band between touching and apart is real: where the re-arming reach is no
/// shorter than the firing one, no gap is both.
pub proof fn law_touching_is_not_apart(gap: Scalar, close_reach: Scalar, open_reach: Scalar)
    requires
        close_reach.at_most(open_reach),
    ensures
        !(touching(gap, close_reach) && apart(gap, open_reach)),
{
}

/// Firing and re-arming never hold together: where both reaches are measured by one
/// palm, fingertips that touch are not apart, and bringing them closer keeps it so.
pub proof fn law_closer_tips_never_rearm(
    palm: Scalar,
    close_reach: Scalar,
    open_reach: Scalar,
    gap: Scalar,
    closer: Scalar,
)
    requires
        palm.is_finite(),
        close_reach.is_product(number(PINCH_PALM_REL_ON), palm),
        open_reach.is_product(number(PINCH_PALM_REL_OFF), palm),
        touching(gap, close_reach),
        closer.at_most(gap),
    ensures
        touching(closer, close_reach),
        !apart(closer, open_reach),
{
    let on = number(PINCH_PALM_REL_ON).scaled();
    let off = number(PINCH_PALM_REL_OFF).scaled();
    let size = palm.scaled();
    let den = pow2(149) as int;
    lemma_pow2_pos(149);
    lemma_zero(number(0));
    law_rank_orders_numbers(number(0), number(PINCH_PALM_REL_ON));
    law_rank_orders_numbers(number(PINCH_PALM_REL_ON), number(PINCH_PALM_REL_OFF));
    assert(0 < on < off);
    if size > 0 {
        assert(on * size < off * size) by (nonlinear_arith)
            requires
                on < off,
                size > 0,
        ;
        law_rounding_keeps_order(close_reach, on * size, open_reach, off * size, den);
    } else {
        assert(on * size <= 0) by (nonlinear_arith)
            requires
                on > 0,
                size <= 0,
        ;
        law_rounding_passes_no_number(close_reach, on * size, den, number(0));
    }
}

proof fn lemma_stays_disarmed(
    start: PinchState,
    frames: Seq<PinchFrame>,
    button: PinchButton,
    i: int,
    k: int,
)
    requires
        0 <= i < k <= frames.len(),
        clicks_at(start, frames, button, i),
        forall|m: int|
            i < m < k ==> (#[trigger] frames[m]).fist || !apart(
                frames[m].reading(button).gap,
                frames[m].reading(button).open_reach,
            ),
    ensures
        !after_frames(start, frames.take(k)).armed(button),
    decreases k,
{
    assert(frames.take(k).drop_last() == frames.take(k - 1));
    assert(frames.take(k).last() == frames[k - 1]);
    if i < k - 1 {
        lemma_stays_disarmed(start, frames, button, i, k - 1);
    }
}

/// No machine-gun clicking: between two clicks of a button there is a frame in
/// which its fingertips were apart.
pub proof fn law_click_rearms_only_when_apart(
    start: PinchState,
    frames: Seq<PinchFrame>,
    button: PinchButton,
    i: int,
    k: int,
)
    requires
        0 <= i < k < frames.len(),
        clicks_at(start, frames, button, i),
        clicks_at(start, frames, button, k),
    ensures
        exists|m: int|
            i < m < k && !(#[trigger] frames[m]).fist && apart(
                frames[m].reading(button).gap,
                frames[m].reading(button).open_reach,
            ),
{
    if !(exists|m: int|
        i < m < k && !(#[trigger] frames[m]).fist && apart(
            frames[m].reading(button).gap,
            frames[m].reading(button).open_reach,
        )) {
        lemma_stays_disarmed(start, frames, button, i, k);
    }
}

proof fn lemma_last_click_is_latest(
    start: PinchState,
    frames: Seq<PinchFrame>,
    button: PinchButton,
    i: int,
    k: int,
)
    requires
        0 <= i < k <= frames.len(),
        clicks_at(start, frames, button, i),
    ensures
        frames[i].now <= after_frames(start, frames.take(k)).last_click,
    decreases k,
{
    assert(frames.take(k).drop_last() == frames.take(k - 1));
    assert(frames.take(k).last() == frames[k - 1]);
    if i < k - 1 {
        lemma_last_click_is_latest(start, frames, button, i, k - 1);
    }
}

/// Clicks in different frames, of whichever buttons, are more than the cooldown
/// apart.
pub proof fn law_clicks_keep_their_distance(
    start: PinchState,
    frames: Seq<PinchFrame>,
    first: PinchButton,
    second: PinchButton,
    i: int,
    k: int,
)
    requires
        0 <= i < k < frames.len(),
        clicks_at(start, frames, first, i),
        clicks_at(start, frames, second, k),
    ensures
        frames[k].now - frames[i].now > CLICK_COOLDOWN,
{
    lemma_last_click_is_latest(start, frames, first, i, k);
}

/// Fingertips touch by either measure, and are apart by both only.
pub proof fn law_touch_by_either_apart_by_both(gap: Scalar, reach: Scalar)
    ensures
        touching(gap, reach) <==> gap.below(number(PINCH_ON)) || gap.below(reach),
        apart(gap, reach) <==> number(PINCH_OFF).below(gap) && reach.below(gap),
{
}

/// A button clicks exactly if it is armed, the last click was more than the cooldown
/// ago, its finger is not folded away, and its tips touch.
pub proof fn law_armed_pinch_clicks(s: PinchState, now: u64, r: PinchReading)
    ensures
        s.rested(now) <==> now > s.last_click + CLICK_COOLDOWN,
        s.due(PinchButton::Left, s.rested(now), r) <==> s.left_armed && now > s.last_click
            + CLICK_COOLDOWN && number(PINCH_MIN_ANGLE_DEG).below(r.angle) && (r.gap.below(
            number(PINCH_ON),
        ) || r.gap.below(r.close_reach)),
        s.due(PinchButton::Right, s.rested(now), r) <==> s.right_armed && now > s.last_click
            + CLICK_COOLDOWN && number(PINCH_MIN_ANGLE_DEG).below(r.angle) && (r.gap.below(
            number(PINCH_ON),
        ) || r.gap.below(r.close_reach)),
{
}

/// A click disarms its own button and sets the time of the last click; tips apart arm
/// their own button; nothing else changes.
pub proof fn law_buttons_arm_one_by_one(s: PinchState, r: PinchReading, now: u64)
    ensures
        s.clicked(PinchButton::Left, now) == (PinchState {
            left_armed: false,
            right_armed: s.right_armed,
            last_click: now,
        }),
        s.clicked(PinchButton::Right, now) == (PinchState {
            left_armed: s.left_armed,
            right_armed: false,
            last_click: now,
        }),
        s.released(PinchButton::Left, r) == (PinchState {
            left_armed: s.left_armed || (number(PINCH_OFF).below(r.gap) && r.open_reach.below(
                r.gap,
            )),
            ..s
        }),
        s.released(PinchButton::Right, r) == (PinchState {
            right_armed: s.right_armed || (number(PINCH_OFF).below(r.gap) && r.open_reach.below(
                r.gap,
            )),
            ..s
        }),
{
}

} // verus!
