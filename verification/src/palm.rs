//! An open palm: a sideways swipe switches the workspace, a flip up or down steps
//! the volume.
use vstd::arithmetic::power2::{lemma2_to64, lemma_pow2_adds, lemma_pow2_pos, pow2};
use vstd::prelude::*;

use crate::hand::Point;
use crate::scalar::{
    law_rank_orders_numbers, law_rounding_passes_no_number, lemma_zero, scaled_magnitude, Scalar,
    INFINITY_BITS,
};
use crate::settings::{
    elapsed, number, span_of, threshold, DOMINANCE, FLIP_REST_VEL, FLIP_VEL, PALM_SETTLE, SWIPE_DIST,
    SWIPE_VEL, VOLUME_FLIP_COOLDOWN, WORKSPACE_COOLDOWN,
};

verus! {

/// Which way the palm was swiped.
#[derive(Clone, Copy, Debug, PartialEq, Eq, Structural)]
pub enum SwipeDirection {
    Left,
    Right,
}

impl SwipeDirection {
    /// Name of the direction.
    pub open spec fn name(self) -> Seq<char> {
        match self {
            SwipeDirection::Left => "left"@,
            SwipeDirection::Right => "right"@,
        }
    }

    /// Name of the direction.
    pub fn label(self) -> (text: &'static str)
        ensures
            text@ == self.name(),
    {
        match self {
            SwipeDirection::Left => "left",
            SwipeDirection::Right => "right",
        }
    }
}

/// How the palm moves, in parts of the view and seconds.
#[derive(Clone, Copy, Debug, PartialEq, Eq, Structural)]
pub struct PalmMotion {
    pub vx: Scalar,
    pub vy: Scalar,
    /// `DOMINANCE` times the horizontal speed: what a vertical speed must beat.
    pub lead_x: Scalar,
    /// `DOMINANCE` times the vertical speed: what a horizontal speed must beat.
    pub lead_y: Scalar,
    /// Horizontal way from the anchor, where there is one.
    pub dx: Scalar,
    /// The anchor moved by `SWIPE_REANCHOR` of the way, where there is one.
    pub eased: Point,
}

/// Outcome of one step of swipe tracking.
#[derive(Clone, Copy, Debug, PartialEq, Eq, Structural)]
pub enum SwipeOutcome {
    /// The hand is swiping but has not gone far enough.
    Hold,
    /// Switch the workspace.
    Fire(SwipeDirection),
    /// Not swiping: the anchor follows the hand.
    Reanchor(Point),
}

/// Whether the palm is swiped: fast enough, and along the horizontal.
pub open spec fn swiping(vx: Scalar, lead_y: Scalar) -> bool {
    number(SWIPE_VEL).below(vx.unsigned()) && lead_y.below(vx.unsigned())
}

/// Outcome of one step of swipe tracking.
pub open spec fn swipe_outcome(
    vx: Scalar,
    lead_y: Scalar,
    dx: Scalar,
    eased: Point,
) -> SwipeOutcome {
    if !swiping(vx, lead_y) {
        SwipeOutcome::Reanchor(eased)
    } else if !number(SWIPE_DIST).at_most(dx.unsigned()) {
        SwipeOutcome::Hold
    } else if number(0).below(dx) {
        SwipeOutcome::Fire(SwipeDirection::Right)
    } else {
        SwipeOutcome::Fire(SwipeDirection::Left)
    }
}

/// One step of swipe tracking: `vx` is the horizontal speed, `lead_y` what it must
/// beat, `dx` the way from the anchor, and `eased` where the anchor drifts to.
pub fn swipe_step(vx: Scalar, lead_y: Scalar, dx: Scalar, eased: Point) -> (outcome: SwipeOutcome)
    ensures
        outcome == swipe_outcome(vx, lead_y, dx, eased),
{
    let speed = vx.abs();
    if !(threshold(SWIPE_VEL).lt(speed) && lead_y.lt(speed)) {
        return SwipeOutcome::Reanchor(eased);
    }
    if threshold(SWIPE_DIST).le(dx.abs()) {
        if threshold(0).lt(dx) {
            SwipeOutcome::Fire(SwipeDirection::Right)
        } else {
            SwipeOutcome::Fire(SwipeDirection::Left)
        }
    } else {
        SwipeOutcome::Hold
    }
}

/// Whether the palm is flipped: fast enough, and along the vertical.
pub open spec fn flipping(vy: Scalar, lead_x: Scalar) -> bool {
    number(FLIP_VEL).below(vy.unsigned()) && lead_x.below(vy.unsigned())
}

/// Whether the palm has calmed down enough for the next flip.
pub open spec fn calm(vy: Scalar) -> bool {
    vy.unsigned().below(number(FLIP_REST_VEL))
}

/// Swipe and volume tracking of an open palm.
#[derive(Clone, Copy, Debug, PartialEq, Eq, Structural)]
pub struct PalmState {
    pub anchor: Option<Point>,
    pub vol_armed: bool,
    pub since: Option<u64>,
    pub last_switch: u64,
    pub last_flip: u64,
}

impl PalmState {
    /// Whether the palm is too young to act.
    pub open spec fn settling(self, now: u64) -> bool {
        span_of(now, self.since.unwrap_or(now)) < PALM_SETTLE
    }

    /// The state with the anchor there, or without one.
    pub open spec fn anchored(self, anchor: Option<Point>) -> PalmState {
        PalmState { anchor, ..self }
    }

    /// The outcome of swipe tracking, once there is an anchor.
    pub open spec fn outcome(self, m: PalmMotion) -> Option<SwipeOutcome> {
        if self.anchor is None {
            None
        } else {
            Some(swipe_outcome(m.vx, m.lead_y, m.dx, m.eased))
        }
    }

    /// The workspace switch that is due: a swipe that went far enough, long enough
    /// after the last switch.
    pub open spec fn switch_due(self, m: PalmMotion, now: u64) -> Option<SwipeDirection> {
        match self.outcome(m) {
            Some(SwipeOutcome::Fire(d)) if span_of(now, self.last_switch) > WORKSPACE_COOLDOWN =>
                Some(d),
            _ => None,
        }
    }

    /// The state after swipe tracking in a frame without a switch.
    pub open spec fn followed(self, m: PalmMotion, pos: Point) -> PalmState {
        match self.outcome(m) {
            None => self.anchored(Some(pos)),
            Some(SwipeOutcome::Hold) => self,
            Some(SwipeOutcome::Reanchor(a)) => self.anchored(Some(a)),
            Some(SwipeOutcome::Fire(_)) => self.anchored(Some(pos)),
        }
    }

    /// The state after a switch: the next swipe starts where this one ended.
    pub open spec fn switched(self, pos: Point, now: u64) -> PalmState {
        PalmState { anchor: Some(pos), last_switch: now, ..self }
    }

    /// The volume step that is due; true is up.
    pub open spec fn flip_due(self, m: PalmMotion, now: u64) -> Option<bool> {
        if flipping(m.vy, m.lead_x) && self.vol_armed && span_of(now, self.last_flip)
            > VOLUME_FLIP_COOLDOWN {
            Some(m.vy.below(number(0)))
        } else {
            None
        }
    }

    /// The state after a frame without a volume step.
    pub open spec fn unflipped(self, m: PalmMotion) -> PalmState {
        if !flipping(m.vy, m.lead_x) && calm(m.vy) {
            PalmState { vol_armed: true, ..self }
        } else {
            self
        }
    }

    /// The state after a volume step.
    pub open spec fn flipped(self, now: u64) -> PalmState {
        PalmState { vol_armed: false, last_flip: now, ..self }
    }

    /// The state after losing the hand.
    pub open spec fn lost(self) -> PalmState {
        PalmState { anchor: None, vol_armed: true, since: None, ..self }
    }

    /// Whether the palm is too young to act.
    pub fn is_settling(&self, now: u64) -> (result: bool)
        ensures
            result == self.settling(now),
    {
        let since = match self.since {
            Some(t) => t,
            None => now,
        };
        elapsed(now, since) < PALM_SETTLE
    }

    /// Tracks the swipe. Returns the workspace switch to make now, if any; nothing
    /// changes until it is made.
    pub fn track(&mut self, m: PalmMotion, pos: Point, now: u64) -> (due: Option<SwipeDirection>)
        ensures
            due == old(self).switch_due(m, now),
            *final(self) == if due is Some {
                *old(self)
            } else {
                old(self).followed(m, pos)
            },
    {
        match self.anchor {
            None => {
                self.anchor = Some(pos);
                None
            },
            Some(_) => match swipe_step(m.vx, m.lead_y, m.dx, m.eased) {
                SwipeOutcome::Hold => None,
                SwipeOutcome::Reanchor(a) => {
                    self.anchor = Some(a);
                    None
                },
                SwipeOutcome::Fire(d) => {
                    if elapsed(now, self.last_switch) > WORKSPACE_COOLDOWN {
                        Some(d)
                    } else {
                        self.anchor = Some(pos);
                        None
                    }
                },
            },
        }
    }

    /// Records a workspace switch.
    pub fn switch(&mut self, pos: Point, now: u64)
        ensures
            *final(self) == old(self).switched(pos, now),
    {
        self.last_switch = now;
        self.anchor = Some(pos);
    }

    /// Watches for a flip. Returns the volume step to make now, if any (true is
    /// up); nothing changes until it is made.
    pub fn watch_flip(&mut self, m: PalmMotion, now: u64) -> (due: Option<bool>)
        ensures
            due == old(self).flip_due(m, now),
            *final(self) == if due is Some {
                *old(self)
            } else {
                old(self).unflipped(m)
            },
    {
        let speed = m.vy.abs();
        let flipping_now = threshold(FLIP_VEL).lt(speed) && m.lead_x.lt(speed);
        if flipping_now && self.vol_armed && elapsed(now, self.last_flip) > VOLUME_FLIP_COOLDOWN {
            return Some(m.vy.lt(threshold(0)));
        }
        if !flipping_now && speed.lt(threshold(FLIP_REST_VEL)) {
            self.vol_armed = true;
        }
        None
    }

    /// Records a volume step.
    pub fn flip(&mut self, now: u64)
        ensures
            *final(self) == old(self).flipped(now),
    {
        self.last_flip = now;
        self.vol_armed = false;
    }

    /// Forgets the swipe and arms the volume.
    pub fn lose(&mut self)
        ensures
            *final(self) == old(self).lost(),
    {
        self.anchor = None;
        self.vol_armed = true;
        self.since = None;
    }
}

/// Slow drift never switches the workspace, however far it has gone: it only
/// moves the anchor.
pub proof fn law_slow_drift_never_fires(vx: Scalar, lead_y: Scalar, dx: Scalar, eased: Point)
    requires
        vx.unsigned().at_most(number(SWIPE_VEL)),
    ensures
        swipe_outcome(vx, lead_y, dx, eased) == SwipeOutcome::Reanchor(eased),
{
}

/// Vertical motion never switches the workspace: the horizontal speed must beat
/// the vertical one by the dominance factor.
pub proof fn law_vertical_motion_never_fires(vx: Scalar, lead_y: Scalar, dx: Scalar, eased: Point)
    requires
        vx.unsigned().at_most(lead_y),
    ensures
        swipe_outcome(vx, lead_y, dx, eased) == SwipeOutcome::Reanchor(eased),
{
}

/// A switch follows the swipe: it goes the way the palm went, and the palm went
/// at least `SWIPE_DIST`.
pub proof fn law_switch_follows_travel(vx: Scalar, lead_y: Scalar, dx: Scalar, eased: Point)
    requires
        swipe_outcome(vx, lead_y, dx, eased) is Fire,
    ensures
        number(SWIPE_DIST).at_most(dx.unsigned()),
        swipe_outcome(vx, lead_y, dx, eased) == SwipeOutcome::Fire(SwipeDirection::Right) <==> number(
            0,
        ).below(dx),
{
}

/// The volume follows the flip: a palm that flies up (y grows downwards) steps it
/// up, one that flies down steps it down, and slower ones step nothing.
pub proof fn law_volume_follows_flip(s: PalmState, m: PalmMotion, now: u64)
    ensures
        s.flip_due(m, now) matches Some(up) ==> number(FLIP_VEL).below(m.vy.unsigned()) && (up
            <==> m.vy.below(number(0))) && (!up <==> number(0).below(m.vy)),
        m.vy.unsigned().at_most(number(FLIP_VEL)) ==> s.flip_due(m, now) is None,
{
}

/// A palm that is merely held or turned does nothing: unless it is faster than a
/// swipe or a flip must be, there is neither a switch nor a volume step, and once it
/// is calm the next flip is armed.
pub proof fn law_still_palm_does_nothing(s: PalmState, m: PalmMotion, now: u64)
    requires
        m.vx.unsigned().at_most(number(SWIPE_VEL)),
        m.vy.unsigned().at_most(number(FLIP_VEL)),
    ensures
        s.switch_due(m, now) is None,
        s.flip_due(m, now) is None,
        calm(m.vy) ==> s.unflipped(m).vol_armed,
{
}

/// Whether `lead` is what `DOMINANCE` times this speed rounds to: infinity where the
/// product is too large, and no number where the speed is none.
pub open spec fn leads(lead: Scalar, speed: Scalar) -> bool {
    if speed.is_nan() {
        lead.is_nan()
    } else {
        lead == number(INFINITY_BITS) || (speed.is_finite() && lead.is_product(
            number(DOMINANCE),
            speed,
        ))
    }
}

/// Whether both speeds to beat are computed from the speeds.
pub open spec fn measured(m: PalmMotion) -> bool {
    leads(m.lead_x, m.vx.unsigned()) && leads(m.lead_y, m.vy.unsigned())
}

proof fn lemma_lead_is_no_smaller(lead: Scalar, speed: Scalar)
    requires
        leads(lead, speed),
        !speed.is_nan(),
        number(0).at_most(speed),
    ensures
        speed.at_most(lead),
{
    if lead != number(INFINITY_BITS) {
        let factor = number(DOMINANCE).scaled();
        let size = speed.scaled();
        let den = pow2(149) as int;
        lemma_pow2_pos(149);
        lemma_zero(number(0));
        law_rank_orders_numbers(number(0), speed);
        assert(den <= factor) by {
            lemma2_to64();
            lemma_pow2_adds(23, 126);
            lemma_pow2_pos(126);
            reveal(scaled_magnitude);
            assert(factor == 0xa6_6666 * pow2(126));
        }
        assert(size * den <= factor * size) by (nonlinear_arith)
            requires
                den <= factor,
                0 <= size,
        ;
        law_rounding_passes_no_number(lead, factor * size, den, speed);
    }
}

/// One motion is a swipe or a flip, never both: the axis that wins must beat the
/// other one by more than its own speed.
pub proof fn law_swipe_is_no_flip(m: PalmMotion)
    requires
        measured(m),
    ensures
        !(swiping(m.vx, m.lead_y) && flipping(m.vy, m.lead_x)),
{
    if !m.vx.is_nan() && !m.vy.is_nan() {
        lemma_lead_is_no_smaller(m.lead_x, m.vx.unsigned());
        lemma_lead_is_no_smaller(m.lead_y, m.vy.unsigned());
    }
}

/// What can happen to an open palm, as far as it matters.
pub enum PalmEvent {
    /// A settled frame. `switched` and `stepped` are whether a switch or a volume
    /// step that was due could be made; a switch that fails ends the frame.
    Frame { m: PalmMotion, pos: Point, now: u64, switched: bool, stepped: bool },
    /// A frame in which the palm is too young to act.
    Settling { pos: Point },
    /// The palm was entered or left.
    Moved { anchor: Option<Point>, since: Option<u64> },
    /// No hand in view.
    Lost,
}

impl PalmEvent {
    /// When the frame was seen.
    pub open spec fn time(self) -> u64 {
        match self {
            PalmEvent::Frame { now, .. } => now,
            _ => 0,
        }
    }

    /// Whether a calm frame, or the loss of the hand, arms the next flip.
    pub open spec fn arms(self) -> bool {
        match self {
            PalmEvent::Frame { m, .. } => !flipping(m.vy, m.lead_x) && calm(m.vy),
            PalmEvent::Lost => true,
            _ => false,
        }
    }
}

/// The state after one event, whether the workspace was switched in it, and
/// whether the volume was stepped in it.
pub open spec fn after_event(s: PalmState, event: PalmEvent) -> (PalmState, bool, bool) {
    match event {
        PalmEvent::Frame { m, pos, now, switched, stepped } => {
            let due = s.switch_due(m, now) is Some;
            if due && !switched {
                (s, false, false)
            } else {
                let s1 = if due {
                    s.switched(pos, now)
                } else {
                    s.followed(m, pos)
                };
                if s1.flip_due(m, now) is None {
                    (s1.unflipped(m), due, false)
                } else if stepped {
                    (s1.flipped(now), due, true)
                } else {
                    (s1, due, false)
                }
            }
        },
        PalmEvent::Settling { pos } => (s.anchored(Some(pos)), false, false),
        PalmEvent::Moved { anchor, since } => (PalmState { anchor, since, ..s }, false, false),
        PalmEvent::Lost => (s.lost(), false, false),
    }
}

/// A frame switches the workspace or steps the volume, never both.
pub proof fn law_frame_switches_or_steps(s: PalmState, event: PalmEvent)
    requires
        event matches PalmEvent::Frame { m, .. } ==> measured(m),
    ensures
        !(after_event(s, event).1 && after_event(s, event).2),
{
    if let PalmEvent::Frame { m, .. } = event {
        law_swipe_is_no_flip(m);
    }
}

/// The state after a sequence of events.
pub open spec fn after_events(start: PalmState, events: Seq<PalmEvent>) -> PalmState
    decreases events.len(),
{
    if events.len() == 0 {
        start
    } else {
        after_event(after_events(start, events.drop_last()), events.last()).0
    }
}

/// Whether the workspace was switched at this position.
pub open spec fn switched_at(start: PalmState, events: Seq<PalmEvent>, k: int) -> bool {
    after_event(after_events(start, events.take(k)), events[k]).1
}

/// Whether the volume was stepped at this position.
pub open spec fn stepped_at(start: PalmState, events: Seq<PalmEvent>, k: int) -> bool {
    after_event(after_events(start, events.take(k)), events[k]).2
}

proof fn lemma_last_times_are_latest(start: PalmState, events: Seq<PalmEvent>, i: int, k: int)
    requires
        0 <= i < k <= events.len(),
    ensures
        switched_at(start, events, i) ==> events[i].time() <= after_events(
            start,
            events.take(k),
        ).last_switch,
        stepped_at(start, events, i) ==> events[i].time() <= after_events(
            start,
            events.take(k),
        ).last_flip,
    decreases k,
{
    assert(events.take(k).drop_last() == events.take(k - 1));
    assert(events.take(k).last() == events[k - 1]);
    if i < k - 1 {
        lemma_last_times_are_latest(start, events, i, k - 1);
    }
}

/// Workspace switches are more than their cooldown apart, and so are volume steps.
pub proof fn law_palm_actions_keep_their_distance(
    start: PalmState,
    events: Seq<PalmEvent>,
    i: int,
    k: int,
)
    requires
        0 <= i < k < events.len(),
    ensures
        switched_at(start, events, i) && switched_at(start, events, k) ==> events[k].time()
            - events[i].time() > WORKSPACE_COOLDOWN,
        stepped_at(start, events, i) && stepped_at(start, events, k) ==> events[k].time()
            - events[i].time() > VOLUME_FLIP_COOLDOWN,
{
    lemma_last_times_are_latest(start, events, i, k);
}

proof fn lemma_volume_stays_disarmed(start: PalmState, events: Seq<PalmEvent>, i: int, k: int)
    requires
        0 <= i < k <= events.len(),
        stepped_at(start, events, i),
        forall|m: int| i < m < k ==> !(#[trigger] events[m]).arms(),
    ensures
        !after_events(start, events.take(k)).vol_armed,
    decreases k,
{
    assert(events.take(k).drop_last() == events.take(k - 1));
    assert(events.take(k).last() == events[k - 1]);
    if i < k - 1 {
        lemma_volume_stays_disarmed(start, events, i, k - 1);
    }
}

/// One flip steps the volume once: between two steps the palm calmed down, or the
/// hand left the view.
pub proof fn law_one_step_per_flip(start: PalmState, events: Seq<PalmEvent>, i: int, k: int)
    requires
        0 <= i < k < events.len(),
        stepped_at(start, events, i),
        stepped_at(start, events, k),
    ensures
        exists|m: int| i < m < k && (#[trigger] events[m]).arms(),
{
    if !(exists|m: int| i < m < k && (#[trigger] events[m]).arms()) {
        lemma_volume_stays_disarmed(start, events, i, k);
    }
}

/// What a settled palm with an anchor is asked for: a switch exactly if it moves
/// sideways fast enough, has gone at least `SWIPE_DIST` from the anchor, and the last
/// switch was more than the cooldown ago. It goes right if the palm went right.
pub proof fn law_far_swipe_switches(s: PalmState, m: PalmMotion, now: u64)
    ensures
        s.switch_due(m, now) is Some <==> {
            &&& s.anchor is Some
            &&& number(SWIPE_VEL).below(m.vx.unsigned())
            &&& m.lead_y.below(m.vx.unsigned())
            &&& number(SWIPE_DIST).at_most(m.dx.unsigned())
            &&& now > s.last_switch + WORKSPACE_COOLDOWN
        },
        s.switch_due(m, now) == Some(SwipeDirection::Right) ==> number(SWIPE_DIST).at_most(m.dx),
        s.switch_due(m, now) == Some(SwipeDirection::Left) ==> !number(0).below(m.dx)
            && m.dx.bits >= 0x8000_0000,
{
}

/// Where the anchor goes in a frame without a switch: to the palm where there was none,
/// along with a palm that is not swiping, and to the palm at the end of a swipe that
/// comes too soon. A swipe that has not gone far enough leaves it exactly where it was.
pub proof fn law_anchor_waits_for_the_swipe(s: PalmState, m: PalmMotion, pos: Point)
    ensures
        ({
            let swipes = number(SWIPE_VEL).below(m.vx.unsigned()) && m.lead_y.below(
                m.vx.unsigned(),
            );
            let far = number(SWIPE_DIST).at_most(m.dx.unsigned());
            let after = s.followed(m, pos);
            &&& s.anchor is None ==> after.anchor == Some(pos)
            &&& s.anchor is Some && !swipes ==> after.anchor == Some(m.eased)
            &&& s.anchor is Some && swipes && !far ==> after.anchor == s.anchor
            &&& s.anchor is Some && swipes && far ==> after.anchor == Some(pos)
            &&& after == (PalmState { anchor: after.anchor, ..s })
        }),
{
}

/// A flip that is due: the palm moves up or down fast enough, is armed, and the last
/// step was more than the cooldown ago. Up is where y shrinks.
pub proof fn law_armed_flip_steps(s: PalmState, m: PalmMotion, now: u64)
    ensures
        s.flip_due(m, now) is Some <==> {
            &&& number(FLIP_VEL).below(m.vy.unsigned())
            &&& m.lead_x.below(m.vy.unsigned())
            &&& s.vol_armed
            &&& now > s.last_flip + VOLUME_FLIP_COOLDOWN
        },
        s.flip_due(m, now) == Some(true) ==> m.vy.bits >= 0x8000_0000,
        s.flip_due(m, now) == Some(false) ==> m.vy.bits < 0x8000_0000,
{
}

/// What arms the next flip: a palm that does not flip and is slower than half the speed
/// of a flip. Nothing else changes in a frame without a step.
pub proof fn law_calm_palm_arms_the_flip(s: PalmState, m: PalmMotion)
    ensures
        s.unflipped(m) == (PalmState {
            vol_armed: s.vol_armed || (m.vy.unsigned().below(number(FLIP_REST_VEL)) && !(number(
                FLIP_VEL,
            ).below(m.vy.unsigned()) && m.lead_x.below(m.vy.unsigned()))),
            ..s
        }),
{
}

/// What actions leave behind: a switch sets its time and anchors the next swipe where
/// the palm is; a step sets its time and disarms the flip; a lost hand forgets the swipe
/// and arms the flip. Times of actions are never forgotten.
pub proof fn law_palm_actions_are_recorded(s: PalmState, pos: Point, now: u64)
    ensures
        s.switched(pos, now) == (PalmState { anchor: Some(pos), last_switch: now, ..s }),
        s.flipped(now) == (PalmState { vol_armed: false, last_flip: now, ..s }),
        s.lost() == (PalmState { anchor: None, vol_armed: true, since: None, ..s }),
        s.settling(now) <==> (s.since matches Some(t) ==> now < t + PALM_SETTLE),
{
}

/// Whether the event at this position is a settled frame of a swipe.
pub open spec fn swipes_at(events: Seq<PalmEvent>, i: int) -> bool {
    events[i] matches PalmEvent::Frame { m, .. } && number(SWIPE_VEL).below(m.vx.unsigned())
        && m.lead_y.below(m.vx.unsigned())
}

/// The way from the anchor that was measured in the event at this position.
pub open spec fn way_at(events: Seq<PalmEvent>, i: int) -> Scalar {
    match events[i] {
        PalmEvent::Frame { m, .. } => m.dx,
        _ => Scalar { bits: 0 },
    }
}

proof fn lemma_swipe_keeps_anchor(start: PalmState, events: Seq<PalmEvent>, k: int)
    requires
        0 <= k <= events.len(),
        start.anchor is Some,
        forall|i: int|
            0 <= i < k ==> #[trigger] swipes_at(events, i) && !number(SWIPE_DIST).at_most(
                way_at(events, i).unsigned(),
            ),
    ensures
        after_events(start, events.take(k)).anchor == start.anchor,
        after_events(start, events.take(k)).last_switch == start.last_switch,
    decreases k,
{
    if k > 0 {
        lemma_swipe_keeps_anchor(start, events, k - 1);
        assert(events.take(k).drop_last() == events.take(k - 1));
        assert(events.take(k).last() == events[k - 1]);
        assert(swipes_at(events, k - 1));
    } else {
        assert(events.take(0) == Seq::<PalmEvent>::empty());
    }
}

/// Travel adds up over a swipe: as long as every frame swipes, the anchor stays where the
/// swipe began, and the first frame that has gone at least `SWIPE_DIST` from there, with
/// the last switch long enough ago, switches the workspace that way.
pub proof fn law_travel_adds_up(start: PalmState, events: Seq<PalmEvent>, k: int, now: u64)
    requires
        0 <= k < events.len(),
        start.anchor is Some,
        forall|i: int|
            0 <= i < k ==> #[trigger] swipes_at(events, i) && !number(SWIPE_DIST).at_most(
                way_at(events, i).unsigned(),
            ),
        swipes_at(events, k),
        number(SWIPE_DIST).at_most(way_at(events, k).unsigned()),
        now == events[k].time(),
        now > start.last_switch + WORKSPACE_COOLDOWN,
    ensures
        forall|i: int|
            0 <= i <= k ==> (#[trigger] after_events(start, events.take(i))).anchor
                == start.anchor,
        events[k] matches PalmEvent::Frame { m, .. } ==> after_events(
            start,
            events.take(k),
        ).switch_due(m, now) == Some(
            if number(0).below(way_at(events, k)) {
                SwipeDirection::Right
            } else {
                SwipeDirection::Left
            },
        ),
        events[k] matches PalmEvent::Frame { switched, .. } ==> switched_at(start, events, k)
            == switched,
{
    assert forall|i: int| 0 <= i <= k implies (#[trigger] after_events(
        start,
        events.take(i),
    )).anchor == start.anchor by {
        lemma_swipe_keeps_anchor(start, events, i);
    }
    lemma_swipe_keeps_anchor(start, events, k);
}

/// The directions go by their names.
pub proof fn law_directions_have_names()
    ensures
        SwipeDirection::Left.name() == "left"@,
        SwipeDirection::Right.name() == "right"@,
{
}

} // verus!
