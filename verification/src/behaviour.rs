//! What the calls of the controller do, said of the fields that they read and write.
use vstd::prelude::*;

use crate::controller::{
    FrameAnswer, FrameStage, FrameStep, FrameTask, HandReading, Route, State, VoiceStep,
};
use crate::cursor::CursorBlend;
use crate::fingers::{fingers_after, law_fingers_are_read_one_by_one, opened, raised_fist};
use crate::fist::FistState;
use crate::guarantees::{
    after_call, law_hand_loss_is_announced, law_mode_change_is_announced, reading_of, step_of,
    task_of, Call,
};
use crate::hand::{law_primary_is_largest, Hand};
use crate::mode::{pose, Mode, ModeState};
use crate::motion::{
    law_only_a_stale_front_is_forgotten, law_speed_spans_the_history, remembered, stretch, Sample,
};
use crate::palm::{PalmMotion, PalmState, SwipeDirection};
use crate::pinch::{PinchButton, PinchState};
use crate::scalar::Scalar;
use crate::scroll::{ScrollDirection, ScrollState};
use crate::settings::{
    number, CLICK_COOLDOWN, CURSOR_JITTER_PX, EXT_RATIO_UP, FINGER_DOWN_DEG,
    FINGER_UP_DEG, FIST_HOLD, FIST_MAX_WRIST_Y, FIST_REARM, FLIP_REST_VEL, FLIP_VEL, MIN_HAND_SPAN,
    MOTION_MIN_SPAN, MOTION_WINDOW, PALM_SETTLE, PINCH_MIN_ANGLE_DEG, PINCH_OFF, PINCH_ON,
    SCROLL_SETTLE, SCROLL_TICK, SWIPE_DIST, SWIPE_VEL, VOICE_COOLDOWN, VOLUME_FLIP_COOLDOWN,
    WORKSPACE_COOLDOWN,
};
use crate::shutdown::{ClapState, ShutdownAnswer};
use crate::voice::VoiceState;

verus! {

/// Whether a hand with these fingers (thumb first) and this height of the wrist is a
/// raised fist: all four fingers folded, and the wrist high.
pub open spec fn is_fist(fingers: Seq<bool>, wrist_y: Scalar) -> bool {
    !fingers[1] && !fingers[2] && !fingers[3] && !fingers[4] && wrist_y.below(
        number(FIST_MAX_WRIST_Y),
    )
}

/// Whether thumb and index finger pinch: the index finger is not folded away, and the
/// tips touch by either measure.
pub open spec fn index_pinches(r: HandReading) -> bool {
    number(PINCH_MIN_ANGLE_DEG).below(r.angles[1]) && (r.left_gap.below(number(PINCH_ON))
        || r.left_gap.below(r.close_reach))
}

/// Whether thumb and middle finger pinch.
pub open spec fn middle_pinches(r: HandReading) -> bool {
    number(PINCH_MIN_ANGLE_DEG).below(r.angles[2]) && (r.right_gap.below(number(PINCH_ON))
        || r.right_gap.below(r.close_reach))
}

/// Whether the tips of thumb and index finger are apart by both measures.
pub open spec fn index_parts(r: HandReading) -> bool {
    number(PINCH_OFF).below(r.left_gap) && r.open_reach.below(r.left_gap)
}

/// Whether the tips of thumb and middle finger are apart by both measures.
pub open spec fn middle_parts(r: HandReading) -> bool {
    number(PINCH_OFF).below(r.right_gap) && r.open_reach.below(r.right_gap)
}

/// Whether a step asks for the tick that this travel is due after `ticks` of them, and
/// for nothing where none is due.
pub open spec fn turns_wheel(travel: Scalar, ticks: int, step: FrameStep) -> bool {
    if ticks < 3 && number(SCROLL_TICK).at_most(travel.unsigned()) {
        step matches FrameStep::Wheel { direction, travel: spent, task } && spent == travel
            && task.stage == FrameStage::Wheel(ticks as u32) && direction == if number(
            SCROLL_TICK,
        ).at_most(travel) {
            ScrollDirection::Down
        } else {
            ScrollDirection::Up
        }
    } else {
        step is Done
    }
}

/// Whether a hand that is read so, at this time, leads in the current mode from one state
/// to another one and to this step.
pub open spec fn acts_in_mode(
    s: State,
    r: HandReading,
    now: u64,
    after: State,
    step: FrameStep,
) -> bool {
    match s.modes.mode {
        Mode::Idle => step is Done && after == (State {
            scroll: ScrollState {
                entered: s.scroll.entered,
                last_y: None,
                travel: Scalar { bits: 0 },
            },
            palm: PalmState { anchor: None, ..s.palm },
            ..s
        }),
        Mode::Cursor => match s.cursor {
            None => after == (State { cursor: Some(r.target), ..s }) && (step
                matches FrameStep::MoveCursor { to, .. } && to == r.target),
            Some(p) => after == s && (step matches FrameStep::Blend { from, to, .. } && from == p
                && to == r.target),
        },
        Mode::Scroll => {
            let young = s.scroll.entered matches Some(t) ==> now < t + SCROLL_SETTLE;
            &&& after == (State {
                scroll: ScrollState { last_y: Some(r.tips_y), ..s.scroll },
                ..s
            })
            &&& if young {
                step is Done
            } else {
                match s.scroll.last_y {
                    Some(y) => step matches FrameStep::SumTravel { travel, from_y, to_y, .. }
                        && travel == s.scroll.travel && from_y == y && to_y == r.tips_y,
                    None => turns_wheel(s.scroll.travel, 0, step),
                }
            }
        },
        Mode::Palm => {
            let young = s.palm.since matches Some(t) ==> now < t + PALM_SETTLE;
            if young {
                step is Done && after == (State {
                    palm: PalmState { anchor: Some(r.centroid), ..s.palm },
                    ..s
                })
            } else {
                after == s && (step matches FrameStep::MeasurePalm { anchor, pos, .. } && anchor
                    == s.palm.anchor && pos == r.centroid)
            }
        },
    }
}

/// The state after a mode was entered at this time, from another one.
pub open spec fn entering(s: State, mode: Mode, clock: u64) -> State {
    State {
        modes: ModeState { mode, candidate: None, frames: 0 },
        last_status: "[MODE] "@ + mode.name(),
        cursor: if mode == Mode::Cursor {
            None
        } else {
            s.cursor
        },
        history: if mode == Mode::Palm {
            Seq::empty()
        } else {
            s.history
        },
        scroll: if mode == Mode::Scroll {
            ScrollState { entered: Some(clock), ..s.scroll }
        } else {
            s.scroll
        },
        palm: PalmState {
            anchor: if s.modes.mode == Mode::Palm {
                None
            } else {
                s.palm.anchor
            },
            since: if mode == Mode::Palm {
                Some(clock)
            } else {
                s.palm.since
            },
            ..s.palm
        },
        ..s
    }
}

/// Whether seeing a pose leads from one state to another one and to this step: a pose
/// that makes a new mode enters it and is told, and any other one acts in the mode.
pub open spec fn selects_and_acts(
    s: State,
    seen: Mode,
    r: HandReading,
    now: u64,
    clock: u64,
    after: State,
    step: FrameStep,
) -> bool {
    if seen != s.modes.mode && s.modes.candidate == Some(seen) && s.modes.frames >= 2 {
        after == entering(s, seen, clock) && (step matches FrameStep::Announce(mode, _) && mode
            == seen)
    } else {
        acts_in_mode(
            State {
                modes: if seen == s.modes.mode {
                    ModeState { mode: seen, candidate: None, frames: 0 }
                } else if s.modes.candidate == Some(seen) {
                    ModeState { frames: (s.modes.frames + 1) as u32, ..s.modes }
                } else {
                    ModeState { candidate: Some(seen), frames: 1, ..s.modes }
                },
                ..s
            },
            r,
            now,
            after,
            step,
        )
    }
}

proof fn lemma_mode_part(s: State, task: FrameTask)
    ensures
        acts_in_mode(s, task.reading, task.now, s.mode_part(task).0, s.mode_part(task).1),
{
}

proof fn lemma_pose_part(s: State, task: FrameTask, clock: u64)
    requires
        s.wf(),
    ensures
        selects_and_acts(
            s,
            pose(s.finger_up, task.fist, s.fist.fired),
            task.reading,
            task.now,
            clock,
            s.pose_part(task, clock).0,
            s.pose_part(task, clock).1,
        ),
{
    let seen = pose(s.finger_up, task.fist, s.fist.fired);
    if s.modes.confirms(seen) {
        assert(s.pose_part(task, clock).0.modes.mode == seen);
        law_mode_change_is_announced(s, task, clock);
        assert(s.pose_part(task, clock).0 =~= entering(s, seen, clock));
    } else {
        let s1 = State { modes: s.modes.after(seen), ..s };
        lemma_mode_part(s1, task);
    }
}

/// Whether watching the right pinch, then the pose, leads from one state to another one
/// and to this step.
pub open spec fn right_pinch_onwards(
    s: State,
    task: FrameTask,
    clock: u64,
    after: State,
    step: FrameStep,
) -> bool {
    if s.pinch.right_armed && task.rested && middle_pinches(task.reading) {
        after == s && (step matches FrameStep::Click(button, _) && button == PinchButton::Right)
    } else {
        selects_and_acts(
            State {
                pinch: PinchState {
                    right_armed: s.pinch.right_armed || middle_parts(task.reading),
                    ..s.pinch
                },
                ..s
            },
            pose(s.finger_up, task.fist, s.fist.fired),
            task.reading,
            task.now,
            clock,
            after,
            step,
        )
    }
}

/// Whether watching both pinches, then the pose, leads from one state to another one and
/// to this step. A fist pinches nothing.
pub open spec fn pinches_onwards(
    s: State,
    task: FrameTask,
    clock: u64,
    after: State,
    step: FrameStep,
) -> bool {
    if task.fist {
        selects_and_acts(
            s,
            pose(s.finger_up, task.fist, s.fist.fired),
            task.reading,
            task.now,
            clock,
            after,
            step,
        )
    } else if s.pinch.left_armed && task.rested && index_pinches(task.reading) {
        after == s && (step matches FrameStep::Click(button, _) && button == PinchButton::Left)
    } else {
        right_pinch_onwards(
            State {
                pinch: PinchState {
                    left_armed: s.pinch.left_armed || index_parts(task.reading),
                    ..s.pinch
                },
                ..s
            },
            task,
            clock,
            after,
            step,
        )
    }
}

proof fn lemma_right_part(s: State, task: FrameTask, clock: u64)
    requires
        s.wf(),
    ensures
        right_pinch_onwards(
            s,
            task,
            clock,
            s.right_part(task, clock).0,
            s.right_part(task, clock).1,
        ),
{
    let right = PinchState {
        right_armed: s.pinch.right_armed || middle_parts(task.reading),
        ..s.pinch
    };
    assert(s.pinch.released(PinchButton::Right, task.reading.pinch(PinchButton::Right)) == right);
    lemma_pose_part(State { pinch: right, ..s }, task, clock);
}

proof fn lemma_pinch_part(s: State, task: FrameTask, clock: u64)
    requires
        s.wf(),
    ensures
        pinches_onwards(
            s,
            task,
            clock,
            s.pinch_part(task, clock).0,
            s.pinch_part(task, clock).1,
        ),
{
    let left = PinchState {
        left_armed: s.pinch.left_armed || index_parts(task.reading),
        ..s.pinch
    };
    assert(s.pinch.released(PinchButton::Left, task.reading.pinch(PinchButton::Left)) == left);
    lemma_right_part(State { pinch: left, ..s }, task, clock);
    lemma_pose_part(s, task, clock);
}

/// The fist after a frame: a raised fist begins or goes on with its hold; anything else
/// ends it, and an opened hand, long enough after the last tab, arms the next one.
pub open spec fn fist_after(s: FistState, fingers: Seq<bool>, wrist_y: Scalar, now: u64) -> FistState {
    if is_fist(fingers, wrist_y) {
        FistState {
            since: if s.since is Some {
                s.since
            } else {
                Some(now)
            },
            ..s
        }
    } else {
        FistState {
            since: None,
            fired: s.fired && !(now > s.last_fire + FIST_REARM && (fingers[1] || fingers[2]
                || fingers[3] || fingers[4])),
            ..s
        }
    }
}

/// The state and the task in which a usable frame has taken in the hand and not acted.
spec fn taken_in(s: State, r: HandReading, now: u64) -> (State, FrameTask) {
    let fingers = fingers_after(s.finger_up, r.angles@, r.ratios@);
    let history = remembered(s.history, Sample { t: now, p: r.centroid });
    (
        State {
            finger_up: fingers,
            history,
            fist: fist_after(s.fist, fingers, r.wrist_y, now),
            ..s
        },
        FrameTask {
            reading: r,
            now,
            fist: is_fist(fingers, r.wrist_y),
            rested: now > s.pinch.last_click + CLICK_COOLDOWN,
            stretch: stretch(history),
            stage: FrameStage::CloseTab,
        },
    )
}

spec fn tab_is_due(s: State, fist: bool, now: u64) -> bool {
    fist && !s.fist.fired && s.fist.since is Some && now >= s.fist.since->0 + FIST_HOLD
}

proof fn lemma_frame_begins(s: State, r: HandReading, now: u64)
    requires
        !r.span.below(number(MIN_HAND_SPAN)),
        s.finger_up.len() == 5,
    ensures
        ({
            let (s1, task) = taken_in(s, r, now);
            s.frame(r, now) == if tab_is_due(s, task.fist, now) {
                (s1, FrameStep::CloseTab(task))
            } else {
                s1.pinch_part(task, now)
            }
        }),
{
    let (s1, task) = taken_in(s, r, now);
    let fingers = s1.finger_up;
    assert(raised_fist(fingers, r.wrist_y) == task.fist);
    assert(s.fist.seen(task.fist, opened(fingers), now) == s1.fist);
    assert(s.fist.due(task.fist, now) == tab_is_due(s, task.fist, now));
}

proof fn lemma_acting_keeps(s: State, r: HandReading, now: u64, after: State, step: FrameStep)
    requires
        acts_in_mode(s, r, now, after, step),
    ensures
        after.finger_up == s.finger_up,
        after.fist == s.fist,
        after.pinch == s.pinch,
        after.history == s.history,
        after.modes == s.modes,
        after.last_status == s.last_status,
        !(step is CloseTab) && !(step is Click) && !(step is Announce),
{
}

proof fn lemma_selecting_keeps(
    s: State,
    seen: Mode,
    r: HandReading,
    now: u64,
    clock: u64,
    after: State,
    step: FrameStep,
)
    requires
        selects_and_acts(s, seen, r, now, clock, after, step),
    ensures
        after.finger_up == s.finger_up,
        after.fist == s.fist,
        after.pinch == s.pinch,
        after.history == s.history || (after.history.len() == 0 && after.modes.mode == Mode::Palm
            && s.modes.mode != Mode::Palm),
        !(step is CloseTab) && !(step is Click),
{
    if !(seen != s.modes.mode && s.modes.candidate == Some(seen) && s.modes.frames >= 2) {
        let modes = if seen == s.modes.mode {
            ModeState { mode: seen, candidate: None, frames: 0 }
        } else if s.modes.candidate == Some(seen) {
            ModeState { frames: (s.modes.frames + 1) as u32, ..s.modes }
        } else {
            ModeState { candidate: Some(seen), frames: 1, ..s.modes }
        };
        lemma_acting_keeps(State { modes, ..s }, r, now, after, step);
    }
}

proof fn lemma_pinching_keeps(
    s: State,
    task: FrameTask,
    clock: u64,
    after: State,
    step: FrameStep,
)
    requires
        pinches_onwards(s, task, clock, after, step),
    ensures
        after.finger_up == s.finger_up,
        after.fist == s.fist,
        after.history == s.history || (after.history.len() == 0 && after.modes.mode == Mode::Palm
            && s.modes.mode != Mode::Palm),
        !(step is CloseTab),
{
    let left = PinchState {
        left_armed: s.pinch.left_armed || index_parts(task.reading),
        ..s.pinch
    };
    let right = PinchState {
        right_armed: s.pinch.right_armed || middle_parts(task.reading),
        ..left
    };
    let seen = pose(s.finger_up, task.fist, s.fist.fired);
    if task.fist {
        lemma_selecting_keeps(s, seen, task.reading, task.now, clock, after, step);
    } else if !(step is Click) {
        lemma_selecting_keeps(
            State { pinch: right, ..s },
            seen,
            task.reading,
            task.now,
            clock,
            after,
            step,
        );
    }
}

/// A usable frame reads every finger by its own joint and its own tip.
pub proof fn law_frame_reads_fingers(s: State, r: HandReading, now: u64, i: int)
    requires
        s.wf(),
        !r.span.below(number(MIN_HAND_SPAN)),
        0 <= i < 5,
    ensures
        s.frame(r, now).0.finger_up.len() == 5,
        number(FINGER_UP_DEG).at_most(r.angles[i]) || number(EXT_RATIO_UP).at_most(r.ratios[i])
            ==> s.frame(r, now).0.finger_up[i],
        r.angles[i].at_most(number(FINGER_DOWN_DEG)) && r.ratios[i].below(number(EXT_RATIO_UP))
            ==> !s.frame(r, now).0.finger_up[i],
        !number(FINGER_UP_DEG).at_most(r.angles[i]) && !number(EXT_RATIO_UP).at_most(r.ratios[i])
            && !(r.angles[i].at_most(number(FINGER_DOWN_DEG)) && r.ratios[i].below(
            number(EXT_RATIO_UP),
        )) ==> s.frame(r, now).0.finger_up[i] == s.finger_up[i],
{
    let (s1, task) = taken_in(s, r, now);
    lemma_frame_begins(s, r, now);
    law_fingers_are_read_one_by_one(s.finger_up, r.angles@, r.ratios@, i);
    if !tab_is_due(s, task.fist, now) {
        lemma_pinch_part(s1, task, now);
        let (after, step) = s1.pinch_part(task, now);
        lemma_pinching_keeps(s1, task, now, after, step);
    }
}

/// A usable frame closes a tab exactly if it shows a raised fist that has been held for
/// `FIST_HOLD` and has not closed one yet; and it keeps track of the fist.
pub proof fn law_frame_watches_the_fist(s: State, r: HandReading, now: u64)
    requires
        s.wf(),
        !r.span.below(number(MIN_HAND_SPAN)),
    ensures
        s.frame(r, now).1 is CloseTab <==> {
            &&& is_fist(s.frame(r, now).0.finger_up, r.wrist_y)
            &&& !s.fist.fired
            &&& s.fist.since is Some
            &&& now >= s.fist.since->0 + FIST_HOLD
        },
        s.frame(r, now).0.fist == fist_after(
            s.fist,
            s.frame(r, now).0.finger_up,
            r.wrist_y,
            now,
        ),
{
    let (s1, task) = taken_in(s, r, now);
    lemma_frame_begins(s, r, now);
    if !tab_is_due(s, task.fist, now) {
        lemma_pinch_part(s1, task, now);
        let (after, step) = s1.pinch_part(task, now);
        lemma_pinching_keeps(s1, task, now, after, step);
    }
}

/// A usable frame that shows no fist clicks left exactly if the left button is armed, the
/// last click is long enough ago, and thumb and index finger pinch; and right, for the
/// middle finger, once the left one has had its turn.
pub proof fn law_frame_clicks_on_pinches(
    s: State,
    r: HandReading,
    now: u64,
    clock: u64,
)
    requires
        s.wf(),
        !r.span.below(number(MIN_HAND_SPAN)),
        !is_fist(s.frame(r, now).0.finger_up, r.wrist_y),
    ensures
        ({
            let (after, step) = s.frame(r, now);
            let rested = now > s.pinch.last_click + CLICK_COOLDOWN;
            let left = s.pinch.left_armed && rested && number(PINCH_MIN_ANGLE_DEG).below(
                r.angles[1],
            ) && (r.left_gap.below(number(PINCH_ON)) || r.left_gap.below(r.close_reach));
            let right = s.pinch.right_armed && rested && number(PINCH_MIN_ANGLE_DEG).below(
                r.angles[2],
            ) && (r.right_gap.below(number(PINCH_ON)) || r.right_gap.below(r.close_reach));
            &&& (step matches FrameStep::Click(button, _) && button == PinchButton::Left) <==> left
            &&& (step matches FrameStep::Click(button, _) && button == PinchButton::Right)
                <==> !left && right
            &&& left ==> after.pinch == s.pinch
            &&& left ==> (step matches FrameStep::Click(_, task) && (after.next(
                task,
                FrameAnswer::Performed,
                clock,
            ).1 is Click <==> right))
            &&& !left ==> after.pinch == (PinchState {
                left_armed: s.pinch.left_armed || (number(PINCH_OFF).below(r.left_gap)
                    && r.open_reach.below(r.left_gap)),
                right_armed: s.pinch.right_armed || (!right && number(PINCH_OFF).below(
                    r.right_gap,
                ) && r.open_reach.below(r.right_gap)),
                last_click: s.pinch.last_click,
            })
        }),
{
    let (s1, task) = taken_in(s, r, now);
    lemma_frame_begins(s, r, now);
    if tab_is_due(s, task.fist, now) {
        assert(s.frame(r, now).0.finger_up == s1.finger_up);
    } else {
        lemma_pinch_part(s1, task, now);
        let (after, step) = s1.pinch_part(task, now);
        lemma_pinching_keeps(s1, task, now, after, step);
        let left = PinchState {
            left_armed: s.pinch.left_armed || index_parts(r),
            ..s.pinch
        };
        let both = PinchState { right_armed: s.pinch.right_armed || middle_parts(r), ..left };
        let seen = pose(s1.finger_up, task.fist, s1.fist.fired);
        if s.pinch.left_armed && task.rested && index_pinches(r) {
            let t = task.at(FrameStage::Click(PinchButton::Left));
            assert(step == FrameStep::Click(PinchButton::Left, t));
            let clicked = PinchState { left_armed: false, last_click: now, ..s.pinch };
            let s2 = State { pinch: clicked, ..s1 };
            assert(s1.pinch.clicked(PinchButton::Left, now) == clicked);
            lemma_right_part(s2, t, clock);
            let (after2, step2) = s2.right_part(t, clock);
            if !(clicked.right_armed && t.rested && middle_pinches(r)) {
                let released = PinchState {
                    right_armed: clicked.right_armed || middle_parts(r),
                    ..clicked
                };
                lemma_selecting_keeps(
                    State { pinch: released, ..s2 },
                    seen,
                    r,
                    now,
                    clock,
                    after2,
                    step2,
                );
            }
        } else if !(s.pinch.right_armed && task.rested && middle_pinches(r)) {
            lemma_selecting_keeps(
                State { pinch: both, ..s1 },
                seen,
                r,
                now,
                now,
                after,
                step,
            );
        }
    }
}

/// A fist neither clicks nor arms a button.
pub proof fn law_fist_leaves_the_buttons_alone(s: State, r: HandReading, now: u64)
    requires
        s.wf(),
        !r.span.below(number(MIN_HAND_SPAN)),
        is_fist(s.frame(r, now).0.finger_up, r.wrist_y),
    ensures
        !(s.frame(r, now).1 is Click),
        s.frame(r, now).0.pinch == s.pinch,
{
    let (s1, task) = taken_in(s, r, now);
    lemma_frame_begins(s, r, now);
    if !tab_is_due(s, task.fist, now) {
        lemma_pinch_part(s1, task, now);
        let (after, step) = s1.pinch_part(task, now);
        lemma_pinching_keeps(s1, task, now, after, step);
        lemma_selecting_keeps(
            s1,
            pose(s1.finger_up, task.fist, s1.fist.fired),
            r,
            now,
            now,
            after,
            step,
        );
    }
}

/// A usable frame remembers where the palm is, and forgets a stale front; entering the
/// palm forgets everything.
pub proof fn law_frame_remembers_the_palm(s: State, r: HandReading, now: u64)
    requires
        s.wf(),
        !r.span.below(number(MIN_HAND_SPAN)),
    ensures
        ({
            let after = s.frame(r, now).0;
            let all = s.history.push(Sample { t: now, p: r.centroid });
            ||| after.history.len() == 0 && after.modes.mode == Mode::Palm && s.modes.mode
                != Mode::Palm
            ||| exists|k: int|
                {
                    &&& 0 <= k < all.len()
                    &&& after.history == #[trigger] all.subrange(k, all.len() as int)
                    &&& now <= all[k].t + MOTION_WINDOW
                    &&& forall|i: int| 0 <= i < k ==> now > (#[trigger] all[i]).t + MOTION_WINDOW
                }
        }),
{
    let (s1, task) = taken_in(s, r, now);
    let sample = Sample { t: now, p: r.centroid };
    let all = s.history.push(sample);
    lemma_frame_begins(s, r, now);
    let k = law_only_a_stale_front_is_forgotten(s.history, sample);
    assert(s1.history == all.subrange(k, all.len() as int));
    assert forall|i: int| 0 <= i < k implies now > (#[trigger] all[i]).t + MOTION_WINDOW by {
        assert(all[i] == s.history[i]);
    }
    if !tab_is_due(s, task.fist, now) {
        lemma_pinch_part(s1, task, now);
        let (after, step) = s1.pinch_part(task, now);
        lemma_pinching_keeps(s1, task, now, after, step);
    }
}

/// The fields of a task that last for the whole frame.
pub open spec fn same_frame(a: FrameTask, b: FrameTask) -> bool {
    &&& a.reading == b.reading
    &&& a.now == b.now
    &&& a.fist == b.fist
    &&& a.rested == b.rested
    &&& a.stretch == b.stretch
}

/// Whether a step that carries a task carries one of this frame, and one that measures
/// the palm measures its speed over the stretch of this frame.
pub open spec fn carries(step: FrameStep, task: FrameTask) -> bool {
    &&& task_of(step) matches Some(t) ==> same_frame(t, task)
    &&& step matches FrameStep::MeasurePalm { stretch, .. } ==> stretch == task.stretch
}

proof fn lemma_mode_part_carries(s: State, task: FrameTask)
    ensures
        carries(s.mode_part(task).1, task),
{
}

proof fn lemma_pose_part_carries(s: State, task: FrameTask, clock: u64)
    ensures
        carries(s.pose_part(task, clock).1, task),
{
    let seen = pose(s.finger_up, task.fist, s.fist.fired);
    let s1 = State { modes: s.modes.after(seen), ..s };
    lemma_mode_part_carries(s1, task);
    lemma_mode_part_carries(s1.entered(s.modes.mode, seen, clock), task);
}

proof fn lemma_pinch_part_carries(s: State, task: FrameTask, clock: u64)
    ensures
        carries(s.right_part(task, clock).1, task),
        carries(s.pinch_part(task, clock).1, task),
{
    let left = s.pinch.released(PinchButton::Left, task.reading.pinch(PinchButton::Left));
    let right = s.pinch.released(PinchButton::Right, task.reading.pinch(PinchButton::Right));
    let both = left.released(PinchButton::Right, task.reading.pinch(PinchButton::Right));
    lemma_pose_part_carries(s, task, clock);
    lemma_pose_part_carries(State { pinch: right, ..s }, task, clock);
    lemma_pose_part_carries(State { pinch: both, ..s }, task, clock);
}

/// Every step of a frame carries the frame: its reading and its time, whether it shows a
/// fist, whether the last click was long enough ago when it began, and between which
/// samples the speed is measured.
pub proof fn law_steps_carry_their_frame(s: State, r: HandReading, now: u64)
    requires
        s.wf(),
        !r.span.below(number(MIN_HAND_SPAN)),
    ensures
        task_of(s.frame(r, now).1) matches Some(t) ==> {
            &&& t.reading == r
            &&& t.now == now
            &&& t.fist == is_fist(s.frame(r, now).0.finger_up, r.wrist_y)
            &&& t.rested == (now > s.pinch.last_click + CLICK_COOLDOWN)
            &&& t.stretch matches Some((first, last)) ==> {
                &&& last == (Sample { t: now, p: r.centroid })
                &&& s.history.contains(first)
                &&& now >= first.t + MOTION_MIN_SPAN
                &&& now <= first.t + MOTION_WINDOW
            }
            &&& t.stretch is None ==> forall|i: int|
                0 <= i < s.history.len() && now <= (#[trigger] s.history[i]).t + MOTION_WINDOW && (
                forall|x: int| 0 <= x < i ==> now > (#[trigger] s.history[x]).t + MOTION_WINDOW)
                    ==> now < s.history[i].t + MOTION_MIN_SPAN
        },
        s.frame(r, now).1 matches FrameStep::MeasurePalm { stretch, task, .. } ==> stretch
            == task.stretch,
{
    let (s1, task) = taken_in(s, r, now);
    let sample = Sample { t: now, p: r.centroid };
    let all = s.history.push(sample);
    lemma_frame_begins(s, r, now);
    let k = law_only_a_stale_front_is_forgotten(s.history, sample);
    law_speed_spans_the_history(s1.history);
    assert(s1.history[0] == all[k]);
    if k < s.history.len() {
        assert(all[k] == s.history[k]);
        assert(s.history.contains(s.history[k]));
    }
    assert forall|i: int|
        task.stretch is None && 0 <= i < s.history.len() && now <= (#[trigger] s.history[i]).t
            + MOTION_WINDOW && (forall|x: int|
            0 <= x < i ==> now > (#[trigger] s.history[x]).t + MOTION_WINDOW) implies now
        < s.history[i].t + MOTION_MIN_SPAN by {
        if i < k {
            assert(now > s.history[i].t + MOTION_WINDOW);
        } else if k < i {
            assert(now > s.history[k].t + MOTION_WINDOW);
        }
    }
    if !tab_is_due(s, task.fist, now) {
        lemma_pinch_part(s1, task, now);
        lemma_pinch_part_carries(s1, task, now);
        let (after, step) = s1.pinch_part(task, now);
        lemma_pinching_keeps(s1, task, now, after, step);
    }
}

/// An answer goes on with the same frame.
pub proof fn law_answers_go_on_with_their_frame(
    s: State,
    task: FrameTask,
    answer: FrameAnswer,
    clock: u64,
)
    ensures
        carries(s.next(task, answer, clock).1, task),
{
    match task.stage {
        FrameStage::CloseTab => {
            lemma_pinch_part_carries(State { fist: s.fist.acted(task.now), ..s }, task, clock);
        },
        FrameStage::Click(button) => {
            let clicked = State { pinch: s.pinch.clicked(button, task.now), ..s };
            lemma_pinch_part_carries(clicked, task, clock);
            lemma_pose_part_carries(clicked, task, clock);
        },
        FrameStage::Announce => {
            lemma_mode_part_carries(s, task);
        },
        _ => {},
    }
}

/// A usable frame that closes no tab and clicks nothing selects the mode by the pose it
/// shows and acts in it, and changes nothing else: what it selects by and acts on are the
/// fingers, the fist, the buttons and the motion that it has just taken in.
pub proof fn law_frame_selects_and_acts(s: State, r: HandReading, now: u64)
    requires
        s.wf(),
        !r.span.below(number(MIN_HAND_SPAN)),
        !(s.frame(r, now).1 is CloseTab),
        !(s.frame(r, now).1 is Click),
    ensures
        ({
            let (after, step) = s.frame(r, now);
            exists|history: Seq<Sample>|
                {
                    &&& #[trigger] history.len() > 0
                    &&& history.last() == (Sample { t: now, p: r.centroid })
                    &&& selects_and_acts(
                        State {
                            finger_up: after.finger_up,
                            fist: after.fist,
                            pinch: after.pinch,
                            history,
                            ..s
                        },
                        pose(
                            after.finger_up,
                            is_fist(after.finger_up, r.wrist_y),
                            after.fist.fired,
                        ),
                        r,
                        now,
                        now,
                        after,
                        step,
                    )
                }
        }),
{
    let (s1, task) = taken_in(s, r, now);
    let sample = Sample { t: now, p: r.centroid };
    lemma_frame_begins(s, r, now);
    let k = law_only_a_stale_front_is_forgotten(s.history, sample);
    lemma_pinch_part(s1, task, now);
    let (after, step) = s1.pinch_part(task, now);
    lemma_pinching_keeps(s1, task, now, after, step);
    let seen = pose(s1.finger_up, task.fist, s1.fist.fired);
    let left = PinchState { left_armed: s.pinch.left_armed || index_parts(r), ..s.pinch };
    let both = PinchState { right_armed: s.pinch.right_armed || middle_parts(r), ..left };
    let pinch = if task.fist {
        s.pinch
    } else {
        both
    };
    lemma_selecting_keeps(State { pinch, ..s1 }, seen, r, now, now, after, step);
    assert(s1.history.len() > 0);
    assert(State { pinch, ..s1 } == (State {
        finger_up: after.finger_up,
        fist: after.fist,
        pinch: after.pinch,
        history: s1.history,
        ..s
    }));
}

/// Whether a step asks for what the state says: smoothing starts at the cursor and aims
/// where the finger points, a move goes where the cursor then is, travel and wheel are
/// those of the scroll, the way of the palm starts at its anchor, and a mode is told once
/// it is entered.
pub open spec fn matches_state(before: State, after: State, step: FrameStep) -> bool {
    &&& step matches FrameStep::Blend { from, to, task } ==> after.cursor == Some(from) && to
        == task.reading.target && task.stage == FrameStage::Blend(from)
    &&& step matches FrameStep::MoveCursor { to, .. } ==> after.cursor == Some(to)
    &&& step matches FrameStep::SumTravel { travel, from_y, to_y, task } ==> {
        &&& before.scroll.last_y == Some(from_y)
        &&& after.scroll.last_y == Some(to_y)
        &&& after.scroll.travel == travel
        &&& to_y == task.reading.tips_y
    }
    &&& step matches FrameStep::Wheel { travel, .. } ==> after.scroll.travel == travel
    &&& step matches FrameStep::MeasurePalm { anchor, pos, stretch, task } ==> {
        &&& after.palm.anchor == anchor
        &&& pos == task.reading.centroid
        &&& stretch == task.stretch
    }
    &&& step matches FrameStep::Announce(mode, _) ==> after.modes.mode == mode
}

/// Whether a step that smooths belongs to a frame with this reading.
spec fn carries_reading(step: FrameStep, r: HandReading) -> bool {
    step matches FrameStep::Blend { task, .. } ==> task.reading == r
}

proof fn lemma_mode_part_matches(s: State, task: FrameTask)
    ensures
        matches_state(s, s.mode_part(task).0, s.mode_part(task).1),
{
}

proof fn lemma_pose_part_matches(s: State, task: FrameTask, clock: u64)
    ensures
        matches_state(s, s.pose_part(task, clock).0, s.pose_part(task, clock).1),
{
    let seen = pose(s.finger_up, task.fist, s.fist.fired);
    let s1 = State { modes: s.modes.after(seen), ..s };
    lemma_mode_part_matches(s1, task);
    lemma_mode_part_matches(s1.entered(s.modes.mode, seen, clock), task);
}

proof fn lemma_pinch_part_matches(s: State, task: FrameTask, clock: u64)
    ensures
        matches_state(s, s.right_part(task, clock).0, s.right_part(task, clock).1),
        matches_state(s, s.pinch_part(task, clock).0, s.pinch_part(task, clock).1),
{
    let left = s.pinch.released(PinchButton::Left, task.reading.pinch(PinchButton::Left));
    let right = s.pinch.released(PinchButton::Right, task.reading.pinch(PinchButton::Right));
    let both = left.released(PinchButton::Right, task.reading.pinch(PinchButton::Right));
    lemma_pose_part_matches(s, task, clock);
    lemma_pose_part_matches(State { pinch: right, ..s }, task, clock);
    lemma_pose_part_matches(State { pinch: both, ..s }, task, clock);
}

proof fn lemma_frame_matches(s: State, r: HandReading, now: u64)
    ensures
        matches_state(s, s.frame(r, now).0, s.frame(r, now).1),
        carries_reading(s.frame(r, now).1, r),
{
    if !r.span.below(number(MIN_HAND_SPAN)) {
        let history = remembered(s.history, Sample { t: now, p: r.centroid });
        let fingers = fingers_after(s.finger_up, r.angles@, r.ratios@);
        let fist = raised_fist(fingers, r.wrist_y);
        let s1 = State {
            finger_up: fingers,
            history,
            fist: s.fist.seen(fist, opened(fingers), now),
            ..s
        };
        let task = FrameTask {
            reading: r,
            now,
            fist,
            rested: s.pinch.rested(now),
            stretch: stretch(history),
            stage: FrameStage::CloseTab,
        };
        lemma_pinch_part_matches(s1, task, now);
        lemma_pinch_part_carries(s1, task, now);
    }
}

proof fn lemma_answer_matches(s: State, task: FrameTask, answer: FrameAnswer, clock: u64)
    ensures
        matches_state(s, s.next(task, answer, clock).0, s.next(task, answer, clock).1),
        carries_reading(s.next(task, answer, clock).1, task.reading),
{
    law_answers_go_on_with_their_frame(s, task, answer, clock);
    match task.stage {
        FrameStage::CloseTab => {
            lemma_pinch_part_matches(State { fist: s.fist.acted(task.now), ..s }, task, clock);
        },
        FrameStage::Click(button) => {
            let clicked = State { pinch: s.pinch.clicked(button, task.now), ..s };
            lemma_pinch_part_matches(clicked, task, clock);
            lemma_pose_part_matches(clicked, task, clock);
        },
        FrameStage::Announce => {
            lemma_mode_part_matches(s, task);
        },
        _ => {},
    }
}

/// Whatever is called, the step that follows asks for what the state says: so smoothing
/// starts at the cursor and aims, both ways, where the finger of that frame points.
pub proof fn law_steps_match_the_state(s: State, call: Call)
    ensures
        matches_state(s, after_call(s, call), step_of(s, call)),
        step_of(s, call) matches FrameStep::Blend { from, to, task } ==> {
            &&& after_call(s, call).cursor == Some(from)
            &&& to == task.reading.target
            &&& reading_of(call) == Some(task.reading)
        },
{
    match call {
        Call::Frame { r, now } => {
            lemma_frame_matches(s, r, now);
        },
        Call::Answer { task, answer, clock } => {
            lemma_answer_matches(s, task, answer, clock);
        },
        Call::Lost => {},
    }
}

/// A closed tab is recorded, so that the fist closes no second one, and the frame goes on
/// with the pinches.
pub proof fn law_closed_tab_is_recorded(s: State, task: FrameTask, clock: u64)
    requires
        s.wf(),
        task.stage is CloseTab,
    ensures
        pinches_onwards(
            State { fist: FistState { fired: true, last_fire: task.now, ..s.fist }, ..s },
            task,
            clock,
            s.next(task, FrameAnswer::Performed, clock).0,
            s.next(task, FrameAnswer::Performed, clock).1,
        ),
{
    lemma_pinch_part(
        State { fist: FistState { fired: true, last_fire: task.now, ..s.fist }, ..s },
        task,
        clock,
    );
}

/// A click disarms its button alone and is recorded, and the frame goes on with what
/// follows that button.
pub proof fn law_click_is_recorded(s: State, task: FrameTask, clock: u64, button: PinchButton)
    requires
        s.wf(),
        task.stage == FrameStage::Click(button),
    ensures
        ({
            let (after, step) = s.next(task, FrameAnswer::Performed, clock);
            match button {
                PinchButton::Left => right_pinch_onwards(
                    State {
                        pinch: PinchState {
                            left_armed: false,
                            right_armed: s.pinch.right_armed,
                            last_click: task.now,
                        },
                        ..s
                    },
                    task,
                    clock,
                    after,
                    step,
                ),
                PinchButton::Right => selects_and_acts(
                    State {
                        pinch: PinchState {
                            left_armed: s.pinch.left_armed,
                            right_armed: false,
                            last_click: task.now,
                        },
                        ..s
                    },
                    pose(s.finger_up, task.fist, s.fist.fired),
                    task.reading,
                    task.now,
                    clock,
                    after,
                    step,
                ),
            }
        }),
{
    match button {
        PinchButton::Left => {
            let pinch = PinchState { left_armed: false, last_click: task.now, ..s.pinch };
            assert(s.pinch.clicked(button, task.now) == pinch);
            lemma_right_part(State { pinch, ..s }, task, clock);
        },
        PinchButton::Right => {
            let pinch = PinchState { right_armed: false, last_click: task.now, ..s.pinch };
            assert(s.pinch.clicked(button, task.now) == pinch);
            lemma_pose_part(State { pinch, ..s }, task, clock);
        },
    }
}

/// Once a mode was told, the frame acts in it.
pub proof fn law_told_mode_acts(s: State, task: FrameTask, clock: u64)
    requires
        task.stage is Announce,
    ensures
        acts_in_mode(
            s,
            task.reading,
            task.now,
            s.next(task, FrameAnswer::Performed, clock).0,
            s.next(task, FrameAnswer::Performed, clock).1,
        ),
{
    lemma_mode_part(s, task);
}

/// The travel that was summed up, or was left by a tick, is kept, and spent tick by tick:
/// three at most.
pub proof fn law_travel_is_spent_in_ticks(
    s: State,
    task: FrameTask,
    travel: Scalar,
    clock: u64,
)
    ensures
        ({
            let (after, step) = s.next(task, FrameAnswer::Number(travel), clock);
            let kept = State {
                scroll: ScrollState {
                    entered: s.scroll.entered,
                    last_y: s.scroll.last_y,
                    travel,
                },
                ..s
            };
            &&& task.stage is SumTravel ==> after == kept && turns_wheel(travel, 0, step)
            &&& task.stage matches FrameStage::Wheel(ticks) ==> if ticks < 3 {
                after == kept && turns_wheel(travel, ticks + 1, step)
            } else {
                after == s && step is Done
            }
        }),
{
}

/// The cursor stays on a shake, and else goes to the smoothed point.
pub proof fn law_smoothed_way_moves_the_cursor(
    s: State,
    task: FrameTask,
    blend: CursorBlend,
    clock: u64,
)
    ensures
        ({
            let (after, step) = s.next(task, FrameAnswer::Blend(blend), clock);
            task.stage matches FrameStage::Blend(from) ==> {
                let to = if blend.gap.below(number(CURSOR_JITTER_PX)) {
                    from
                } else {
                    blend.blended
                };
                &&& after == (State { cursor: Some(to), ..s })
                &&& step matches FrameStep::MoveCursor { to: goal, .. } && goal == to
            }
        }),
{
}

/// Whether an open palm that moves so leads from one state to another one and to this
/// step, as far as the volume goes: an armed flip, long enough after the last one, asks
/// for a step that way, and a calm palm arms the next one.
pub open spec fn flips(s: State, m: PalmMotion, now: u64, after: State, step: FrameStep) -> bool {
    let flipping = number(FLIP_VEL).below(m.vy.unsigned()) && m.lead_x.below(m.vy.unsigned());
    if flipping && s.palm.vol_armed && now > s.palm.last_flip + VOLUME_FLIP_COOLDOWN {
        after == s && (step matches FrameStep::StepVolume(up, _) && up == m.vy.below(number(0)))
    } else {
        step is Done && after == (State {
            palm: PalmState {
                vol_armed: s.palm.vol_armed || (!flipping && m.vy.unsigned().below(
                    number(FLIP_REST_VEL),
                )),
                ..s.palm
            },
            ..s
        })
    }
}

/// A measured motion of the palm switches the workspace exactly if it is a swipe that has
/// gone far enough from the anchor, long enough after the last switch, and goes that way.
/// A swipe that has not gone far enough keeps its anchor; one that came too soon, or that
/// had none, is anchored where the palm is; any other motion draws the anchor along. What
/// switches nothing may step the volume.
pub proof fn law_palm_motion_switches_or_flips(
    s: State,
    task: FrameTask,
    m: PalmMotion,
    clock: u64,
)
    requires
        task.stage is MeasurePalm,
    ensures
        ({
            let (after, step) = s.next(task, FrameAnswer::Motion(m), clock);
            let swiping = number(SWIPE_VEL).below(m.vx.unsigned()) && m.lead_y.below(
                m.vx.unsigned(),
            );
            let far = number(SWIPE_DIST).at_most(m.dx.unsigned());
            let rested = task.now > s.palm.last_switch + WORKSPACE_COOLDOWN;
            if s.palm.anchor is Some && swiping && far && rested {
                after == s && (step matches FrameStep::SwitchWorkspace(d, t) && t.stage
                    == FrameStage::SwitchWorkspace(m) && d == if number(0).below(m.dx) {
                    SwipeDirection::Right
                } else {
                    SwipeDirection::Left
                })
            } else {
                flips(
                    State {
                        palm: PalmState {
                            anchor: if s.palm.anchor is None || (swiping && far) {
                                Some(task.reading.centroid)
                            } else if swiping {
                                s.palm.anchor
                            } else {
                                Some(m.eased)
                            },
                            ..s.palm
                        },
                        ..s
                    },
                    m,
                    task.now,
                    after,
                    step,
                )
            }
        }),
{
}

/// A switch is recorded and anchors the next swipe where the palm is; then the motion may
/// step the volume. A step is recorded, disarms the flip and forgets the motion.
pub proof fn law_palm_actions_are_recorded_and_go_on(s: State, task: FrameTask, clock: u64)
    ensures
        ({
            let (after, step) = s.next(task, FrameAnswer::Performed, clock);
            &&& task.stage matches FrameStage::SwitchWorkspace(m) ==> flips(
                State {
                    palm: PalmState {
                        anchor: Some(task.reading.centroid),
                        last_switch: task.now,
                        ..s.palm
                    },
                    ..s
                },
                m,
                task.now,
                after,
                step,
            )
            &&& task.stage is StepVolume ==> step is Done && after == (State {
                palm: PalmState { vol_armed: false, last_flip: task.now, ..s.palm },
                history: Seq::empty(),
                ..s
            })
        }),
{
}

/// What failed changes nothing and ends the frame; so does the last thing of a frame, and
/// any answer that is not of the kind that the step asked for.
pub proof fn law_failure_changes_nothing(
    s: State,
    task: FrameTask,
    answer: FrameAnswer,
    clock: u64,
)
    requires
        match answer {
            FrameAnswer::Failed => true,
            FrameAnswer::Performed => match task.stage {
                FrameStage::SumTravel | FrameStage::Wheel(_) | FrameStage::Blend(_)
                | FrameStage::MoveCursor | FrameStage::MeasurePalm => true,
                _ => false,
            },
            FrameAnswer::Number(_) => !(task.stage is SumTravel) && !(task.stage is Wheel),
            FrameAnswer::Blend(_) => !(task.stage is Blend),
            FrameAnswer::Motion(_) => !(task.stage is MeasurePalm),
        },
    ensures
        s.next(task, answer, clock).0 == s,
        s.next(task, answer, clock).1 is Done,
{
}

/// A fresh controller rests: no finger is up, nothing is remembered, and every button is
/// armed; nothing has happened since it was made.
pub proof fn law_fresh_controller_rests(now: u64)
    ensures
        State::fresh(now).wf(),
        State::fresh(now).modes.mode == Mode::Idle,
        State::fresh(now).modes.candidate is None,
        State::fresh(now).last_status.len() == 0,
        State::fresh(now).cursor is None,
        State::fresh(now).history.len() == 0,
        forall|i: int| 0 <= i < 5 ==> !#[trigger] State::fresh(now).finger_up[i],
        State::fresh(now).pinch == (PinchState {
            left_armed: true,
            right_armed: true,
            last_click: now,
        }),
        State::fresh(now).scroll == (ScrollState {
            entered: None,
            last_y: None,
            travel: Scalar { bits: 0 },
        }),
        State::fresh(now).fist == (FistState { since: None, fired: false, last_fire: now }),
        State::fresh(now).palm == (PalmState {
            anchor: None,
            vol_armed: true,
            since: None,
            last_switch: now,
            last_flip: now,
        }),
        State::fresh(now).claps == (ClapState {
            count: 0,
            last_clap: now,
            together: false,
            window_since: None,
            right_start_y: None,
            last_shutdown: None,
        }),
        State::fresh(now).voice.last_shutdown is None,
{
}

/// Losing the hand ends every gesture and the mode, and keeps what cools down: the times
/// of the last actions, the armed buttons, a fist that has acted, and the shutdown.
pub proof fn law_lost_hand_keeps_what_cools_down(s: State)
    requires
        s.wf(),
    ensures
        ({
            let after = s.lost();
            &&& after.modes == (ModeState { mode: Mode::Idle, candidate: None, frames: 0 })
            &&& after.finger_up.len() == 5
            &&& forall|i: int| 0 <= i < 5 ==> !#[trigger] after.finger_up[i]
            &&& after.cursor is None
            &&& after.history.len() == 0
            &&& after.pinch == s.pinch
            &&& after.scroll == (ScrollState {
                entered: s.scroll.entered,
                last_y: None,
                travel: Scalar { bits: 0 },
            })
            &&& after.fist == (FistState { since: None, ..s.fist })
            &&& after.palm == (PalmState {
                anchor: None,
                vol_armed: true,
                since: None,
                ..s.palm
            })
            &&& after.claps == s.claps
            &&& after.voice == s.voice
            &&& s.modes.mode == Mode::Idle ==> after.last_status == s.last_status
            &&& s.modes.mode != Mode::Idle ==> after.last_status == "[MODE] "@ + "idle"@
            &&& s.lost_announces() <==> s.modes.mode != Mode::Idle
        }),
{
    law_hand_loss_is_announced(s);
}

/// Between two claps and their confirmation every hand is left alone; else the frame goes
/// on with a complete hand, the largest one, and the hand is lost exactly if there is no
/// complete one.
pub proof fn law_frame_goes_on_with_the_largest_hand(
    s: State,
    hands: Seq<Hand>,
    spans: Seq<Scalar>,
)
    requires
        hands.len() <= usize::MAX,
        spans.len() == hands.len(),
        forall|i: int| 0 <= i < spans.len() ==> !(#[trigger] spans[i]).is_nan(),
    ensures
        match s.route(hands, spans) {
            Route::Suspended => s.claps.window_since is Some,
            Route::Process(best) => {
                &&& s.claps.window_since is None
                &&& best < hands.len()
                &&& hands[best as int].landmarks@.len() >= 21
                &&& forall|i: int|
                    0 <= i < hands.len() && (#[trigger] hands[i]).landmarks@.len() >= 21
                        ==> spans[i].at_most(spans[best as int])
                &&& forall|i: int|
                    best < i < hands.len() && (#[trigger] hands[i]).landmarks@.len() >= 21
                        ==> spans[i].below(spans[best as int])
            },
            Route::Lost => s.claps.window_since is None && forall|i: int|
                0 <= i < hands.len() ==> (#[trigger] hands[i]).landmarks@.len() < 21,
        },
{
    law_primary_is_largest(hands, spans, hands.len() as int);
    assert forall|i: int|
        0 <= i < hands.len() && (#[trigger] hands[i]).landmarks@.len() >= 21 implies hands[i].full() by {}
}

/// A spoken command counts down unless the last one is too recent, and nothing but its
/// time is kept; once the countdown has passed, the shutdown gesture starts over and the
/// machine is powered off. Anything else, an interrupted countdown too, changes nothing.
pub proof fn law_spoken_command_counts_down(
    s: State,
    matched: bool,
    now: u64,
    step: VoiceStep,
    answer: ShutdownAnswer,
    clock: u64,
)
    ensures
        ({
            let (after, said) = s.heard(matched, now);
            if s.voice.last_shutdown matches Some(t) && now < t + VOICE_COOLDOWN {
                said == VoiceStep::Cooling && after == s
            } else if matched {
                said == VoiceStep::Countdown && after == (State {
                    voice: VoiceState { last_shutdown: Some(now) },
                    ..s
                })
            } else {
                said == VoiceStep::Unmatched && after == s
            }
        }),
        ({
            let (after, said) = s.spoken(step, answer, clock);
            if step == VoiceStep::Countdown && answer is Performed {
                said == VoiceStep::PowerOff && after == (State {
                    claps: ClapState {
                        count: 0,
                        window_since: None,
                        right_start_y: None,
                        last_shutdown: Some(clock),
                        ..s.claps
                    },
                    ..s
                })
            } else {
                said == VoiceStep::Done && after == s
            }
        }),
{
}


} // verus!
