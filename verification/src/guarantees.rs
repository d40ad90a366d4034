//! What the controller as a whole guarantees.
use vstd::arithmetic::power2::pow2;
use vstd::prelude::*;

use crate::controller::{
    mode_line_of, FrameAnswer, FrameStage, FrameStep, FrameTask, HandReading, Route, State,
    VoiceStep,
};
use crate::cursor::{
    aimed, inside, law_aim_is_on_screen, law_pixel_is_on_screen, law_smoothing_stays_on_screen, on_side,
    screen_side, smooths,
};
use crate::fingers::{fingers_after, opened, raised_fist};
use crate::fist::{closes_at, fist_at, held_throughout, FistEvent};
use crate::hand::Point;
use crate::mode::{after_all, pose, streak, Mode, ModeState};
use crate::motion::{remembered, stretch, Sample};
use crate::palm::{law_swipe_is_no_flip, measured, PalmEvent, PalmMotion};
use crate::pinch::{after_frame, apart, touching, PinchButton, PinchFrame};
use crate::settings::{
    number, FIST_HOLD, FIST_REARM, FLIP_VEL, MIN_HAND_SPAN, MODE_CONFIRM_FRAMES, SCROLL_MAX_TICKS,
    SWIPE_VEL,
};
use crate::shutdown::ShutdownAnswer;

verus! {

/// A call of the controller, by what it is told.
pub enum Call {
    Frame { r: HandReading, now: u64 },
    Answer { task: FrameTask, answer: FrameAnswer, clock: u64 },
    Lost,
}

/// The state after a call.
pub open spec fn after_call(s: State, call: Call) -> State {
    match call {
        Call::Frame { r, now } => s.frame(r, now).0,
        Call::Answer { task, answer, clock } => s.next(task, answer, clock).0,
        Call::Lost => s.lost(),
    }
}

/// The state after a sequence of calls.
pub open spec fn after_calls(start: State, calls: Seq<Call>) -> State
    decreases calls.len(),
{
    if calls.len() == 0 {
        start
    } else {
        after_call(after_calls(start, calls.drop_last()), calls.last())
    }
}

/// Whether a reading is of a hand that is large enough.
pub open spec fn usable(r: HandReading) -> bool {
    !r.span.below(number(MIN_HAND_SPAN))
}

/// Whether a reading shows a raised fist to a controller in this state.
pub open spec fn shows_fist(s: State, r: HandReading) -> bool {
    raised_fist(fingers_after(s.finger_up, r.angles@, r.ratios@), r.wrist_y)
}

/// Whether a reading shows one of the four fingers up to a controller in this state.
pub open spec fn shows_open(s: State, r: HandReading) -> bool {
    opened(fingers_after(s.finger_up, r.angles@, r.ratios@))
}

/// The state in which a usable frame has taken in the hand and not acted yet.
spec fn begun(s: State, r: HandReading, now: u64) -> State {
    State {
        finger_up: fingers_after(s.finger_up, r.angles@, r.ratios@),
        history: remembered(s.history, Sample { t: now, p: r.centroid }),
        fist: s.fist.seen(shows_fist(s, r), shows_open(s, r), now),
        ..s
    }
}

/// The task of such a frame.
spec fn begun_task(s: State, r: HandReading, now: u64) -> FrameTask {
    FrameTask {
        reading: r,
        now,
        fist: shows_fist(s, r),
        rested: s.pinch.rested(now),
        stretch: stretch(begun(s, r, now).history),
        stage: FrameStage::CloseTab,
    }
}

/// What a call means for the fist.
pub open spec fn fist_event(s: State, call: Call) -> Option<FistEvent> {
    match call {
        Call::Frame { r, now } => if usable(r) {
            Some(FistEvent::Frame { fist: shows_fist(s, r), opened: shows_open(s, r), now })
        } else {
            None
        },
        Call::Answer { task, answer, .. } => match (task.stage, answer) {
            (FrameStage::CloseTab, FrameAnswer::Performed) => Some(
                FistEvent::Closed { now: task.now },
            ),
            _ => None,
        },
        Call::Lost => Some(FistEvent::Lost),
    }
}

/// What a sequence of calls means for the fist.
pub open spec fn fist_events(start: State, calls: Seq<Call>) -> Seq<FistEvent>
    decreases calls.len(),
{
    if calls.len() == 0 {
        Seq::empty()
    } else {
        let before = fist_events(start, calls.drop_last());
        match fist_event(after_calls(start, calls.drop_last()), calls.last()) {
            Some(event) => before.push(event),
            None => before,
        }
    }
}

#[verifier::rlimit(30)]
proof fn lemma_call_drives_fist(s: State, call: Call)
    ensures
        after_call(s, call).fist == match fist_event(s, call) {
            Some(event) => crate::fist::after_event(s.fist, event),
            None => s.fist,
        },
{
}

/// Whatever is called, the fist changes by its own rules alone: its state is the
/// one that the frames, the closed tabs and the losses of the hand lead to.
pub proof fn law_fist_follows_its_events(start: State, calls: Seq<Call>)
    ensures
        after_calls(start, calls).fist == crate::fist::after_events(
            start.fist,
            fist_events(start, calls),
        ),
    decreases calls.len(),
{
    if calls.len() > 0 {
        let before = calls.drop_last();
        law_fist_follows_its_events(start, before);
        lemma_call_drives_fist(after_calls(start, before), calls.last());
        let events = fist_events(start, before);
        match fist_event(after_calls(start, before), calls.last()) {
            Some(event) => {
                assert(events.push(event).drop_last() == events);
            },
            None => {},
        }
    }
}

/// The safe fist: whatever was called before, a frame that asks to close a tab
/// shows a raised fist, and so did every usable frame since one at least
/// `FIST_HOLD` earlier, without the hand leaving the view in between.
pub proof fn law_safe_fist(start: State, calls: Seq<Call>, r: HandReading, now: u64)
    requires
        start.fist.since is None,
        after_calls(start, calls).frame(r, now).1 is CloseTab,
    ensures
        shows_fist(after_calls(start, calls), r),
        exists|j: int, t0: u64|
            0 <= j < fist_events(start, calls).len() && #[trigger] fist_at(
                fist_events(start, calls),
                j,
                t0,
            ) && now - t0 >= FIST_HOLD && held_throughout(
                fist_events(start, calls),
                j,
                fist_events(start, calls).len() as int,
            ),
{
    let s = after_calls(start, calls);
    let events = fist_events(start, calls);
    let all = events.push(FistEvent::Frame { fist: true, opened: false, now });
    law_fist_follows_its_events(start, calls);
    lemma_close_tab_is_due(s, r, now);
    assert(all.take(events.len() as int) == events);
    assert(closes_at(start.fist, all, events.len() as int));
    crate::fist::law_tab_closes_only_on_held_fist(start.fist, all, events.len() as int);
    let (j, t0) = choose|j: int, t0: u64|
        0 <= j < events.len() && #[trigger] fist_at(all, j, t0) && now - t0 >= FIST_HOLD
            && held_throughout(all, j, events.len() as int + 1);
    assert(fist_at(events, j, t0));
    assert forall|i: int| j <= i < events.len() implies !(#[trigger] events[i]).interrupts() by {
        assert(all[i] == events[i]);
        assert(!all[i].interrupts());
    }
    assert(held_throughout(events, j, events.len() as int));
}

proof fn lemma_close_tab_is_due(s: State, r: HandReading, now: u64)
    requires
        s.frame(r, now).1 is CloseTab,
    ensures
        usable(r),
        shows_fist(s, r),
        s.fist.due(true, now),
{
}

/// One tab per fist: after the controller was told that a tab was closed, no frame
/// asks for another one before a usable frame, more than `FIST_REARM` after the frame
/// that closed it, showed the hand opened, with one of the four fingers up.
pub proof fn law_one_tab_per_fist(
    start: State,
    calls: Seq<Call>,
    i: int,
    r: HandReading,
    now: u64,
)
    requires
        0 <= i < fist_events(start, calls).len(),
        fist_events(start, calls)[i] is Closed,
        forall|m: int|
            i < m < fist_events(start, calls).len() ==> !((#[trigger] fist_events(
                start,
                calls,
            )[m]) is Closed),
        after_calls(start, calls).frame(r, now).1 is CloseTab,
    ensures
        exists|m: int|
            i < m < fist_events(start, calls).len() && (#[trigger] fist_events(
                start,
                calls,
            )[m]).opens() && fist_events(start, calls)[m].time() - fist_events(
                start,
                calls,
            )[i].time() > FIST_REARM,
{
    let s = after_calls(start, calls);
    let events = fist_events(start, calls);
    let k = events.len() as int;
    let all = events.push(FistEvent::Frame { fist: true, opened: false, now });
    law_fist_follows_its_events(start, calls);
    lemma_close_tab_is_due(s, r, now);
    assert(all.take(k) == events);
    assert(all[i] == events[i]);
    assert forall|m: int| i < m < k implies !((#[trigger] all[m]) is Closed) by {
        assert(all[m] == events[m]);
        assert(!(events[m] is Closed));
    }
    assert(closes_at(start.fist, all, k));
    crate::fist::law_one_tab_per_fist(start.fist, all, i, k);
    let m = choose|m: int|
        i < m < k && (#[trigger] all[m]).opens() && all[m].time() - all[i].time() > FIST_REARM;
    assert(all[m] == events[m]);
}

/// Whether the call at this position tells that a tab was closed.
pub open spec fn tab_closed_at(calls: Seq<Call>, i: int) -> bool {
    calls[i] matches Call::Answer { task, answer, .. } && task.stage is CloseTab && answer
        is Performed
}

proof fn lemma_closed_hand_stays_disarmed(start: State, calls: Seq<Call>, i: int, k: int)
    requires
        0 <= i < k <= calls.len(),
        tab_closed_at(calls, i),
        forall|m: int|
            i < m <= k ==> !opened((#[trigger] after_calls(start, calls.take(m))).finger_up),
    ensures
        after_calls(start, calls.take(k)).fist.fired,
    decreases k,
{
    assert(calls.take(k).drop_last() == calls.take(k - 1));
    assert(calls.take(k).last() == calls[k - 1]);
    let s = after_calls(start, calls.take(k - 1));
    lemma_call_drives_fist(s, calls[k - 1]);
    if i < k - 1 {
        lemma_closed_hand_stays_disarmed(start, calls, i, k - 1);
        assert(!opened(after_calls(start, calls.take(k)).finger_up));
    }
}

/// A hand that stays closed closes no second tab, however it is raised, lowered or
/// lost meanwhile: after the controller was told that a tab was closed, a frame asks
/// for another one only if some call since then left one of the four fingers up.
pub proof fn law_closed_hand_closes_no_second_tab(
    start: State,
    calls: Seq<Call>,
    i: int,
    r: HandReading,
    now: u64,
)
    requires
        0 <= i < calls.len(),
        tab_closed_at(calls, i),
        after_calls(start, calls).frame(r, now).1 is CloseTab,
    ensures
        exists|m: int|
            i < m <= calls.len() && opened(
                (#[trigger] after_calls(start, calls.take(m))).finger_up,
            ),
{
    let n = calls.len() as int;
    assert(calls.take(n) == calls);
    if !(exists|m: int|
        i < m <= n && opened((#[trigger] after_calls(start, calls.take(m))).finger_up)) {
        lemma_closed_hand_stays_disarmed(start, calls, i, n);
        lemma_close_tab_is_due(after_calls(start, calls), r, now);
    }
}

/// Whether a task, taken up again where the pinches are watched, reaches the
/// selection of the mode without a further click.
pub open spec fn pinches_pass(s: State, task: FrameTask) -> bool {
    task.fist || {
        &&& !s.pinch.due(PinchButton::Left, task.rested, task.reading.pinch(PinchButton::Left))
        &&& right_passes(s, task)
    }
}

/// Whether the right pinch does not click.
pub open spec fn right_passes(s: State, task: FrameTask) -> bool {
    !s.pinch.due(PinchButton::Right, task.rested, task.reading.pinch(PinchButton::Right))
}

/// The pose that a call hands to the selection of the mode, if it gets that far.
pub open spec fn pose_seen(s: State, call: Call) -> Option<Mode> {
    match call {
        Call::Frame { r, now } => {
            let fist = shows_fist(s, r);
            let fingers = fingers_after(s.finger_up, r.angles@, r.ratios@);
            let rested = s.pinch.rested(now);
            if !usable(r) || s.fist.due(fist, now) {
                None
            } else if fist || (!s.pinch.due(PinchButton::Left, rested, r.pinch(PinchButton::Left))
                && !s.pinch.due(PinchButton::Right, rested, r.pinch(PinchButton::Right))) {
                Some(pose(fingers, fist, s.fist.seen(fist, opened(fingers), now).fired))
            } else {
                None
            }
        },
        Call::Answer { task, answer, .. } => match (task.stage, answer) {
            (FrameStage::CloseTab, FrameAnswer::Performed) => if pinches_pass(s, task) {
                Some(pose(s.finger_up, task.fist, true))
            } else {
                None
            },
            (FrameStage::Click(PinchButton::Left), FrameAnswer::Performed) => if right_passes(
                s,
                task,
            ) {
                Some(pose(s.finger_up, task.fist, s.fist.fired))
            } else {
                None
            },
            (FrameStage::Click(PinchButton::Right), FrameAnswer::Performed) => Some(
                pose(s.finger_up, task.fist, s.fist.fired),
            ),
            _ => None,
        },
        Call::Lost => None,
    }
}

/// The poses that calls handed to the selection of the mode since the hand was
/// last lost.
pub open spec fn poses_seen(start: State, calls: Seq<Call>) -> Seq<Mode>
    decreases calls.len(),
{
    if calls.len() == 0 || calls.last() is Lost {
        Seq::empty()
    } else {
        let before = poses_seen(start, calls.drop_last());
        match pose_seen(after_calls(start, calls.drop_last()), calls.last()) {
            Some(p) => before.push(p),
            None => before,
        }
    }
}

/// The mode state from which those poses count: the one after the hand was last
/// lost, or the start.
pub open spec fn poses_base(start: State, calls: Seq<Call>) -> ModeState
    decreases calls.len(),
{
    if calls.len() == 0 {
        start.modes
    } else if calls.last() is Lost {
        ModeState { mode: Mode::Idle, candidate: None, frames: 0 }
    } else {
        poses_base(start, calls.drop_last())
    }
}

#[verifier::rlimit(30)]
proof fn lemma_call_drives_modes(s: State, call: Call)
    requires
        !(call is Lost),
    ensures
        after_call(s, call).modes == match pose_seen(s, call) {
            Some(p) => s.modes.after(p),
            None => s.modes,
        },
{
}

/// Whatever is called, the mode changes by its own rules alone: through the poses
/// seen since the hand was last lost.
pub proof fn law_modes_follow_poses(start: State, calls: Seq<Call>)
    ensures
        after_calls(start, calls).modes == after_all(
            poses_base(start, calls),
            poses_seen(start, calls),
        ),
    decreases calls.len(),
{
    if calls.len() > 0 && !(calls.last() is Lost) {
        let before = calls.drop_last();
        law_modes_follow_poses(start, before);
        let s = after_calls(start, before);
        lemma_call_drives_modes(s, calls.last());
        let poses = poses_seen(start, before);
        match pose_seen(s, calls.last()) {
            Some(p) => {
                assert(poses.push(p).drop_last() == poses);
            },
            None => {},
        }
    }
}

/// Debounced modes: whatever was called before, a call other than the loss of the
/// hand changes the mode only if the last `MODE_CONFIRM_FRAMES` poses seen, since
/// the hand was last lost, all were the pose of the new mode.
pub proof fn law_modes_are_debounced(start: State, calls: Seq<Call>, call: Call)
    requires
        start.wf(),
        start.modes.candidate is None,
        !(call is Lost),
        after_call(after_calls(start, calls), call).modes.mode != after_calls(
            start,
            calls,
        ).modes.mode,
    ensures
        poses_seen(start, calls.push(call)).len() >= MODE_CONFIRM_FRAMES,
        forall|i: int|
            poses_seen(start, calls.push(call)).len() - MODE_CONFIRM_FRAMES <= i < poses_seen(
                start,
                calls.push(call),
            ).len() ==> #[trigger] poses_seen(start, calls.push(call))[i] == after_call(
                after_calls(start, calls),
                call,
            ).modes.mode,
{
    let all = calls.push(call);
    assert(all.drop_last() == calls);
    let s = after_calls(start, calls);
    law_modes_follow_poses(start, calls);
    law_modes_follow_poses(start, all);
    lemma_call_drives_modes(s, call);
    lemma_base_is_settled(start, calls);
    let poses = poses_seen(start, all);
    let p = pose_seen(s, call)->0;
    assert(poses == poses_seen(start, calls).push(p));
    assert(poses.drop_last() == poses_seen(start, calls));
    crate::mode::law_mode_change_needs_consecutive_frames(poses_base(start, all), poses);
}

proof fn lemma_base_is_settled(start: State, calls: Seq<Call>)
    requires
        start.wf(),
        start.modes.candidate is None,
    ensures
        poses_base(start, calls).wf(),
        poses_base(start, calls).candidate is None,
    decreases calls.len(),
{
    if calls.len() > 0 {
        lemma_base_is_settled(start, calls.drop_last());
    }
}

proof fn lemma_equal_poses_are_a_streak(poses: Seq<Mode>, p: Mode, n: nat)
    requires
        n <= poses.len(),
        forall|i: int| poses.len() - n <= i < poses.len() ==> #[trigger] poses[i] == p,
    ensures
        streak(poses, p) >= n,
    decreases n,
{
    if n > 0 {
        let before = poses.drop_last();
        assert forall|i: int| before.len() - (n - 1) <= i < before.len() implies
            #[trigger] before[i] == p by {
            assert(before[i] == poses[i]);
        }
        assert(poses[poses.len() - 1] == p);
        lemma_equal_poses_are_a_streak(before, p, (n - 1) as nat);
    }
}

/// A pose that is held becomes the mode: whatever was called before, once the last
/// `MODE_CONFIRM_FRAMES` poses seen, since the hand was last lost, are one pose, it
/// is the mode.
pub proof fn law_held_pose_becomes_mode(start: State, calls: Seq<Call>, p: Mode)
    requires
        start.wf(),
        start.modes.candidate is None,
        poses_seen(start, calls).len() >= MODE_CONFIRM_FRAMES,
        forall|i: int|
            poses_seen(start, calls).len() - MODE_CONFIRM_FRAMES <= i < poses_seen(
                start,
                calls,
            ).len() ==> #[trigger] poses_seen(start, calls)[i] == p,
    ensures
        after_calls(start, calls).modes.mode == p,
{
    let poses = poses_seen(start, calls);
    law_modes_follow_poses(start, calls);
    lemma_base_is_settled(start, calls);
    lemma_equal_poses_are_a_streak(poses, p, MODE_CONFIRM_FRAMES as nat);
    crate::mode::law_held_pose_becomes_mode(poses_base(start, calls), poses, p);
}

/// The state and the step after the caller has tried every click that a step asks
/// for.
pub open spec fn clicks_tried(
    s: State,
    step: FrameStep,
    left_done: bool,
    right_done: bool,
    clock: u64,
) -> (State, FrameStep) {
    let (s1, step1) = match step {
        FrameStep::Click(PinchButton::Left, task) => s.next(
            task,
            if left_done {
                FrameAnswer::Performed
            } else {
                FrameAnswer::Failed
            },
            clock,
        ),
        _ => (s, step),
    };
    match step1 {
        FrameStep::Click(PinchButton::Right, task) => s1.next(
            task,
            if right_done {
                FrameAnswer::Performed
            } else {
                FrameAnswer::Failed
            },
            clock,
        ),
        _ => (s1, step1),
    }
}

/// A frame clicks by the rules of the pinch alone: once the caller has tried the
/// clicks that the frame asks for, the pinches are in the state that those rules
/// lead to.
#[verifier::rlimit(30)]
pub proof fn law_frame_clicks_by_the_rules(
    s: State,
    r: HandReading,
    now: u64,
    left_done: bool,
    right_done: bool,
    clock: u64,
)
    requires
        usable(r),
        !(s.frame(r, now).1 is CloseTab),
    ensures
        clicks_tried(
            s.frame(r, now).0,
            s.frame(r, now).1,
            left_done,
            right_done,
            clock,
        ).0.pinch == after_frame(
            s.pinch,
            PinchFrame {
                now,
                fist: shows_fist(s, r),
                left: r.pinch(PinchButton::Left),
                right: r.pinch(PinchButton::Right),
                left_done,
                right_done,
            },
        ).0,
{
}

/// The reading that a call is about.
pub open spec fn reading_of(call: Call) -> Option<HandReading> {
    match call {
        Call::Frame { r, .. } => Some(r),
        Call::Answer { task, .. } => Some(task.reading),
        Call::Lost => None,
    }
}

/// The step that a call leads to.
pub open spec fn step_of(s: State, call: Call) -> FrameStep {
    match call {
        Call::Frame { r, now } => s.frame(r, now).1,
        Call::Answer { task, answer, clock } => s.next(task, answer, clock).1,
        Call::Lost => FrameStep::Done,
    }
}

proof fn lemma_mode_part_never_clicks(s: State, task: FrameTask)
    ensures
        !(s.mode_part(task).1 is Click),
{
}

proof fn lemma_pose_part_never_clicks(s: State, task: FrameTask, clock: u64)
    ensures
        !(s.pose_part(task, clock).1 is Click),
{
}

proof fn lemma_pinch_part_clicks(s: State, task: FrameTask, clock: u64)
    ensures
        s.right_part(task, clock).1 matches FrameStep::Click(button, t) ==> s.right_part(
            task,
            clock,
        ).0.pinch.due(button, t.rested, t.reading.pinch(button)),
        s.pinch_part(task, clock).1 matches FrameStep::Click(button, t) ==> s.pinch_part(
            task,
            clock,
        ).0.pinch.due(button, t.rested, t.reading.pinch(button)),
{
    let left = s.pinch.released(PinchButton::Left, task.reading.pinch(PinchButton::Left));
    let right = s.pinch.released(PinchButton::Right, task.reading.pinch(PinchButton::Right));
    let both = left.released(PinchButton::Right, task.reading.pinch(PinchButton::Right));
    lemma_pose_part_never_clicks(s, task, clock);
    lemma_pose_part_never_clicks(State { pinch: right, ..s }, task, clock);
    lemma_pose_part_never_clicks(State { pinch: both, ..s }, task, clock);
}

/// No phantom clicks: whatever is called, a click is asked for only when its button
/// is armed, the last click was long enough ago when the frame began, the finger is
/// not folded away, and the fingertips touch.
pub proof fn law_clicks_need_real_pinches(s: State, call: Call)
    ensures
        step_of(s, call) matches FrameStep::Click(button, task) ==> {
            &&& after_call(s, call).pinch.armed(button)
            &&& task.rested
            &&& task.reading.pinch(button).unfolded()
            &&& touching(task.reading.pinch(button).gap, task.reading.close_reach)
        },
{
    match call {
        Call::Frame { r, now } => {
            lemma_pinch_part_clicks(begun(s, r, now), begun_task(s, r, now), now);
        },
        Call::Answer { task, answer, clock } => {
            let left = s.pinch.clicked(PinchButton::Left, task.now);
            let right = s.pinch.clicked(PinchButton::Right, task.now);
            lemma_pinch_part_clicks(State { fist: s.fist.acted(task.now), ..s }, task, clock);
            lemma_pinch_part_clicks(State { pinch: left, ..s }, task, clock);
            lemma_pose_part_never_clicks(State { pinch: right, ..s }, task, clock);
            lemma_mode_part_never_clicks(s, task);
        },
        Call::Lost => {},
    }
}

proof fn lemma_pose_part_keeps_pinch(s: State, task: FrameTask, clock: u64)
    ensures
        s.pose_part(task, clock).0.pinch == s.pinch,
{
}

proof fn lemma_pinch_part_arms(s: State, task: FrameTask, clock: u64, button: PinchButton)
    requires
        !s.pinch.armed(button),
        !apart(task.reading.pinch(button).gap, task.reading.open_reach),
    ensures
        !s.right_part(task, clock).0.pinch.armed(button),
        !s.pinch_part(task, clock).0.pinch.armed(button),
{
    let left = s.pinch.released(PinchButton::Left, task.reading.pinch(PinchButton::Left));
    let s1 = State { pinch: left, ..s };
    let right = s.pinch.released(PinchButton::Right, task.reading.pinch(PinchButton::Right));
    let both = left.released(PinchButton::Right, task.reading.pinch(PinchButton::Right));
    lemma_pose_part_keeps_pinch(s, task, clock);
    lemma_pose_part_keeps_pinch(State { pinch: right, ..s }, task, clock);
    lemma_pose_part_keeps_pinch(State { pinch: both, ..s1 }, task, clock);
}

/// No machine-gun clicking: whatever is called, a button that is not armed becomes
/// armed only in a call about a reading that shows its fingertips apart.
pub proof fn law_buttons_rearm_only_when_apart(s: State, call: Call, button: PinchButton)
    requires
        !s.pinch.armed(button),
        after_call(s, call).pinch.armed(button),
    ensures
        reading_of(call) matches Some(r) && apart(r.pinch(button).gap, r.open_reach),
{
    match call {
        Call::Frame { r, now } => {
            if usable(r) && !apart(r.pinch(button).gap, r.open_reach) {
                let s1 = begun(s, r, now);
                let task = begun_task(s, r, now);
                lemma_pinch_part_arms(s1, task, now, button);
            }
        },
        Call::Answer { task, answer, clock } => {
            if !apart(task.reading.pinch(button).gap, task.reading.open_reach) {
                let tab = State { fist: s.fist.acted(task.now), ..s };
                let left = s.pinch.clicked(PinchButton::Left, task.now);
                let right = s.pinch.clicked(PinchButton::Right, task.now);
                lemma_pinch_part_arms(tab, task, clock, button);
                lemma_pinch_part_arms(State { pinch: left, ..s }, task, clock, button);
                lemma_pose_part_keeps_pinch(State { pinch: right, ..s }, task, clock);
            }
        },
        Call::Lost => {},
    }
}

/// The state and the step after the caller has tried the workspace switch and the
/// volume step that a measured palm asks for.
pub open spec fn palm_tried(
    s: State,
    task: FrameTask,
    m: PalmMotion,
    switched: bool,
    stepped: bool,
    clock: u64,
) -> (State, FrameStep) {
    let (s1, step1) = s.next(task, FrameAnswer::Motion(m), clock);
    let (s2, step2) = match step1 {
        FrameStep::SwitchWorkspace(_, task1) => s1.next(
            task1,
            if switched {
                FrameAnswer::Performed
            } else {
                FrameAnswer::Failed
            },
            clock,
        ),
        _ => (s1, step1),
    };
    match step2 {
        FrameStep::StepVolume(_, task2) => s2.next(
            task2,
            if stepped {
                FrameAnswer::Performed
            } else {
                FrameAnswer::Failed
            },
            clock,
        ),
        _ => (s2, step2),
    }
}

/// A palm acts by its own rules alone: once the caller has tried what a measured
/// palm asks for, the palm is in the state that those rules lead to, and the frame
/// is done.
pub proof fn law_palm_acts_by_the_rules(
    s: State,
    task: FrameTask,
    m: PalmMotion,
    switched: bool,
    stepped: bool,
    clock: u64,
)
    requires
        task.stage is MeasurePalm,
    ensures
        palm_tried(s, task, m, switched, stepped, clock).0.palm == crate::palm::after_event(
            s.palm,
            PalmEvent::Frame { m, pos: task.reading.centroid, now: task.now, switched, stepped },
        ).0,
        palm_tried(s, task, m, switched, stepped, clock).1 is Done,
{
}

/// Velocity-gated palm: a measured palm that is no faster than a swipe or a flip must
/// be asks for nothing.
pub proof fn law_slow_palm_asks_for_nothing(
    s: State,
    task: FrameTask,
    m: PalmMotion,
    clock: u64,
)
    requires
        task.stage is MeasurePalm,
        m.vx.unsigned().at_most(number(SWIPE_VEL)),
        m.vy.unsigned().at_most(number(FLIP_VEL)),
    ensures
        s.next(task, FrameAnswer::Motion(m), clock).1 is Done,
{
}

/// A frame never switches the workspace and steps the volume: whatever is answered
/// about a switch, no volume step follows it.
pub proof fn law_frame_switches_or_steps(
    s: State,
    task: FrameTask,
    m: PalmMotion,
    answer: FrameAnswer,
    clock: u64,
    later: u64,
)
    requires
        measured(m),
        task.stage is MeasurePalm,
    ensures
        ({
            let (s1, step) = s.next(task, FrameAnswer::Motion(m), clock);
            step matches FrameStep::SwitchWorkspace(_, task1) ==> s1.next(
                task1,
                answer,
                later,
            ).1 is Done
        }),
{
    law_swipe_is_no_flip(m);
}

/// Whether every point that a call hands over lies in a box: the target, the smoothed
/// point, and the cursor that is being smoothed.
pub open spec fn call_inside(call: Call, low: Point, high: Point) -> bool {
    match call {
        Call::Frame { r, .. } => inside(r.target, low, high),
        Call::Answer { task, answer, .. } => {
            &&& inside(task.reading.target, low, high)
            &&& match (task.stage, answer) {
                (FrameStage::Blend(from), FrameAnswer::Blend(blend)) => inside(from, low, high)
                    && inside(blend.blended, low, high),
                _ => true,
            }
        },
        Call::Lost => true,
    }
}

/// Whether the cursor, if there is one, lies in a box.
pub open spec fn cursor_inside(s: State, low: Point, high: Point) -> bool {
    s.cursor matches Some(p) ==> inside(p, low, high)
}

proof fn lemma_pose_part_keeps_inside(
    s: State,
    task: FrameTask,
    clock: u64,
    low: Point,
    high: Point,
)
    requires
        cursor_inside(s, low, high),
        inside(task.reading.target, low, high),
    ensures
        cursor_inside(s.pose_part(task, clock).0, low, high),
        s.pose_part(task, clock).1 matches FrameStep::MoveCursor { to, .. } ==> inside(
            to,
            low,
            high,
        ),
        s.pose_part(task, clock).1 matches FrameStep::Blend { from, .. } ==> inside(
            from,
            low,
            high,
        ),
{
}

proof fn lemma_pinch_part_keeps_inside(
    s: State,
    task: FrameTask,
    clock: u64,
    low: Point,
    high: Point,
)
    requires
        cursor_inside(s, low, high),
        inside(task.reading.target, low, high),
    ensures
        cursor_inside(s.pinch_part(task, clock).0, low, high),
        s.pinch_part(task, clock).1 matches FrameStep::MoveCursor { to, .. } ==> inside(
            to,
            low,
            high,
        ),
        s.pinch_part(task, clock).1 matches FrameStep::Blend { from, .. } ==> inside(
            from,
            low,
            high,
        ),
        cursor_inside(s.right_part(task, clock).0, low, high),
        s.right_part(task, clock).1 matches FrameStep::MoveCursor { to, .. } ==> inside(
            to,
            low,
            high,
        ),
        s.right_part(task, clock).1 matches FrameStep::Blend { from, .. } ==> inside(
            from,
            low,
            high,
        ),
{
    let left = s.pinch.released(PinchButton::Left, task.reading.pinch(PinchButton::Left));
    let right = s.pinch.released(PinchButton::Right, task.reading.pinch(PinchButton::Right));
    let both = left.released(PinchButton::Right, task.reading.pinch(PinchButton::Right));
    lemma_pose_part_keeps_inside(s, task, clock, low, high);
    lemma_pose_part_keeps_inside(State { pinch: right, ..s }, task, clock, low, high);
    lemma_pose_part_keeps_inside(State { pinch: both, ..s }, task, clock, low, high);
}

/// The cursor stays in a box that holds everything a call hands over, and it is moved
/// and smoothed within it only.
pub proof fn law_call_keeps_cursor_inside(s: State, call: Call, low: Point, high: Point)
    requires
        cursor_inside(s, low, high),
        call_inside(call, low, high),
    ensures
        cursor_inside(after_call(s, call), low, high),
        step_of(s, call) matches FrameStep::MoveCursor { to, .. } ==> inside(to, low, high),
        step_of(s, call) matches FrameStep::Blend { from, .. } ==> inside(from, low, high),
{
    match call {
        Call::Frame { r, now } => {
            let s1 = begun(s, r, now);
            let task = begun_task(s, r, now);
            lemma_pinch_part_keeps_inside(s1, task, now, low, high);
        },
        Call::Answer { task, answer, clock } => {
            let tab = State { fist: s.fist.acted(task.now), ..s };
            let left = s.pinch.clicked(PinchButton::Left, task.now);
            let right = s.pinch.clicked(PinchButton::Right, task.now);
            lemma_pinch_part_keeps_inside(tab, task, clock, low, high);
            lemma_pinch_part_keeps_inside(State { pinch: left, ..s }, task, clock, low, high);
            lemma_pose_part_keeps_inside(State { pinch: right, ..s }, task, clock, low, high);
        },
        Call::Lost => {},
    }
}

/// The cursor stays in such a box over any sequence of calls.
pub proof fn law_cursor_stays_inside(start: State, calls: Seq<Call>, low: Point, high: Point)
    requires
        cursor_inside(start, low, high),
        forall|i: int| 0 <= i < calls.len() ==> call_inside(#[trigger] calls[i], low, high),
    ensures
        cursor_inside(after_calls(start, calls), low, high),
    decreases calls.len(),
{
    if calls.len() > 0 {
        let before = calls.drop_last();
        assert forall|i: int| 0 <= i < before.len() implies call_inside(
            #[trigger] before[i],
            low,
            high,
        ) by {
            assert(before[i] == calls[i]);
        }
        law_cursor_stays_inside(start, before, low, high);
        assert(call_inside(calls[calls.len() - 1], low, high));
        law_call_keeps_cursor_inside(after_calls(start, before), calls.last(), low, high);
    }
}

/// Whether a point lies on a screen of this size.
pub open spec fn on_screen(p: Point, size: Point) -> bool {
    on_side(p.x, size.x) && on_side(p.y, size.y)
}

/// Whether a target is where some position in the view, however far outside of it,
/// stands on a screen of this size.
pub open spec fn aimed_at(target: Point, size: Point) -> bool {
    aimed(size.x, target.x) && aimed(size.y, target.y)
}

/// Whether a call hands over what was asked for: a target that a position stands for,
/// and, about a cursor to be smoothed, the point that smoothing gives.
pub open spec fn call_measured(s: State, call: Call, size: Point) -> bool {
    match call {
        Call::Frame { r, .. } => aimed_at(r.target, size),
        Call::Answer { task, answer, .. } => {
            &&& aimed_at(task.reading.target, size)
            &&& match (task.stage, answer) {
                (FrameStage::Blend(from), FrameAnswer::Blend(blend)) => {
                    &&& s.cursor == Some(from)
                    &&& smooths(from.x, task.reading.target.x, blend.blended.x)
                    &&& smooths(from.y, task.reading.target.y, blend.blended.y)
                },
                _ => true,
            }
        },
        Call::Lost => true,
    }
}

/// Whether the cursor, if there is one, lies on a screen of this size.
pub open spec fn cursor_on_screen(s: State, size: Point) -> bool {
    s.cursor matches Some(p) ==> on_screen(p, size)
}

/// The cursor stays on the screen, however far outside the view the finger points and
/// whatever rounding does: a call keeps it there, and moves it nowhere else. What it
/// asks to smooth is where the cursor is.
pub proof fn law_call_keeps_cursor_on_screen(s: State, call: Call, size: Point)
    requires
        screen_side(size.x) && screen_side(size.y),
        cursor_on_screen(s, size),
        call_measured(s, call, size),
    ensures
        cursor_on_screen(after_call(s, call), size),
        step_of(s, call) matches FrameStep::MoveCursor { to, .. } ==> on_screen(to, size),
        step_of(s, call) matches FrameStep::Blend { from, task, .. } ==> on_screen(from, size)
            && task.stage == FrameStage::Blend(from),
{
    let low = Point { x: number(0), y: number(0) };
    let high = Point { x: size.x.next(), y: size.y.next() };
    match call {
        Call::Frame { r, .. } => {
            law_aim_is_on_screen(size.x, r.target.x);
            law_aim_is_on_screen(size.y, r.target.y);
        },
        Call::Answer { task, answer, .. } => {
            let target = task.reading.target;
            law_aim_is_on_screen(size.x, target.x);
            law_aim_is_on_screen(size.y, target.y);
            match (task.stage, answer) {
                (FrameStage::Blend(from), FrameAnswer::Blend(blend)) => {
                    law_smoothing_stays_on_screen(from.x, target.x, blend.blended.x, size.x);
                    law_smoothing_stays_on_screen(from.y, target.y, blend.blended.y, size.y);
                },
                _ => {},
            }
        },
        Call::Lost => {},
    }
    assert(call_inside(call, low, high));
    law_call_keeps_cursor_inside(s, call, low, high);
    lemma_blend_fits(s, call);
}

proof fn lemma_blend_fits(s: State, call: Call)
    ensures
        step_of(s, call) matches FrameStep::Blend { from, task, .. } ==> task.stage
            == FrameStage::Blend(from),
{
    match call {
        Call::Frame { r, now } => {
            lemma_frame_fits(s, r, now);
        },
        Call::Answer { task, answer, clock } => {
            let left = s.pinch.clicked(PinchButton::Left, task.now);
            let right = s.pinch.clicked(PinchButton::Right, task.now);
            lemma_pinch_part_fits(State { fist: s.fist.acted(task.now), ..s }, task, clock);
            lemma_pinch_part_fits(State { pinch: left, ..s }, task, clock);
            lemma_pose_part_fits(State { pinch: right, ..s }, task, clock);
            lemma_mode_part_fits(s, task);
        },
        Call::Lost => {},
    }
}

/// The cursor stays on the screen over any sequence of calls, and the pixel it is moved
/// to is one of a screen of `width` by `height` pixels.
pub proof fn law_cursor_stays_on_screen(
    start: State,
    calls: Seq<Call>,
    size: Point,
    width: int,
    height: int,
)
    requires
        screen_side(size.x) && screen_side(size.y),
        0 <= width < 0x80_0000 && size.x.scaled() == width * pow2(149),
        0 <= height < 0x80_0000 && size.y.scaled() == height * pow2(149),
        cursor_on_screen(start, size),
        forall|i: int|
            0 <= i < calls.len() ==> call_measured(
                after_calls(start, calls.take(i)),
                #[trigger] calls[i],
                size,
            ),
    ensures
        cursor_on_screen(after_calls(start, calls), size),
        calls.len() > 0 ==> (step_of(after_calls(start, calls.drop_last()), calls.last())
            matches FrameStep::MoveCursor { to, .. } ==> 0 <= to.x.whole() <= width && 0
            <= to.y.whole() <= height),
    decreases calls.len(),
{
    if calls.len() > 0 {
        let before = calls.drop_last();
        let last = calls.len() - 1;
        let s = after_calls(start, before);
        assert forall|i: int| 0 <= i < before.len() implies call_measured(
            after_calls(start, before.take(i)),
            #[trigger] before[i],
            size,
        ) by {
            assert(before.take(i) == calls.take(i));
            assert(before[i] == calls[i]);
        }
        law_cursor_stays_on_screen(start, before, size, width, height);
        assert(calls.take(last) == before);
        assert(call_measured(s, calls[last], size));
        law_call_keeps_cursor_on_screen(s, calls[last], size);
        if let FrameStep::MoveCursor { to, .. } = step_of(s, calls[last]) {
            law_pixel_is_on_screen(to.x, size.x, width);
            law_pixel_is_on_screen(to.y, size.y, height);
        }
    }
}

/// A hand that is too small is no hand: it changes nothing and asks for nothing.
pub proof fn law_tiny_hand_is_ignored(s: State, r: HandReading, now: u64)
    requires
        !usable(r),
    ensures
        s.frame(r, now) == (s, FrameStep::Done),
{
}

/// A raised fist never clicks: neither its frame nor the answer about its tab asks
/// for a click.
pub proof fn law_fist_never_clicks(s: State, r: HandReading, now: u64, clock: u64)
    requires
        usable(r),
        shows_fist(s, r),
    ensures
        !(s.frame(r, now).1 is Click),
        s.frame(r, now).1 matches FrameStep::CloseTab(task) ==> !(s.frame(r, now).0.next(
            task,
            FrameAnswer::Performed,
            clock,
        ).1 is Click),
{
}

proof fn lemma_mode_lines_differ(a: Mode, b: Mode)
    requires
        a != b,
    ensures
        mode_line_of(a) != mode_line_of(b),
        mode_line_of(a).len() > 0,
{
    reveal_strlit("[MODE] ");
    reveal_strlit("idle");
    reveal_strlit("cursor");
    reveal_strlit("scroll");
    reveal_strlit("palm");
    let la = mode_line_of(a);
    let lb = mode_line_of(b);
    assert(la.len() == 7 + a.name().len());
    assert(lb.len() == 7 + b.name().len());
    assert(la[7] == a.name()[0]);
    assert(lb[7] == b.name()[0]);
}

/// Every change of the mode is announced, and the line last shown names the mode.
pub proof fn law_mode_change_is_announced(s: State, task: FrameTask, clock: u64)
    requires
        s.wf(),
        s.pose_part(task, clock).0.modes.mode != s.modes.mode,
    ensures
        s.pose_part(task, clock).1 matches FrameStep::Announce(mode, _) && mode == s.pose_part(
            task,
            clock,
        ).0.modes.mode,
        s.pose_part(task, clock).0.last_status == mode_line_of(
            s.pose_part(task, clock).0.modes.mode,
        ),
{
    let seen = pose(s.finger_up, task.fist, s.fist.fired);
    assert(s.modes.confirms(seen));
    lemma_mode_lines_differ(seen, s.modes.mode);
}

/// Losing the hand is announced as well, unless the mode was idle already.
pub proof fn law_hand_loss_is_announced(s: State)
    requires
        s.wf(),
    ensures
        s.lost_announces() <==> s.modes.mode != Mode::Idle,
{
    if s.modes.mode != Mode::Idle {
        lemma_mode_lines_differ(s.modes.mode, Mode::Idle);
    }
}

/// Losing the hand forgets every gesture that was under way, but neither the
/// cooldowns nor a fist that was already acted upon; losing it again changes
/// nothing more.
pub proof fn law_hand_loss_forgets_gestures(s: State)
    ensures
        s.lost().modes == (ModeState { mode: Mode::Idle, candidate: None, frames: 0 }),
        s.lost().cursor is None,
        s.lost().history.len() == 0,
        s.lost().palm.anchor is None,
        s.lost().palm.vol_armed,
        s.lost().fist.since is None,
        s.lost().scroll.travel == number(0),
        s.lost().pinch == s.pinch,
        s.lost().fist.fired == s.fist.fired,
        s.lost().palm.last_switch == s.palm.last_switch,
        s.lost().palm.last_flip == s.palm.last_flip,
        s.lost().claps == s.claps,
        s.lost().voice == s.voice,
        s.lost().lost() == s.lost(),
{
}

/// Entering the palm forgets motion from before, and the palm acts only once it
/// has settled; entering the cursor makes it snap to the finger.
pub proof fn law_entering_a_mode_starts_clean(s: State, task: FrameTask, clock: u64)
    requires
        s.pose_part(task, clock).1 is Announce,
    ensures
        ({
            let (s1, step) = s.pose_part(task, clock);
            let (s2, step2) = s1.next(step->Announce_1, FrameAnswer::Performed, clock);
            &&& s1.modes.mode == Mode::Palm ==> s1.history.len() == 0 && s1.palm.since == Some(
                clock,
            )
            &&& s1.modes.mode == Mode::Palm && clock >= task.now ==> step2 is Done
                && s2.palm.anchor == Some(task.reading.centroid)
            &&& s1.modes.mode == Mode::Cursor ==> (step2 matches FrameStep::MoveCursor { to, .. }
                && to == task.reading.target)
            &&& s1.modes.mode == Mode::Scroll && clock >= task.now ==> step2 is Done
        }),
{
}

/// Palm gestures wait: a palm that has not settled is not even measured.
pub proof fn law_palm_waits_to_settle(s: State, task: FrameTask)
    requires
        s.modes.mode == Mode::Palm,
        s.palm.settling(task.now),
    ensures
        s.mode_part(task).1 is Done,
        s.mode_part(task).0.palm.anchor == Some(task.reading.centroid),
{
}

/// While two claps wait to be confirmed, no hand is taken up.
pub proof fn law_claps_suspend_gestures(
    s: State,
    hands: Seq<crate::hand::Hand>,
    spans: Seq<crate::scalar::Scalar>,
)
    requires
        s.claps.window_since is Some,
    ensures
        s.route(hands, spans) == Route::Suspended,
{
}

/// Frames leave the shutdown gesture and the spoken commands alone.
#[verifier::rlimit(30)]
pub proof fn law_frames_leave_shutdown_alone(s: State, call: Call)
    ensures
        after_call(s, call).claps == s.claps,
        after_call(s, call).voice == s.voice,
{
}

/// A spoken shutdown: an utterance starts a countdown exactly if it holds the command
/// and the last one is long enough ago; nothing but the end of that countdown leads to
/// powering off, and by then the shutdown gesture has started over. Utterances change
/// nothing else.
pub proof fn law_spoken_shutdown(
    s: State,
    matched: bool,
    now: u64,
    step: VoiceStep,
    answer: ShutdownAnswer,
    clock: u64,
)
    ensures
        s.heard(matched, now).1 == VoiceStep::Countdown <==> matched && !s.voice.cooling(now),
        s.heard(matched, now).1 == VoiceStep::Countdown ==> s.heard(
            matched,
            now,
        ).0.voice.last_shutdown == Some(now),
        s.heard(matched, now).1 != VoiceStep::PowerOff,
        s.heard(matched, now).0 == (State { voice: s.heard(matched, now).0.voice, ..s }),
        s.spoken(step, answer, clock).1 == VoiceStep::PowerOff <==> step == VoiceStep::Countdown
            && answer == ShutdownAnswer::Performed,
        s.spoken(step, answer, clock).1 == VoiceStep::PowerOff ==> s.spoken(step, answer, clock).0
            == (State { claps: s.claps.reset(clock), ..s }),
        s.spoken(step, answer, clock).1 != VoiceStep::PowerOff ==> s.spoken(step, answer, clock)
            == (s, VoiceStep::Done),
{
}

/// How many ticks of the wheel a frame has made when it asks for another one.
pub open spec fn ticks_made(step: FrameStep) -> Option<u32> {
    match step {
        FrameStep::Wheel { task, .. } => match task.stage {
            FrameStage::Wheel(ticks) => Some(ticks),
            _ => None,
        },
        _ => None,
    }
}

/// A frame turns the wheel at most `SCROLL_MAX_TICKS` times: the first tick counts
/// from zero, every further one counts on, and none comes beyond the limit.
pub proof fn law_wheel_ticks_are_counted(
    s: State,
    task: FrameTask,
    answer: FrameAnswer,
    clock: u64,
)
    ensures
        s.mode_part(task).1 is Wheel ==> ticks_made(s.mode_part(task).1) == Some(0u32),
        s.next(task, answer, clock).1 is Wheel && task.stage is SumTravel ==> ticks_made(
            s.next(task, answer, clock).1,
        ) == Some(0u32),
        s.next(task, answer, clock).1 is Wheel ==> (task.stage matches FrameStage::Wheel(ticks)
            ==> ticks + 1 < SCROLL_MAX_TICKS && ticks_made(s.next(task, answer, clock).1) == Some(
            (ticks + 1) as u32,
        )),
{
}

/// How many answers a frame can still take.
pub open spec fn answers_left(step: FrameStep) -> int {
    match step {
        FrameStep::Done => 0,
        FrameStep::MoveCursor { .. } => 1,
        FrameStep::StepVolume(_, _) => 1,
        FrameStep::Wheel { task, .. } => match task.stage {
            FrameStage::Wheel(ticks) => SCROLL_MAX_TICKS - ticks,
            _ => 0,
        },
        FrameStep::SwitchWorkspace(_, _) => 2,
        FrameStep::Blend { .. } => 2,
        FrameStep::MeasurePalm { .. } => 3,
        FrameStep::SumTravel { .. } => SCROLL_MAX_TICKS + 1,
        FrameStep::Announce(_, _) => SCROLL_MAX_TICKS + 2,
        FrameStep::Click(PinchButton::Right, _) => SCROLL_MAX_TICKS + 3,
        FrameStep::Click(PinchButton::Left, _) => SCROLL_MAX_TICKS + 4,
        FrameStep::CloseTab(_) => SCROLL_MAX_TICKS + 5,
    }
}

/// The task that a step carries, where it belongs to the step.
pub open spec fn task_of(step: FrameStep) -> Option<FrameTask> {
    match step {
        FrameStep::Done => None,
        FrameStep::CloseTab(task) => if task.stage is CloseTab {
            Some(task)
        } else {
            None
        },
        FrameStep::Click(button, task) => if task.stage == FrameStage::Click(button) {
            Some(task)
        } else {
            None
        },
        FrameStep::Announce(_, task) => if task.stage is Announce {
            Some(task)
        } else {
            None
        },
        FrameStep::SumTravel { task, .. } => if task.stage is SumTravel {
            Some(task)
        } else {
            None
        },
        FrameStep::Wheel { task, .. } => match task.stage {
            FrameStage::Wheel(ticks) if ticks < SCROLL_MAX_TICKS => Some(task),
            _ => None,
        },
        FrameStep::Blend { from, task, .. } => if task.stage == FrameStage::Blend(from) {
            Some(task)
        } else {
            None
        },
        FrameStep::MoveCursor { task, .. } => if task.stage is MoveCursor {
            Some(task)
        } else {
            None
        },
        FrameStep::MeasurePalm { task, .. } => if task.stage is MeasurePalm {
            Some(task)
        } else {
            None
        },
        FrameStep::SwitchWorkspace(_, task) => if task.stage is SwitchWorkspace {
            Some(task)
        } else {
            None
        },
        FrameStep::StepVolume(_, task) => if task.stage is StepVolume {
            Some(task)
        } else {
            None
        },
    }
}

/// Whether a step is the end of a frame or carries the task that belongs to it.
pub open spec fn step_fits(step: FrameStep) -> bool {
    step is Done || task_of(step) is Some
}

proof fn lemma_mode_part_fits(s: State, task: FrameTask)
    ensures
        step_fits(s.mode_part(task).1),
        answers_left(s.mode_part(task).1) <= SCROLL_MAX_TICKS + 1,
{
}

proof fn lemma_pose_part_fits(s: State, task: FrameTask, clock: u64)
    ensures
        step_fits(s.pose_part(task, clock).1),
        answers_left(s.pose_part(task, clock).1) <= SCROLL_MAX_TICKS + 2,
{
    let seen = pose(s.finger_up, task.fist, s.fist.fired);
    let s1 = State { modes: s.modes.after(seen), ..s };
    lemma_mode_part_fits(s1, task);
    lemma_mode_part_fits(s1.entered(s.modes.mode, seen, clock), task);
}

proof fn lemma_pinch_part_fits(s: State, task: FrameTask, clock: u64)
    ensures
        step_fits(s.right_part(task, clock).1),
        answers_left(s.right_part(task, clock).1) <= SCROLL_MAX_TICKS + 3,
        step_fits(s.pinch_part(task, clock).1),
        answers_left(s.pinch_part(task, clock).1) <= SCROLL_MAX_TICKS + 4,
{
    let left = s.pinch.released(PinchButton::Left, task.reading.pinch(PinchButton::Left));
    let s1 = State { pinch: left, ..s };
    let right = s.pinch.released(PinchButton::Right, task.reading.pinch(PinchButton::Right));
    let both = left.released(PinchButton::Right, task.reading.pinch(PinchButton::Right));
    lemma_pose_part_fits(s, task, clock);
    lemma_pose_part_fits(State { pinch: right, ..s }, task, clock);
    lemma_pose_part_fits(State { pinch: both, ..s1 }, task, clock);
}

proof fn lemma_frame_fits(s: State, r: HandReading, now: u64)
    ensures
        step_fits(s.frame(r, now).1),
{
    let s1 = begun(s, r, now);
    let task = begun_task(s, r, now);
    lemma_pinch_part_fits(s1, task, now);
}

/// A frame ends: every answer leaves it with fewer answers to take. So a frame
/// turns the wheel at most `SCROLL_MAX_TICKS` times, and asks for each of its
/// other actions at most once.
pub proof fn law_frame_ends(
    s: State,
    r: HandReading,
    now: u64,
    step: FrameStep,
    answer: FrameAnswer,
    clock: u64,
)
    requires
        task_of(step) is Some,
    ensures
        step_fits(s.frame(r, now).1),
        step_fits(s.next(task_of(step)->0, answer, clock).1),
        answers_left(s.next(task_of(step)->0, answer, clock).1) < answers_left(step),
{
    let task = task_of(step)->0;
    lemma_frame_fits(s, r, now);
    match (task.stage, answer) {
        (FrameStage::CloseTab, FrameAnswer::Performed) => {
            lemma_pinch_part_fits(State { fist: s.fist.acted(task.now), ..s }, task, clock);
        },
        (FrameStage::Click(PinchButton::Left), FrameAnswer::Performed) => {
            let pinch = s.pinch.clicked(PinchButton::Left, task.now);
            lemma_pinch_part_fits(State { pinch, ..s }, task, clock);
        },
        (FrameStage::Click(PinchButton::Right), FrameAnswer::Performed) => {
            let pinch = s.pinch.clicked(PinchButton::Right, task.now);
            lemma_pose_part_fits(State { pinch, ..s }, task, clock);
        },
        (FrameStage::Announce, FrameAnswer::Performed) => {
            lemma_mode_part_fits(s, task);
        },
        _ => {},
    }
}

} // verus!
