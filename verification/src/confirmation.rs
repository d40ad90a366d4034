//! The shutdown gesture as a whole: what must have happened before the machine is
//! powered off.
use vstd::prelude::*;

use crate::hand::Hand;
use crate::scalar::Scalar;
use crate::settings::{
    number, span_of, AFTER_CLAP_WINDOW, CLAP_COOLDOWN, CLAP_THRESHOLD, CLAP_TIMEOUT, SHUTDOWN_COOLDOWN,
    SHUTDOWN_DOWN_THRESHOLD,
};
use crate::shutdown::{
    right_wrist_from, wrists_of, ClapState, ShutdownAnswer, ShutdownStage, ShutdownStep, ShutdownTask,
};

verus! {

/// A frame of the gesture, with everything that the caller answers in it: what the
/// numbers are, whether the countdown was sat out and the machine powered off, and
/// what the clock said.
pub struct GestureFrame {
    pub hands: Seq<Hand>,
    pub now: u64,
    pub drop: Scalar,
    pub gap: Scalar,
    pub waited: bool,
    pub powered: bool,
    pub clock: u64,
}

impl GestureFrame {
    /// Whether the hands are together.
    pub open spec fn meets(self) -> bool {
        wrists_of(self.hands) is Some && self.gap.below(number(CLAP_THRESHOLD))
    }

    /// Height of the right wrist.
    pub open spec fn wrist(self) -> Option<Scalar> {
        right_wrist_from(self.hands, 0)
    }
}

/// What can happen to the gesture.
pub enum GestureEvent {
    Frame(GestureFrame),
    /// The countdown of a spoken shutdown ended at this time.
    Spoken { clock: u64 },
}

impl GestureEvent {
    /// Whether this is a frame with the hands together.
    pub open spec fn meets(self) -> bool {
        self matches GestureEvent::Frame(f) && f.meets()
    }

    /// Height of the right wrist, where this is a frame that shows it.
    pub open spec fn wrist(self) -> Option<Scalar> {
        match self {
            GestureEvent::Frame(f) => f.wrist(),
            GestureEvent::Spoken { .. } => None,
        }
    }

    /// When it began.
    pub open spec fn time(self) -> u64 {
        match self {
            GestureEvent::Frame(f) => f.now,
            GestureEvent::Spoken { clock } => clock,
        }
    }

    /// What the clock said at its end.
    pub open spec fn clock(self) -> u64 {
        match self {
            GestureEvent::Frame(f) => f.clock,
            GestureEvent::Spoken { clock } => clock,
        }
    }
}

/// The answer about something to do.
pub open spec fn done_or_not(done: bool) -> ShutdownAnswer {
    if done {
        ShutdownAnswer::Performed
    } else {
        ShutdownAnswer::Failed
    }
}

/// The frame up to the measured drop.
pub open spec fn dropped(s: ClapState, f: GestureFrame) -> (ClapState, ShutdownStep) {
    let (s1, step) = s.frame(f.hands, f.now);
    match step {
        ShutdownStep::MeasureDrop { task, .. } => s1.next(
            task,
            ShutdownAnswer::Number(f.drop),
            f.clock,
        ),
        _ => (s1, step),
    }
}

/// The frame up to the countdown.
pub open spec fn waited(s: ClapState, f: GestureFrame) -> (ClapState, ShutdownStep) {
    let (s1, step) = dropped(s, f);
    match step {
        ShutdownStep::Countdown(task) => s1.next(task, done_or_not(f.waited), f.clock),
        _ => (s1, step),
    }
}

/// The frame up to powering off.
pub open spec fn powered(s: ClapState, f: GestureFrame) -> (ClapState, ShutdownStep) {
    let (s1, step) = waited(s, f);
    match step {
        ShutdownStep::PowerOff(task) => s1.next(task, done_or_not(f.powered), f.clock),
        _ => (s1, step),
    }
}

/// The state after the whole frame.
pub open spec fn after_frame(s: ClapState, f: GestureFrame) -> ClapState {
    let (s1, step) = powered(s, f);
    match step {
        ShutdownStep::MeasureClap { task, .. } => s1.next(
            task,
            ShutdownAnswer::Number(f.gap),
            f.clock,
        ).0,
        _ => s1,
    }
}

/// Whether the frame asks to power off.
pub open spec fn asks_to_power_off(s: ClapState, f: GestureFrame) -> bool {
    waited(s, f).1 is PowerOff
}

/// The state after an event.
pub open spec fn after_event(s: ClapState, event: GestureEvent) -> ClapState {
    match event {
        GestureEvent::Frame(f) => after_frame(s, f),
        GestureEvent::Spoken { clock } => s.reset(clock),
    }
}

/// Whether the event is a frame in which the gesture asks to power off.
pub open spec fn gesture_shuts_down(s: ClapState, event: GestureEvent) -> bool {
    event matches GestureEvent::Frame(f) && asks_to_power_off(s, f)
}

/// Whether the machine is to be powered off in this event, whichever way it came.
pub open spec fn shuts_down(s: ClapState, event: GestureEvent) -> bool {
    event is Spoken || gesture_shuts_down(s, event)
}

/// The state after the first `n` events.
pub open spec fn after_events(start: ClapState, events: Seq<GestureEvent>, n: int) -> ClapState
    decreases n,
{
    if n <= 0 {
        start
    } else {
        after_event(after_events(start, events, n - 1), events[n - 1])
    }
}

/// Whether the hands clapped in event `i` and again, soon after, in event `j`.
pub open spec fn clapped_twice(events: Seq<GestureEvent>, i: int, j: int) -> bool {
    &&& 0 <= i < j
    &&& events[i].meets()
    &&& events[j].meets()
    &&& CLAP_COOLDOWN < events[j].time() - events[i].time() <= CLAP_TIMEOUT
}

/// Whether the window was opened at time `t` by two claps, the second in event `j`,
/// and the start height, if taken, is the one of the wrist in a later event; all of
/// them among the first `n`.
pub open spec fn explained(
    events: Seq<GestureEvent>,
    n: int,
    t: u64,
    start_y: Option<Scalar>,
    i: int,
    j: int,
) -> bool {
    &&& clapped_twice(events, i, j)
    &&& j < n
    &&& events[j].time() == t
    &&& start_y matches Some(y) ==> exists|m: int|
        j < m < n && (#[trigger] events[m]).wrist() == Some(y)
}

/// Whether a first clap at time `t` is among the first `n` events.
pub open spec fn first_clap(events: Seq<GestureEvent>, n: int, t: u64) -> bool {
    exists|i: int| 0 <= i < n && (#[trigger] events[i]).meets() && events[i].time() == t
}

proof fn lemma_clap_part(s: ClapState, task: ShutdownTask, f: GestureFrame)
    requires
        task.now == f.now,
        task.wrists == wrists_of(f.hands),
    ensures
        ({
            let (s1, step) = s.clap_part(task);
            let s2 = match step {
                ShutdownStep::MeasureClap { task, .. } => s1.next(
                    task,
                    ShutdownAnswer::Number(f.gap),
                    f.clock,
                ).0,
                _ => s1,
            };
            s2 == s.clapped(f.meets(), f.now)
        }),
{
}

/// What a frame can do to the count, the window and the start height.
proof fn lemma_frame(s: ClapState, f: GestureFrame)
    requires
        s.wf(),
        s.window_since is None ==> s.right_start_y is None,
    ensures
        ({
            let s1 = after_frame(s, f);
            &&& s1.wf()
            &&& s1.window_since is None ==> s1.right_start_y is None
            &&& s1.count == 1 ==> (s.count == 1 && s1.last_clap == s.last_clap) || (f.meets()
                && s1.last_clap == f.now)
            &&& s1.window_since matches Some(t) ==> {
                ||| s.window_since == Some(t) && (s1.right_start_y == s.right_start_y
                    || s1.right_start_y == f.wrist())
                ||| t == f.now && s.count == 1 && f.meets() && CLAP_COOLDOWN < f.now
                    - s.last_clap <= CLAP_TIMEOUT && s1.right_start_y is None
            }
        }),
{
    let task = ShutdownTask {
        now: f.now,
        wrists: wrists_of(f.hands),
        stage: ShutdownStage::Drop,
    };
    let timed = s.timed_out(f.now);
    if !s.cooling(f.now) {
        lemma_clap_part(timed.closed(), task, f);
        lemma_clap_part(timed, task, f);
        lemma_clap_part(ClapState { right_start_y: f.wrist(), ..timed }, task, f);
        lemma_clap_part(
            timed.reset(f.clock),
            ShutdownTask { stage: ShutdownStage::PowerOff, ..task },
            f,
        );
    }
}

/// What an event can do to the count, the window and the start height.
proof fn lemma_event(s: ClapState, event: GestureEvent)
    requires
        s.wf(),
        s.window_since is None ==> s.right_start_y is None,
    ensures
        ({
            let s1 = after_event(s, event);
            &&& s1.wf()
            &&& s1.window_since is None ==> s1.right_start_y is None
            &&& s1.count == 1 ==> (s.count == 1 && s1.last_clap == s.last_clap) || (event.meets()
                && s1.last_clap == event.time())
            &&& s1.window_since matches Some(t) ==> {
                ||| s.window_since == Some(t) && (s1.right_start_y == s.right_start_y
                    || s1.right_start_y == event.wrist())
                ||| t == event.time() && s.count == 1 && event.meets() && CLAP_COOLDOWN
                    < event.time() - s.last_clap <= CLAP_TIMEOUT && s1.right_start_y is None
            }
        }),
{
    if let GestureEvent::Frame(f) = event {
        lemma_frame(s, f);
    }
}

proof fn lemma_gesture_so_far(now: u64, events: Seq<GestureEvent>, n: int)
    requires
        0 <= n <= events.len(),
    ensures
        ({
            let s = after_events(ClapState::fresh(now), events, n);
            &&& s.wf()
            &&& s.window_since is None ==> s.right_start_y is None
            &&& s.count == 1 ==> first_clap(events, n, s.last_clap)
            &&& s.window_since matches Some(t) ==> exists|i: int, j: int| #[trigger]
                explained(events, n, t, s.right_start_y, i, j)
        }),
    decreases n,
{
    if n > 0 {
        let event = events[n - 1];
        let before = after_events(ClapState::fresh(now), events, n - 1);
        let s = after_events(ClapState::fresh(now), events, n);
        lemma_gesture_so_far(now, events, n - 1);
        lemma_event(before, event);
        if s.count == 1 {
            if before.count == 1 && s.last_clap == before.last_clap {
                let i = choose|i: int|
                    0 <= i < n - 1 && (#[trigger] events[i]).meets() && events[i].time()
                        == s.last_clap;
                assert(events[i].meets());
            } else {
                assert(events[n - 1].meets());
            }
            assert(first_clap(events, n, s.last_clap));
        }
        if s.window_since is Some {
            let t = s.window_since->0;
            if before.window_since == Some(t) && (s.right_start_y == before.right_start_y
                || s.right_start_y == event.wrist()) {
                let (i, j) = choose|i: int, j: int| #[trigger]
                    explained(events, n - 1, t, before.right_start_y, i, j);
                if s.right_start_y is Some {
                    let y = s.right_start_y->0;
                    if s.right_start_y == before.right_start_y {
                        let m = choose|m: int|
                            j < m < n - 1 && (#[trigger] events[m]).wrist() == Some(y);
                        assert(events[m].wrist() == Some(y));
                    } else {
                        assert(events[n - 1].wrist() == Some(y));
                    }
                }
                assert(explained(events, n, t, s.right_start_y, i, j));
            } else {
                let i = choose|i: int|
                    0 <= i < n - 1 && (#[trigger] events[i]).meets() && events[i].time()
                        == before.last_clap;
                assert(explained(events, n, t, s.right_start_y, i, n - 1));
            }
        }
    }
}

/// Clap twice, then lower the right hand: whatever was spoken meanwhile, a frame asks
/// to power off only if the hands clapped in two earlier frames, more than the clap
/// cooldown and at most the clap timeout apart, the window after the second clap is
/// still open, the right wrist was seen in a frame after it, and it has dropped from
/// there by more than the threshold since.
pub proof fn law_power_off_needs_the_whole_gesture(
    now: u64,
    events: Seq<GestureEvent>,
    k: int,
    f: GestureFrame,
)
    requires
        0 <= k < events.len(),
        events[k] == GestureEvent::Frame(f),
        asks_to_power_off(after_events(ClapState::fresh(now), events, k), f),
    ensures
        number(SHUTDOWN_DOWN_THRESHOLD).below(f.drop),
        f.wrist() is Some,
        exists|i: int, j: int, m: int|
            j < m < k && #[trigger] clapped_twice(events, i, j) && f.now - events[j].time()
                <= AFTER_CLAP_WINDOW && (#[trigger] events[m]).wrist() is Some
                && events[m].wrist() == after_events(
                ClapState::fresh(now),
                events,
                k,
            ).right_start_y,
        after_events(ClapState::fresh(now), events, k).frame(f.hands, f.now).1
            matches ShutdownStep::MeasureDrop { from, to, .. } && Some(from) == after_events(
            ClapState::fresh(now),
            events,
            k,
        ).right_start_y && Some(to) == f.wrist(),
{
    let s = after_events(ClapState::fresh(now), events, k);
    lemma_gesture_so_far(now, events, k);
    lemma_asks(s, f);
    let t = s.window_since->0;
    let (i, j) = choose|i: int, j: int| #[trigger]
        explained(events, k, t, s.right_start_y, i, j);
    let y = s.right_start_y->0;
    let m = choose|m: int| j < m < k && (#[trigger] events[m]).wrist() == Some(y);
    assert(clapped_twice(events, i, j) && events[m].wrist() is Some);
}

proof fn lemma_asks(s: ClapState, f: GestureFrame)
    requires
        asks_to_power_off(s, f),
    ensures
        s.window_since matches Some(t) && f.now - t <= AFTER_CLAP_WINDOW,
        s.right_start_y is Some,
        f.wrist() is Some,
        number(SHUTDOWN_DOWN_THRESHOLD).below(f.drop),
        s.frame(f.hands, f.now).1 matches ShutdownStep::MeasureDrop { from, to, .. } && Some(from)
            == s.right_start_y && Some(to) == f.wrist(),
        !s.cooling(f.now),
        after_frame(s, f).last_shutdown == Some(f.clock),
{
}

proof fn lemma_last_shutdown(s: ClapState, event: GestureEvent)
    ensures
        after_event(s, event).last_shutdown == if shuts_down(s, event) {
            Some(event.clock())
        } else {
            s.last_shutdown
        },
{
}

proof fn lemma_last_shutdown_stays(start: ClapState, events: Seq<GestureEvent>, i: int, k: int)
    requires
        0 <= i < k <= events.len(),
        shuts_down(after_events(start, events, i), events[i]),
        forall|m: int|
            i < m < k ==> !shuts_down(#[trigger] after_events(start, events, m), events[m]),
    ensures
        after_events(start, events, k).last_shutdown == Some(events[i].clock()),
    decreases k,
{
    lemma_last_shutdown(after_events(start, events, k - 1), events[k - 1]);
    if i < k - 1 {
        lemma_last_shutdown_stays(start, events, i, k - 1);
        assert(!shuts_down(after_events(start, events, k - 1), events[k - 1]));
    }
}

/// After the machine was to be powered off, by the gesture or by a spoken command, the
/// gesture asks for it no sooner than the shutdown cooldown after the end of the last
/// such countdown.
pub proof fn law_power_offs_keep_their_distance(
    start: ClapState,
    events: Seq<GestureEvent>,
    i: int,
    k: int,
)
    requires
        0 <= i < k < events.len(),
        shuts_down(after_events(start, events, i), events[i]),
        forall|m: int|
            i < m < k ==> !shuts_down(#[trigger] after_events(start, events, m), events[m]),
        gesture_shuts_down(after_events(start, events, k), events[k]),
    ensures
        events[k].time() - events[i].clock() >= SHUTDOWN_COOLDOWN,
{
    lemma_last_shutdown_stays(start, events, i, k);
    if let GestureEvent::Frame(f) = events[k] {
        lemma_asks(after_events(start, events, k), f);
    }
}

/// A spoken shutdown undoes the gesture so far: the claps are forgotten, the window is
/// closed, and the next frame does not ask to power off.
pub proof fn law_spoken_shutdown_starts_the_gesture_over(
    s: ClapState,
    clock: u64,
    f: GestureFrame,
)
    ensures
        after_event(s, GestureEvent::Spoken { clock }).count == 0,
        after_event(s, GestureEvent::Spoken { clock }).window_since is None,
        !asks_to_power_off(after_event(s, GestureEvent::Spoken { clock }), f),
{
}

/// Frames as events.
pub open spec fn framed(frames: Seq<GestureFrame>) -> Seq<GestureEvent> {
    Seq::new(frames.len(), |i: int| GestureEvent::Frame(frames[i]))
}

/// Whether frames came in the order of their times.
pub open spec fn in_order(frames: Seq<GestureFrame>) -> bool {
    forall|i: int, j: int|
        0 <= i <= j < frames.len() ==> (#[trigger] frames[i]).now <= (#[trigger] frames[j]).now
}

/// Whether a state lets a gesture begin at this time: nothing is clapped so far, the
/// hands are apart, and neither the last clap nor the last shutdown is too recent.
pub open spec fn ready(s: ClapState, now: u64) -> bool {
    &&& s.wf()
    &&& s.timed_out(now).count == 0
    &&& !s.together
    &&& span_of(now, s.last_clap) > CLAP_COOLDOWN
    &&& !s.cooling(now)
}

/// Whether frames make two claps: the hands are together up to frame `a`, then apart,
/// and together again in frame `j`, more than the clap cooldown and at most the clap
/// timeout after the first frame.
pub open spec fn two_claps(frames: Seq<GestureFrame>, a: int, j: int) -> bool {
    &&& 0 <= a
    &&& a + 1 < j < frames.len()
    &&& forall|x: int| 0 <= x <= a ==> (#[trigger] frames[x]).meets()
    &&& forall|x: int| a < x < j ==> !(#[trigger] frames[x]).meets()
    &&& frames[j].meets()
    &&& CLAP_COOLDOWN < frames[j].now - frames[0].now <= CLAP_TIMEOUT
}

/// Whether a frame shows the right wrist lowered far enough.
pub open spec fn lowered(f: GestureFrame) -> bool {
    f.wrist() is Some && number(SHUTDOWN_DOWN_THRESHOLD).below(f.drop)
}

/// Whether frames after two claps, the second in frame `j`, lower the right hand: its
/// wrist is first seen in frame `m`, and frame `k`, while the window is open, is the
/// first one later to show it low enough.
pub open spec fn hand_lowered(frames: Seq<GestureFrame>, j: int, m: int, k: int) -> bool {
    &&& 0 <= j < m < k < frames.len()
    &&& forall|x: int| j < x < m ==> (#[trigger] frames[x]).wrist() is None
    &&& frames[m].wrist() is Some
    &&& forall|x: int| m < x < k ==> !lowered(#[trigger] frames[x])
    &&& lowered(frames[k])
    &&& frames[k].now - frames[j].now <= AFTER_CLAP_WINDOW
}

proof fn lemma_frame_without_window(s: ClapState, f: GestureFrame)
    requires
        s.window_since is None,
        !s.cooling(f.now),
    ensures
        after_frame(s, f) == s.timed_out(f.now).clapped(f.meets(), f.now),
{
    let task = ShutdownTask {
        now: f.now,
        wrists: wrists_of(f.hands),
        stage: ShutdownStage::Drop,
    };
    lemma_clap_part(s.timed_out(f.now), task, f);
}

proof fn lemma_frame_in_window(s: ClapState, f: GestureFrame)
    requires
        s.window_since is Some,
        !s.expired(f.now),
        !s.cooling(f.now),
    ensures
        s.right_start_y is None ==> after_frame(s, f) == (ClapState {
            right_start_y: f.wrist(),
            ..s
        }).clapped(f.meets(), f.now),
        s.right_start_y is Some && !lowered(f) ==> after_frame(s, f) == s.clapped(
            f.meets(),
            f.now,
        ),
        s.right_start_y is Some && lowered(f) ==> dropped(s, f).1 is Countdown,
{
    let task = ShutdownTask {
        now: f.now,
        wrists: wrists_of(f.hands),
        stage: ShutdownStage::Drop,
    };
    lemma_clap_part(s, task, f);
    lemma_clap_part(ClapState { right_start_y: f.wrist(), ..s }, task, f);
}

/// Up to the second clap there is one clap, in the first frame.
proof fn lemma_first_clap(s: ClapState, frames: Seq<GestureFrame>, a: int, j: int, n: int)
    requires
        in_order(frames),
        ready(s, frames[0].now),
        two_claps(frames, a, j),
        1 <= n <= j,
    ensures
        ({
            let s1 = after_events(s, framed(frames), n);
            &&& s1.count == 1
            &&& s1.last_clap == frames[0].now
            &&& s1.together == (n <= a + 1)
            &&& s1.window_since is None
            &&& s1.last_shutdown == s.last_shutdown
        }),
    decreases n,
{
    let events = framed(frames);
    let before = after_events(s, events, n - 1);
    let f = frames[n - 1];
    assert(events[n - 1] == GestureEvent::Frame(f));
    assert(frames[0].now <= f.now <= frames[j].now);
    if n > 1 {
        lemma_first_clap(s, frames, a, j, n - 1);
    } else {
        assert(f.meets());
    }
    lemma_frame_without_window(before, f);
}

/// From the second clap on the window is open, and the start height is taken when the
/// wrist is first seen.
proof fn lemma_window(
    s: ClapState,
    frames: Seq<GestureFrame>,
    a: int,
    j: int,
    m: int,
    k: int,
    n: int,
)
    requires
        in_order(frames),
        ready(s, frames[0].now),
        two_claps(frames, a, j),
        hand_lowered(frames, j, m, k),
        j < n <= k,
    ensures
        ({
            let s1 = after_events(s, framed(frames), n);
            &&& s1.wf()
            &&& s1.window_since == Some(frames[j].now)
            &&& s1.right_start_y == if n <= m {
                None
            } else {
                frames[m].wrist()
            }
            &&& s1.last_shutdown == s.last_shutdown
        }),
    decreases n,
{
    let events = framed(frames);
    let before = after_events(s, events, n - 1);
    let f = frames[n - 1];
    assert(events[n - 1] == GestureEvent::Frame(f));
    assert(frames[0].now <= f.now <= frames[k].now);
    assert(frames[j].now <= f.now);
    lemma_wf(s, framed(frames), n);
    if n - 1 == j {
        lemma_first_clap(s, frames, a, j, j);
        lemma_frame_without_window(before, f);
    } else {
        lemma_window(s, frames, a, j, m, k, n - 1);
        lemma_frame_in_window(before, f);
    }
}

proof fn lemma_wf(s: ClapState, events: Seq<GestureEvent>, n: int)
    requires
        s.wf(),
        0 <= n <= events.len(),
    ensures
        after_events(s, events, n).wf(),
    decreases n,
{
    if n > 0 {
        lemma_wf(s, events, n - 1);
        let before = after_events(s, events, n - 1);
        if let GestureEvent::Frame(f) = events[n - 1] {
            lemma_frame_keeps_wf(before, f);
        }
    }
}

proof fn lemma_frame_keeps_wf(s: ClapState, f: GestureFrame)
    requires
        s.wf(),
    ensures
        after_frame(s, f).wf(),
{
    let task = ShutdownTask {
        now: f.now,
        wrists: wrists_of(f.hands),
        stage: ShutdownStage::Drop,
    };
    let timed = s.timed_out(f.now);
    if !s.cooling(f.now) {
        lemma_clap_part(timed.closed(), task, f);
        lemma_clap_part(timed, task, f);
        lemma_clap_part(ClapState { right_start_y: f.wrist(), ..timed }, task, f);
        lemma_clap_part(
            timed.reset(f.clock),
            ShutdownTask { stage: ShutdownStage::PowerOff, ..task },
            f,
        );
    }
}

/// The whole gesture powers off: two claps in time and, while the window after them is
/// open, the right hand seen and then lowered far enough lead to the countdown, and once
/// that has passed to powering off. The drop is the one from where the wrist was first
/// seen.
pub proof fn law_whole_gesture_powers_off(
    s: ClapState,
    frames: Seq<GestureFrame>,
    a: int,
    j: int,
    m: int,
    k: int,
)
    requires
        in_order(frames),
        ready(s, frames[0].now),
        two_claps(frames, a, j),
        hand_lowered(frames, j, m, k),
    ensures
        after_events(s, framed(frames), k).frame(frames[k].hands, frames[k].now).1
            matches ShutdownStep::MeasureDrop { from, to, .. } && Some(from) == frames[m].wrist()
            && Some(to) == frames[k].wrist(),
        dropped(after_events(s, framed(frames), k), frames[k]).1 is Countdown,
        frames[k].waited ==> asks_to_power_off(
            after_events(s, framed(frames), k),
            frames[k],
        ),
{
    let before = after_events(s, framed(frames), k);
    assert(frames[0].now <= frames[k].now);
    assert(frames[j].now <= frames[k].now);
    lemma_window(s, frames, a, j, m, k, k);
    lemma_frame_in_window(before, frames[k]);
}

/// A fresh start is ready for a gesture as soon as the clap cooldown has passed.
pub proof fn law_fresh_start_is_ready(start: u64, now: u64)
    requires
        span_of(now, start) > CLAP_COOLDOWN,
    ensures
        ready(ClapState::fresh(start), now),
{
}

} // verus!
