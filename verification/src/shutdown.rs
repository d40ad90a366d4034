//! Clapping twice and then lowering the right hand powers the machine off.
use vstd::prelude::*;

use crate::hand::{Hand, Landmark};
use crate::scalar::Scalar;
use crate::settings::{
    elapsed, number, span_of, threshold, AFTER_CLAP_WINDOW, CLAP_COOLDOWN, CLAP_THRESHOLD,
    CLAP_TIMEOUT, SHUTDOWN_COOLDOWN, SHUTDOWN_DOWN_THRESHOLD,
};

verus! {

/// Claps so far, and the time in which they can be confirmed.
#[derive(Clone, Copy, Debug, PartialEq, Eq, Structural)]
pub struct ClapState {
    pub count: u64,
    pub last_clap: u64,
    pub together: bool,
    /// When the second clap opened the window in which the hand may be lowered.
    pub window_since: Option<u64>,
    /// Height of the right wrist when it was first seen in that window.
    pub right_start_y: Option<Scalar>,
    pub last_shutdown: Option<u64>,
}

/// Height of the wrist of the first right hand from position `i` on.
pub open spec fn right_wrist_from(hands: Seq<Hand>, i: int) -> Option<Scalar>
    decreases hands.len() - i,
{
    if i < 0 || i >= hands.len() {
        None
    } else if !hands[i].right() {
        right_wrist_from(hands, i + 1)
    } else if hands[i].landmarks@.len() == 0 {
        None
    } else {
        Some(hands[i].landmarks@[0].y)
    }
}

/// Height of the wrist of the first right hand.
pub fn right_wrist(hands: &Vec<Hand>) -> (y: Option<Scalar>)
    ensures
        y == right_wrist_from(hands@, 0),
{
    let mut i: usize = 0;
    while i < hands.len()
        invariant
            i <= hands.len(),
            right_wrist_from(hands@, 0) == right_wrist_from(hands@, i as int),
        decreases hands.len() - i,
    {
        if hands[i].is_right() {
            if hands[i].landmarks.len() == 0 {
                return None;
            }
            return Some(hands[i].landmarks[0].y);
        }
        i = i + 1;
    }
    None
}

/// The wrists of the first two completely tracked hands.
pub open spec fn wrists_of(hands: Seq<Hand>) -> Option<(Landmark, Landmark)> {
    let full = hands.filter(|h: Hand| h.full());
    if full.len() < 2 {
        None
    } else {
        Some((full[0].landmarks@[0], full[1].landmarks@[0]))
    }
}

/// The wrists of the first two completely tracked hands: the hands that may clap.
pub fn clap_wrists(hands: &Vec<Hand>) -> (wrists: Option<(Landmark, Landmark)>)
    ensures
        wrists == wrists_of(hands@),
{
    let ghost keep = |h: Hand| h.full();
    let mut first: Option<Landmark> = None;
    let mut i: usize = 0;
    proof {
        assert(hands@.take(0) == Seq::<Hand>::empty());
        reveal(Seq::filter);
    }
    while i < hands.len()
        invariant
            i <= hands.len(),
            keep == (|h: Hand| h.full()),
            match first {
                None => hands@.take(i as int).filter(keep).len() == 0,
                Some(w) => hands@.take(i as int).filter(keep).len() == 1 && w == hands@.take(
                    i as int,
                ).filter(keep)[0].landmarks@[0],
            },
        decreases hands.len() - i,
    {
        proof {
            lemma_filter_step(hands@, keep, i as int);
        }
        if hands[i].is_full() {
            let wrist = hands[i].landmarks[0];
            match first {
                None => {
                    first = Some(wrist);
                },
                Some(w) => {
                    proof {
                        lemma_filter_prefix(hands@, keep, i + 1);
                    }
                    return Some((w, wrist));
                },
            }
        }
        i = i + 1;
    }
    assert(hands@.take(hands@.len() as int) == hands@);
    None
}

proof fn lemma_filter_step(hands: Seq<Hand>, keep: spec_fn(Hand) -> bool, i: int)
    requires
        0 <= i < hands.len(),
    ensures
        hands.take(i + 1).filter(keep) == if keep(hands[i]) {
            hands.take(i).filter(keep).push(hands[i])
        } else {
            hands.take(i).filter(keep)
        },
{
    assert(hands.take(i + 1).drop_last() == hands.take(i));
    reveal(Seq::filter);
}

proof fn lemma_filter_prefix(hands: Seq<Hand>, keep: spec_fn(Hand) -> bool, i: int)
    requires
        0 <= i <= hands.len(),
    ensures
        hands.take(i).filter(keep).len() <= hands.filter(keep).len(),
        forall|j: int|
            0 <= j < hands.take(i).filter(keep).len() ==> hands.take(i).filter(keep)[j]
                == hands.filter(keep)[j],
    decreases hands.len() - i,
{
    if i < hands.len() {
        lemma_filter_step(hands, keep, i);
        lemma_filter_prefix(hands, keep, i + 1);
    } else {
        assert(hands.take(i) == hands);
    }
}

/// What the caller has to do next.
#[derive(Clone, Copy, Debug, PartialEq, Eq)]
pub enum ShutdownStep {
    /// Nothing more in this frame.
    Done,
    /// Compute `to - from` and answer with it.
    MeasureDrop { from: Scalar, to: Scalar, task: ShutdownTask },
    /// Warn, and wait for the user to interrupt.
    Countdown(ShutdownTask),
    /// Power the machine off.
    PowerOff(ShutdownTask),
    /// Compute the distance of the two wrists and answer with it.
    MeasureClap { a: Landmark, b: Landmark, task: ShutdownTask },
}

/// Where a frame stands between two steps.
#[derive(Clone, Copy, Debug, PartialEq, Eq, Structural)]
pub enum ShutdownStage {
    Drop,
    Countdown,
    PowerOff,
    Clap,
}

/// A frame between two steps.
#[derive(Clone, Copy, Debug, PartialEq, Eq)]
pub struct ShutdownTask {
    pub now: u64,
    pub wrists: Option<(Landmark, Landmark)>,
    pub stage: ShutdownStage,
}

/// What the caller hands back.
#[derive(Clone, Copy, Debug, PartialEq, Eq, Structural)]
pub enum ShutdownAnswer {
    /// It was done.
    Performed,
    /// It could not be done: the frame is given up.
    Failed,
    /// The number that was asked for.
    Number(Scalar),
}

impl ClapState {
    /// The window is open exactly from the second clap on. Claps come one cooldown
    /// apart, so the time of the last one bounds their number.
    pub open spec fn wf(self) -> bool {
        &&& self.window_since is Some <==> self.count >= 2
        &&& self.count * CLAP_COOLDOWN <= self.last_clap
    }

    /// Nothing clapped yet.
    pub open spec fn fresh(now: u64) -> ClapState {
        ClapState {
            count: 0,
            last_clap: now,
            together: false,
            window_since: None,
            right_start_y: None,
            last_shutdown: None,
        }
    }

    /// Whether the last shutdown is too recent for another one.
    pub open spec fn cooling(self, now: u64) -> bool {
        self.last_shutdown matches Some(t) && span_of(now, t) < SHUTDOWN_COOLDOWN
    }

    /// The state after a shutdown.
    pub open spec fn reset(self, now: u64) -> ClapState {
        ClapState {
            count: 0,
            window_since: None,
            right_start_y: None,
            last_shutdown: Some(now),
            ..self
        }
    }

    /// Without a window, a clap that was not followed in time is forgotten.
    pub open spec fn timed_out(self, now: u64) -> ClapState {
        if self.window_since is None && self.count > 0 && span_of(now, self.last_clap)
            > CLAP_TIMEOUT {
            ClapState { count: 0, ..self }
        } else {
            self
        }
    }

    /// Whether the window has passed.
    pub open spec fn expired(self, now: u64) -> bool {
        self.window_since matches Some(t) && span_of(now, t) > AFTER_CLAP_WINDOW
    }

    /// The state without the window.
    pub open spec fn closed(self) -> ClapState {
        ClapState { count: 0, window_since: None, right_start_y: None, ..self }
    }

    /// The state after seeing whether the hands are together: coming together is a
    /// clap, and the second clap opens the window.
    pub open spec fn clapped(self, clapping: bool, now: u64) -> ClapState {
        if clapping && !self.together && span_of(now, self.last_clap) > CLAP_COOLDOWN {
            ClapState {
                count: (self.count + 1) as u64,
                last_clap: now,
                together: true,
                window_since: if self.count == 1 {
                    Some(now)
                } else {
                    self.window_since
                },
                right_start_y: if self.count == 1 {
                    None
                } else {
                    self.right_start_y
                },
                ..self
            }
        } else {
            ClapState { together: clapping, ..self }
        }
    }

    /// The part of a frame that looks for a clap.
    pub open spec fn clap_part(self, task: ShutdownTask) -> (ClapState, ShutdownStep) {
        match task.wrists {
            None => (self.clapped(false, task.now), ShutdownStep::Done),
            Some((a, b)) => (
                self,
                ShutdownStep::MeasureClap {
                    a,
                    b,
                    task: ShutdownTask { stage: ShutdownStage::Clap, ..task },
                },
            ),
        }
    }

    /// A frame, up to the first thing the caller has to do.
    pub open spec fn frame(self, hands: Seq<Hand>, now: u64) -> (ClapState, ShutdownStep) {
        let task = ShutdownTask { now, wrists: wrists_of(hands), stage: ShutdownStage::Drop };
        let s = self.timed_out(now);
        let wrist = right_wrist_from(hands, 0);
        if self.cooling(now) {
            (self, ShutdownStep::Done)
        } else if s.expired(now) {
            s.closed().clap_part(task)
        } else if s.window_since is None {
            s.clap_part(task)
        } else if s.right_start_y is None {
            ClapState { right_start_y: wrist, ..s }.clap_part(task)
        } else if wrist is None {
            s.clap_part(task)
        } else {
            (s, ShutdownStep::MeasureDrop { from: s.right_start_y->0, to: wrist->0, task })
        }
    }

    /// The frame after an answer, up to the next thing the caller has to do. A
    /// shutdown is due once the hand has dropped far enough; its time is `clock`.
    /// An answer that does not belong to the step gives the frame up.
    pub open spec fn next(self, task: ShutdownTask, answer: ShutdownAnswer, clock: u64) -> (
        ClapState,
        ShutdownStep,
    ) {
        match (task.stage, answer) {
            (ShutdownStage::Drop, ShutdownAnswer::Number(drop)) => if number(
                SHUTDOWN_DOWN_THRESHOLD,
            ).below(drop) {
                (
                    self,
                    ShutdownStep::Countdown(
                        ShutdownTask { stage: ShutdownStage::Countdown, ..task },
                    ),
                )
            } else {
                self.clap_part(task)
            },
            (ShutdownStage::Countdown, ShutdownAnswer::Performed) => (
                self.reset(clock),
                ShutdownStep::PowerOff(ShutdownTask { stage: ShutdownStage::PowerOff, ..task }),
            ),
            (ShutdownStage::PowerOff, ShutdownAnswer::Performed) => self.clap_part(task),
            (ShutdownStage::Clap, ShutdownAnswer::Number(gap)) => (
                self.clapped(gap.below(number(CLAP_THRESHOLD)), task.now),
                ShutdownStep::Done,
            ),
            _ => (self, ShutdownStep::Done),
        }
    }

    /// Nothing clapped yet.
    pub fn new(now: u64) -> (s: ClapState)
        ensures
            s == ClapState::fresh(now),
            s.wf(),
    {
        ClapState {
            count: 0,
            last_clap: now,
            together: false,
            window_since: None,
            right_start_y: None,
            last_shutdown: None,
        }
    }

    /// Records a shutdown, whichever way it came.
    pub fn reset_shutdown_state(&mut self, now: u64)
        requires
            old(self).wf(),
        ensures
            final(self).wf(),
            *final(self) == old(self).reset(now),
    {
        self.last_shutdown = Some(now);
        self.window_since = None;
        self.right_start_y = None;
        self.count = 0;
    }

    fn clap(&mut self, clapping: bool, now: u64)
        requires
            old(self).wf(),
        ensures
            final(self).wf(),
            *final(self) == old(self).clapped(clapping, now),
    {
        if clapping && !self.together && elapsed(now, self.last_clap) > CLAP_COOLDOWN {
            self.count = self.count + 1;
            self.last_clap = now;
            if self.count == 2 {
                self.window_since = Some(now);
                self.right_start_y = None;
            }
        }
        self.together = clapping;
    }

    fn look_for_clap(&mut self, task: ShutdownTask) -> (step: ShutdownStep)
        requires
            old(self).wf(),
        ensures
            final(self).wf(),
            (*final(self), step) == old(self).clap_part(task),
    {
        match task.wrists {
            None => {
                self.clap(false, task.now);
                ShutdownStep::Done
            },
            Some((a, b)) => {
                let task = ShutdownTask { stage: ShutdownStage::Clap, ..task };
                ShutdownStep::MeasureClap { a, b, task }
            },
        }
    }

    /// Takes in a frame. Returns what to do next; `resume` goes on from there.
    pub fn check_shutdown_gesture(&mut self, hands: &Vec<Hand>, now: u64) -> (step: ShutdownStep)
        requires
            old(self).wf(),
        ensures
            final(self).wf(),
            (*final(self), step) == old(self).frame(hands@, now),
    {
        let cooling = match self.last_shutdown {
            Some(t) => elapsed(now, t) < SHUTDOWN_COOLDOWN,
            None => false,
        };
        if cooling {
            return ShutdownStep::Done;
        }
        let task = ShutdownTask { now, wrists: clap_wrists(hands), stage: ShutdownStage::Drop };
        match self.window_since {
            None => {
                if self.count > 0 && elapsed(now, self.last_clap) > CLAP_TIMEOUT {
                    self.count = 0;
                }
            },
            Some(t) => {
                if elapsed(now, t) > AFTER_CLAP_WINDOW {
                    self.window_since = None;
                    self.right_start_y = None;
                    self.count = 0;
                } else {
                    let wrist = right_wrist(hands);
                    match self.right_start_y {
                        None => {
                            self.right_start_y = wrist;
                        },
                        Some(from) => match wrist {
                            Some(to) => {
                                return ShutdownStep::MeasureDrop { from, to, task };
                            },
                            None => {},
                        },
                    }
                }
            },
        }
        self.look_for_clap(task)
    }

    /// Goes on with a frame. `clock` is the time of the answer.
    pub fn resume(&mut self, task: ShutdownTask, answer: ShutdownAnswer, clock: u64) -> (step:
        ShutdownStep)
        requires
            old(self).wf(),
        ensures
            final(self).wf(),
            (*final(self), step) == old(self).next(task, answer, clock),
    {
        match (task.stage, answer) {
            (ShutdownStage::Drop, ShutdownAnswer::Number(drop)) => {
                if threshold(SHUTDOWN_DOWN_THRESHOLD).lt(drop) {
                    ShutdownStep::Countdown(
                        ShutdownTask { stage: ShutdownStage::Countdown, ..task },
                    )
                } else {
                    self.look_for_clap(task)
                }
            },
            (ShutdownStage::Countdown, ShutdownAnswer::Performed) => {
                self.reset_shutdown_state(clock);
                ShutdownStep::PowerOff(ShutdownTask { stage: ShutdownStage::PowerOff, ..task })
            },
            (ShutdownStage::PowerOff, ShutdownAnswer::Performed) => self.look_for_clap(task),
            (ShutdownStage::Clap, ShutdownAnswer::Number(gap)) => {
                self.clap(gap.lt(threshold(CLAP_THRESHOLD)), task.now);
                ShutdownStep::Done
            },
            _ => ShutdownStep::Done,
        }
    }

    /// Whether two claps are waiting to be confirmed; other gestures rest meanwhile.
    pub fn is_waiting(&self) -> (result: bool)
        ensures
            result == self.window_since is Some,
    {
        self.window_since.is_some()
    }
}

/// A shutdown needs its whole gesture: it is only counted down in a frame that had
/// two claps behind it, came while their window was open, and saw the right wrist
/// lower than at the start of that window by more than the threshold.
pub proof fn law_shutdown_needs_claps_and_drop(
    s: ClapState,
    hands: Seq<Hand>,
    now: u64,
    drop: Scalar,
    clock: u64,
)
    requires
        s.wf(),
        s.frame(hands, now).1 is MeasureDrop,
    ensures
        ({
            let (s1, step) = s.frame(hands, now);
            &&& s1.count >= 2
            &&& s1.window_since matches Some(t) && span_of(now, t) <= AFTER_CLAP_WINDOW
            &&& !s.cooling(now)
            &&& s1.right_start_y == Some(step->from)
            &&& right_wrist_from(hands, 0) == Some(step->to)
            &&& s1.next(step->MeasureDrop_task, ShutdownAnswer::Number(drop), clock).1
                is Countdown <==> number(SHUTDOWN_DOWN_THRESHOLD).below(drop)
        }),
{
}

/// Nothing but such a measured drop leads to a countdown, and nothing but a
/// countdown leads to powering off.
pub proof fn law_no_other_way_to_power_off(
    s: ClapState,
    hands: Seq<Hand>,
    now: u64,
    task: ShutdownTask,
    answer: ShutdownAnswer,
    clock: u64,
)
    ensures
        !(s.frame(hands, now).1 is Countdown),
        !(s.frame(hands, now).1 is PowerOff),
        s.next(task, answer, clock).1 is Countdown ==> task.stage == ShutdownStage::Drop,
        s.next(task, answer, clock).1 is PowerOff ==> task.stage == ShutdownStage::Countdown
            && s.next(task, answer, clock).0 == s.reset(clock),
{
}

/// The two claps belong together: the frame that opens the window comes more than
/// the clap cooldown and at most the clap timeout after the first clap.
pub proof fn law_window_opens_on_two_close_claps(
    s: ClapState,
    hands: Seq<Hand>,
    now: u64,
    gap: Scalar,
    clock: u64,
)
    requires
        s.wf(),
        s.window_since is None,
        s.frame(hands, now).1 is MeasureClap,
        s.frame(hands, now).0.next(
            s.frame(hands, now).1->MeasureClap_task,
            ShutdownAnswer::Number(gap),
            clock,
        ).0.window_since is Some,
    ensures
        s.count == 1,
        CLAP_COOLDOWN < now - s.last_clap <= CLAP_TIMEOUT,
        !s.together,
        gap.below(number(CLAP_THRESHOLD)),
        s.frame(hands, now).0.next(
            s.frame(hands, now).1->MeasureClap_task,
            ShutdownAnswer::Number(gap),
            clock,
        ).0.window_since == Some(now),
{
}

/// For a while after a shutdown, however it came, the gesture is ignored.
pub proof fn law_shutdown_gesture_cools_down(
    s: ClapState,
    reset_at: u64,
    hands: Seq<Hand>,
    now: u64,
)
    requires
        span_of(now, reset_at) < SHUTDOWN_COOLDOWN,
    ensures
        s.reset(reset_at).frame(hands, now) == (s.reset(reset_at), ShutdownStep::Done),
{
}

/// How many answers a frame can still take.
pub open spec fn answers_left(step: ShutdownStep) -> int {
    match step {
        ShutdownStep::Done => 0,
        ShutdownStep::MeasureClap { .. } => 1,
        ShutdownStep::PowerOff(_) => 2,
        ShutdownStep::Countdown(_) => 3,
        ShutdownStep::MeasureDrop { .. } => 4,
    }
}

/// The task that a step carries, where it belongs to the step.
pub open spec fn task_of(step: ShutdownStep) -> Option<ShutdownTask> {
    let (task, stage) = match step {
        ShutdownStep::MeasureClap { task, .. } => (Some(task), ShutdownStage::Clap),
        ShutdownStep::PowerOff(task) => (Some(task), ShutdownStage::PowerOff),
        ShutdownStep::Countdown(task) => (Some(task), ShutdownStage::Countdown),
        ShutdownStep::MeasureDrop { task, .. } => (Some(task), ShutdownStage::Drop),
        ShutdownStep::Done => (None, ShutdownStage::Drop),
    };
    match task {
        Some(t) if t.stage == stage => Some(t),
        _ => None,
    }
}

/// Whether a step is the end of a frame or carries the task that belongs to it.
pub open spec fn step_fits(step: ShutdownStep) -> bool {
    step is Done || task_of(step) is Some
}

/// A frame ends: every answer leaves it with fewer answers to take.
pub proof fn law_shutdown_frame_ends(
    s: ClapState,
    hands: Seq<Hand>,
    now: u64,
    step: ShutdownStep,
    answer: ShutdownAnswer,
    clock: u64,
)
    requires
        task_of(step) is Some,
    ensures
        step_fits(s.frame(hands, now).1),
        step_fits(s.next(task_of(step)->0, answer, clock).1),
        answers_left(s.next(task_of(step)->0, answer, clock).1) < answers_left(step),
{
}

/// Whether the hands at these positions are the first two completely tracked ones.
pub open spec fn first_two(hands: Seq<Hand>, i: int, j: int) -> bool {
    &&& 0 <= i < j < hands.len()
    &&& hands[i].landmarks@.len() >= 21
    &&& hands[j].landmarks@.len() >= 21
    &&& forall|x: int|
        0 <= x < j && x != i ==> (#[trigger] hands[x]).landmarks@.len() < 21
}

/// Whether the hand at this position is the first right one.
pub open spec fn first_right(hands: Seq<Hand>, i: int) -> bool {
    &&& 0 <= i < hands.len()
    &&& hands[i].handedness is Some && hands[i].handedness->0@ == "Right"@
    &&& forall|x: int|
        0 <= x < i ==> !((#[trigger] hands[x]).handedness is Some && hands[x].handedness->0@
            == "Right"@)
}

proof fn lemma_first_full(hands: Seq<Hand>, keep: spec_fn(Hand) -> bool, n: int) -> (i: int)
    requires
        0 <= n <= hands.len(),
        keep == (|h: Hand| h.full()),
    ensures
        hands.take(n).filter(keep).len() == 0 ==> forall|x: int|
            0 <= x < n ==> (#[trigger] hands[x]).landmarks@.len() < 21,
        hands.take(n).filter(keep).len() == 1 ==> {
            &&& 0 <= i < n
            &&& hands[i].landmarks@.len() >= 21
            &&& hands.take(n).filter(keep)[0] == hands[i]
            &&& forall|x: int|
                0 <= x < n && x != i ==> (#[trigger] hands[x]).landmarks@.len() < 21
        },
        hands.take(n).filter(keep).len() >= 2 ==> exists|a: int, b: int| #[trigger]
            first_two(hands, a, b) && hands.take(n).filter(keep)[0] == hands[a] && hands.take(
                n,
            ).filter(keep)[1] == hands[b],
    decreases n,
{
    if n == 0 {
        assert(hands.take(0) == Seq::<Hand>::empty());
        reveal(Seq::filter);
        0
    } else {
        let i = lemma_first_full(hands, keep, n - 1);
        lemma_filter_step(hands, keep, n - 1);
        let before = hands.take(n - 1).filter(keep);
        let all = hands.take(n).filter(keep);
        if keep(hands[n - 1]) {
            assert(all == before.push(hands[n - 1]));
            if before.len() == 0 {
                n - 1
            } else if before.len() == 1 {
                assert(first_two(hands, i, n - 1));
                i
            } else {
                let (a, b) = choose|a: int, b: int| #[trigger]
                    first_two(hands, a, b) && before[0] == hands[a] && before[1] == hands[b];
                assert(first_two(hands, a, b) && all[0] == hands[a] && all[1] == hands[b]);
                i
            }
        } else {
            i
        }
    }
}

/// A clap is measured between two hands: wherever wrists are to be measured, they are
/// the wrists of the first two completely tracked hands, one of each; and they are to be
/// measured as soon as there are two such hands.
pub proof fn law_clap_takes_two_hands(hands: Seq<Hand>)
    ensures
        wrists_of(hands) matches Some((a, b)) ==> exists|i: int, j: int| #[trigger]
            first_two(hands, i, j) && a == hands[i].landmarks@[0] && b == hands[j].landmarks@[0],
        forall|i: int, j: int| #[trigger]
            first_two(hands, i, j) ==> wrists_of(hands) == Some(
                (hands[i].landmarks@[0], hands[j].landmarks@[0]),
            ),
{
    let keep = |h: Hand| h.full();
    let n = hands.len() as int;
    let i = lemma_first_full(hands, keep, n);
    assert(hands.take(n) == hands);
    assert forall|x: int, y: int| #[trigger] first_two(hands, x, y) implies wrists_of(hands)
        == Some((hands[x].landmarks@[0], hands[y].landmarks@[0])) by {
        let full = hands.filter(keep);
        if full.len() == 0 {
            assert(hands[x].landmarks@.len() < 21);
        } else if full.len() == 1 {
            let other = if x == i {
                y
            } else {
                x
            };
            assert(hands[other].landmarks@.len() < 21);
        } else {
            let (a, b) = choose|a: int, b: int| #[trigger]
                first_two(hands, a, b) && full[0] == hands[a] && full[1] == hands[b];
            assert(hands[a].landmarks@.len() >= 21 && hands[b].landmarks@.len() >= 21);
            assert(hands[x].landmarks@.len() >= 21 && hands[y].landmarks@.len() >= 21);
            assert(a == x && b == y);
        }
    }
}

proof fn lemma_right_wrist(hands: Seq<Hand>, k: int, i: int)
    requires
        first_right(hands, i),
        0 <= k <= i,
    ensures
        right_wrist_from(hands, k) == if hands[i].landmarks@.len() == 0 {
            None
        } else {
            Some(hands[i].landmarks@[0].y)
        },
    decreases i - k,
{
    if k < i {
        assert(!hands[k].right());
        lemma_right_wrist(hands, k + 1, i);
    } else {
        assert(hands[i].right());
    }
}

proof fn lemma_no_right_wrist(hands: Seq<Hand>, k: int) -> (i: int)
    requires
        0 <= k <= hands.len(),
        forall|x: int| 0 <= x < k ==> !(#[trigger] hands[x]).right(),
        right_wrist_from(hands, k) is Some,
    ensures
        first_right(hands, i),
    decreases hands.len() - k,
{
    if k < hands.len() && hands[k].right() {
        k
    } else {
        lemma_no_right_wrist(hands, k + 1)
    }
}

/// The right wrist is the one of the first hand that the tracker calls right, and of no
/// other.
pub proof fn law_right_wrist_is_of_the_first_right_hand(hands: Seq<Hand>)
    ensures
        right_wrist_from(hands, 0) is Some ==> exists|i: int| #[trigger]
            first_right(hands, i) && hands[i].landmarks@.len() > 0,
        forall|i: int| #[trigger]
            first_right(hands, i) ==> right_wrist_from(hands, 0) == if hands[i].landmarks@.len()
                == 0 {
                None
            } else {
                Some(hands[i].landmarks@[0].y)
            },
{
    assert forall|i: int| #[trigger] first_right(hands, i) implies right_wrist_from(hands, 0)
        == if hands[i].landmarks@.len() == 0 {
        None
    } else {
        Some(hands[i].landmarks@[0].y)
    } by {
        lemma_right_wrist(hands, 0, i);
    }
    if right_wrist_from(hands, 0) is Some {
        let i = lemma_no_right_wrist(hands, 0);
        lemma_right_wrist(hands, 0, i);
    }
}

/// Whatever a frame, or an answer, asks to measure: a clap between the wrists of the
/// first two complete hands of the frame, and a drop of the first right hand's wrist
/// from the height that was kept.
pub proof fn law_frame_measures_its_hands(
    s: ClapState,
    hands: Seq<Hand>,
    now: u64,
    answer: ShutdownAnswer,
    clock: u64,
)
    ensures
        ({
            let (s1, step) = s.frame(hands, now);
            &&& step matches ShutdownStep::MeasureClap { a, b, task } ==> task.now == now
                && task.stage == ShutdownStage::Clap && exists|i: int, j: int| #[trigger]
                first_two(hands, i, j) && a == hands[i].landmarks@[0] && b
                    == hands[j].landmarks@[0]
            &&& step matches ShutdownStep::MeasureDrop { from, to, task } ==> {
                &&& task.now == now
                &&& task.stage == ShutdownStage::Drop
                &&& task.wrists is Some <==> exists|i: int, j: int| #[trigger]
                    first_two(hands, i, j)
                &&& s1.right_start_y == Some(from)
                &&& s.right_start_y == Some(from)
                &&& exists|i: int| #[trigger]
                    first_right(hands, i) && hands[i].landmarks@.len() > 0 && to
                        == hands[i].landmarks@[0].y
                &&& s1.next(task, answer, clock).1 matches ShutdownStep::MeasureClap { a, b, .. }
                    ==> exists|i: int, j: int| #[trigger]
                    first_two(hands, i, j) && a == hands[i].landmarks@[0] && b
                        == hands[j].landmarks@[0]
            }
        }),
{
    law_clap_takes_two_hands(hands);
    law_right_wrist_is_of_the_first_right_hand(hands);
    if right_wrist_from(hands, 0) is Some {
        let i = choose|i: int| #[trigger]
            first_right(hands, i) && hands[i].landmarks@.len() > 0;
        assert(first_right(hands, i) && right_wrist_from(hands, 0) == Some(
            hands[i].landmarks@[0].y,
        ));
    }
}

/// What a frame does, on its fields. During the cooldown it does nothing. Else, with the
/// window open and the start height kept, it asks for the drop as soon as the right wrist
/// is seen; otherwise a window that has passed, or a clap not followed in time, is
/// forgotten, the start height is taken while the window is open, and it asks for the
/// distance of two hands, or takes fewer than two for hands apart.
pub proof fn law_frame_of_the_gesture(s: ClapState, hands: Seq<Hand>, now: u64)
    requires
        s.wf(),
    ensures
        ({
            let (s1, step) = s.frame(hands, now);
            let wrist = right_wrist_from(hands, 0);
            let cooling = s.last_shutdown matches Some(t) && now < t + SHUTDOWN_COOLDOWN;
            let passed = s.window_since matches Some(t) && now > t + AFTER_CLAP_WINDOW;
            let open = s.window_since is Some && !passed;
            let late = s.window_since is None && now > s.last_clap + CLAP_TIMEOUT;
            let drop = open && s.right_start_y is Some && wrist is Some;
            let two = exists|i: int, j: int| #[trigger] first_two(hands, i, j);
            &&& cooling ==> s1 == s && step is Done
            &&& !cooling && drop ==> s1 == s && step is MeasureDrop
            &&& !cooling && !drop ==> {
                &&& step is MeasureClap <==> two
                &&& step is Done <==> !two
                &&& s1.count == if passed || late {
                    0
                } else {
                    s.count
                }
                &&& s1.window_since == if passed {
                    None
                } else {
                    s.window_since
                }
                &&& s1.right_start_y == if passed {
                    None
                } else if open && s.right_start_y is None {
                    wrist
                } else {
                    s.right_start_y
                }
                &&& s1.together == (two && s.together)
                &&& s1.last_clap == s.last_clap
                &&& s1.last_shutdown == s.last_shutdown
            }
        }),
{
    law_clap_takes_two_hands(hands);
    if let Some((a, b)) = wrists_of(hands) {
        let (i, j) = choose|i: int, j: int| #[trigger]
            first_two(hands, i, j) && a == hands[i].landmarks@[0] && b == hands[j].landmarks@[0];
        assert(first_two(hands, i, j));
    }
}

/// What an answer does, on its fields. Hands that come together, more than the cooldown
/// after the last clap, are a clap at the time of the frame; the second one, and no
/// other, opens the window and forgets the start height. A drop beyond the threshold, and
/// no other, leads to the countdown; its end records the shutdown and asks to power off.
/// A failure changes nothing.
pub proof fn law_answer_to_the_gesture(
    s: ClapState,
    task: ShutdownTask,
    answer: ShutdownAnswer,
    clock: u64,
)
    requires
        s.wf(),
    ensures
        answer is Failed ==> s.next(task, answer, clock) == (s, ShutdownStep::Done),
        task.stage == ShutdownStage::Clap ==> (answer matches ShutdownAnswer::Number(gap) ==> {
            let (s1, step) = s.next(task, answer, clock);
            let near = gap.below(number(CLAP_THRESHOLD));
            let clap = near && !s.together && task.now > s.last_clap + CLAP_COOLDOWN;
            &&& step is Done
            &&& s1.together == near
            &&& s1.count == s.count + if clap {
                1int
            } else {
                0
            }
            &&& s1.last_clap == if clap {
                task.now
            } else {
                s.last_clap
            }
            &&& s1.window_since == if clap && s.count == 1 {
                Some(task.now)
            } else {
                s.window_since
            }
            &&& s1.right_start_y == if clap && s.count == 1 {
                None
            } else {
                s.right_start_y
            }
            &&& s1.last_shutdown == s.last_shutdown
        }),
        task.stage == ShutdownStage::Drop ==> (answer matches ShutdownAnswer::Number(drop) ==> {
            let (s1, step) = s.next(task, answer, clock);
            &&& step is Countdown <==> number(SHUTDOWN_DOWN_THRESHOLD).below(drop)
            &&& step is Countdown ==> s1 == s
            &&& !(step is Countdown) ==> (step is MeasureClap <==> task.wrists is Some)
            &&& !(step is Countdown) ==> s1 == (ClapState {
                together: s.together && task.wrists is Some,
                ..s
            })
        }),
        task.stage == ShutdownStage::Countdown && answer is Performed ==> {
            let (s1, step) = s.next(task, answer, clock);
            &&& step is PowerOff
            &&& s1 == (ClapState {
                count: 0,
                last_clap: s.last_clap,
                together: s.together,
                window_since: None,
                right_start_y: None,
                last_shutdown: Some(clock),
            })
        },
        task.stage == ShutdownStage::PowerOff && answer is Performed ==> {
            let (s1, step) = s.next(task, answer, clock);
            &&& step is MeasureClap <==> task.wrists is Some
            &&& s1 == (ClapState { together: s.together && task.wrists is Some, ..s })
        },
        s.next(task, answer, clock).1 matches ShutdownStep::MeasureClap { a, b, task: t }
            ==> task.wrists == Some((a, b)) && t.now == task.now && t.wrists == task.wrists
            && t.stage == ShutdownStage::Clap,
        s.next(task, answer, clock).1 matches ShutdownStep::Countdown(t) ==> t.now == task.now
            && t.wrists == task.wrists && t.stage == ShutdownStage::Countdown,
        s.next(task, answer, clock).1 matches ShutdownStep::PowerOff(t) ==> t.now == task.now
            && t.wrists == task.wrists && t.stage == ShutdownStage::PowerOff,
        answer is Performed && (task.stage == ShutdownStage::Clap || task.stage
            == ShutdownStage::Drop) ==> s.next(task, answer, clock) == (s, ShutdownStep::Done),
        answer is Number && (task.stage == ShutdownStage::Countdown || task.stage
            == ShutdownStage::PowerOff) ==> s.next(task, answer, clock) == (
            s,
            ShutdownStep::Done,
        ),
{
}

} // verus!
