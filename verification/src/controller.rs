//! The controller: one hand, frame by frame.
//!
//! `Controller::process` takes in what was measured of a hand and says what to do
//! first. Whenever that has been done, `Controller::resume` takes the answer and
//! says what to do next, until the frame is done. What fails ends the frame, and
//! leaves everything that would have followed undone. Utterances work the same way:
//! `Controller::handle_voice_event`, then `Controller::resume_voice`.
use std::collections::VecDeque;

use vstd::prelude::*;

use crate::cursor::{steadied, steady, CursorBlend};
use crate::fingers::{
    fingers_after, is_opened, is_raised_fist, opened, raised_fist, update_fingers,
};
use crate::fist::FistState;
use crate::hand::{primary_among, primary_hand, Hand, Point};
use crate::mode::{classify_mode, pose, Mode, ModeState};
use crate::motion::{remember, remembered, stretch, velocity_stretch, Sample};
use crate::palm::{PalmMotion, PalmState, SwipeDirection};
use crate::pinch::{PinchButton, PinchReading, PinchState};
use crate::scalar::Scalar;
use crate::scroll::{next_tick, scroll_tick, ScrollDirection, ScrollState};
use crate::settings::{number, threshold, MIN_HAND_SPAN, SCROLL_MAX_TICKS};
use crate::shutdown::{ClapState, ShutdownAnswer};
use crate::voice::{holds_command, match_voice_command, VoiceEvent, VoiceState, VoiceVerdict};

verus! {

/// What is measured of a hand in one frame.
#[derive(Clone, Copy, Debug)]
pub struct HandReading {
    /// The longer side of the box around the hand.
    pub span: Scalar,
    /// Height of the wrist in the view; it grows downwards.
    pub wrist_y: Scalar,
    /// Joint angle of each finger in degrees, thumb first.
    pub angles: [Scalar; 5],
    /// Distance of each fingertip from its knuckle in palms, thumb first.
    pub ratios: [Scalar; 5],
    /// Distance of the thumb's tip from the index finger's.
    pub left_gap: Scalar,
    /// Distance of the thumb's tip from the middle finger's.
    pub right_gap: Scalar,
    /// `PINCH_PALM_REL_ON` palms.
    pub close_reach: Scalar,
    /// `PINCH_PALM_REL_OFF` palms.
    pub open_reach: Scalar,
    /// Centre of the palm.
    pub centroid: Point,
    /// Mean height of the index and the middle fingertip.
    pub tips_y: Scalar,
    /// Where on the screen the index finger points, in pixels.
    pub target: Point,
}

impl HandReading {
    /// What is measured of one pinch: the index finger makes the left one, the
    /// middle finger the right one.
    pub open spec fn pinch(self, button: PinchButton) -> PinchReading {
        match button {
            PinchButton::Left => PinchReading {
                angle: self.angles[1],
                gap: self.left_gap,
                close_reach: self.close_reach,
                open_reach: self.open_reach,
            },
            PinchButton::Right => PinchReading {
                angle: self.angles[2],
                gap: self.right_gap,
                close_reach: self.close_reach,
                open_reach: self.open_reach,
            },
        }
    }

    /// What is measured of one pinch.
    pub fn pinch_reading(&self, button: PinchButton) -> (r: PinchReading)
        ensures
            r == self.pinch(button),
    {
        match button {
            PinchButton::Left => PinchReading {
                angle: self.angles[1],
                gap: self.left_gap,
                close_reach: self.close_reach,
                open_reach: self.open_reach,
            },
            PinchButton::Right => PinchReading {
                angle: self.angles[2],
                gap: self.right_gap,
                close_reach: self.close_reach,
                open_reach: self.open_reach,
            },
        }
    }
}

/// Where a frame stands: the thing that the caller was last asked to do.
#[derive(Clone, Copy, Debug)]
pub enum FrameStage {
    CloseTab,
    Click(PinchButton),
    Announce,
    SumTravel,
    Wheel(u32),
    Blend(Point),
    MoveCursor,
    MeasurePalm,
    SwitchWorkspace(PalmMotion),
    StepVolume,
}

/// A frame between two steps.
#[derive(Clone, Copy, Debug)]
pub struct FrameTask {
    pub reading: HandReading,
    pub now: u64,
    /// Whether the hand is a raised fist.
    pub fist: bool,
    /// Whether the last click was long enough ago when the frame began.
    pub rested: bool,
    /// The samples between which the palm's speed is measured.
    pub stretch: Option<(Sample, Sample)>,
    pub stage: FrameStage,
}

/// What the caller has to do next.
#[derive(Clone, Copy, Debug)]
pub enum FrameStep {
    /// Nothing more in this frame.
    Done,
    /// Close the current tab.
    CloseTab(FrameTask),
    /// Click a mouse button.
    Click(PinchButton, FrameTask),
    /// Tell the user about the new mode.
    Announce(Mode, FrameTask),
    /// Compute `travel + (to_y - from_y)` and answer with it.
    SumTravel { travel: Scalar, from_y: Scalar, to_y: Scalar, task: FrameTask },
    /// Turn the wheel by one tick, and answer with `travel` brought closer to zero
    /// by `SCROLL_TICK`.
    Wheel { direction: ScrollDirection, travel: Scalar, task: FrameTask },
    /// Measure the way of the cursor, smooth it and answer with both.
    Blend { from: Point, to: Point, task: FrameTask },
    /// Move the cursor.
    MoveCursor { to: Point, task: FrameTask },
    /// Measure the motion of the palm: its speed between the samples (zero without
    /// them) and its way from the anchor.
    MeasurePalm {
        stretch: Option<(Sample, Sample)>,
        anchor: Option<Point>,
        pos: Point,
        task: FrameTask,
    },
    /// Switch to the next workspace, or to the previous one.
    SwitchWorkspace(SwipeDirection, FrameTask),
    /// Step the volume; true is up.
    StepVolume(bool, FrameTask),
}

/// What the caller hands back.
#[derive(Clone, Copy, Debug)]
pub enum FrameAnswer {
    /// It was done.
    Performed,
    /// It could not be done: the frame is given up.
    Failed,
    /// The number that was asked for.
    Number(Scalar),
    /// The smoothed way that was asked for.
    Blend(CursorBlend),
    /// The motion that was asked for.
    Motion(PalmMotion),
}

/// What becomes of the hands of a frame.
#[derive(Clone, Copy, Debug, PartialEq, Eq, Structural)]
pub enum Route {
    /// Two claps are waiting to be confirmed: everything else rests.
    Suspended,
    /// Go on with this hand.
    Process(usize),
    /// No usable hand.
    Lost,
}

/// What the caller has to do about an utterance.
#[derive(Clone, Copy, Debug, PartialEq, Eq, Structural)]
pub enum VoiceStep {
    /// Nothing: too soon after the last command.
    Cooling,
    /// Nothing: not a command.
    Unmatched,
    /// Warn, and wait for the user to interrupt.
    Countdown,
    /// Power the machine off.
    PowerOff,
    /// Nothing more.
    Done,
}

/// Everything that the controller remembers.
pub struct Controller {
    pub modes: ModeState,
    pub finger_up: [bool; 5],
    pub last_status: String,
    pub cursor: Option<Point>,
    pub pinch: PinchState,
    pub history: VecDeque<Sample>,
    pub scroll: ScrollState,
    pub fist: FistState,
    pub palm: PalmState,
    pub claps: ClapState,
    pub voice: VoiceState,
}

/// Everything that the controller remembers, as plain mathematics.
#[verifier::ext_equal]
pub struct State {
    pub modes: ModeState,
    pub finger_up: Seq<bool>,
    pub last_status: Seq<char>,
    pub cursor: Option<Point>,
    pub pinch: PinchState,
    pub history: Seq<Sample>,
    pub scroll: ScrollState,
    pub fist: FistState,
    pub palm: PalmState,
    pub claps: ClapState,
    pub voice: VoiceState,
}

impl View for Controller {
    type V = State;

    open spec fn view(&self) -> State {
        State {
            modes: self.modes,
            finger_up: self.finger_up@,
            last_status: self.last_status@,
            cursor: self.cursor,
            pinch: self.pinch,
            history: self.history@,
            scroll: self.scroll,
            fist: self.fist,
            palm: self.palm,
            claps: self.claps,
            voice: self.voice,
        }
    }
}

/// The line that announces a mode.
pub open spec fn mode_line_of(mode: Mode) -> Seq<char> {
    "[MODE] "@ + mode.name()
}

/// The line that announces a mode.
pub fn mode_line(mode: Mode) -> (line: String)
    ensures
        line@ == mode_line_of(mode),
{
    "[MODE] ".to_owned().concat(mode.label())
}

impl State {
    /// What holds between frames: every part is well formed, and the line last
    /// shown is the one of the mode, once a mode was entered.
    pub open spec fn wf(self) -> bool {
        &&& self.modes.wf()
        &&& self.claps.wf()
        &&& self.finger_up.len() == 5
        &&& self.last_status == mode_line_of(self.modes.mode) || (self.modes.mode == Mode::Idle
            && self.last_status.len() == 0)
    }

    /// A controller that has seen nothing.
    pub open spec fn fresh(now: u64) -> State {
        State {
            modes: ModeState { mode: Mode::Idle, candidate: None, frames: 0 },
            finger_up: seq![false, false, false, false, false],
            last_status: Seq::empty(),
            cursor: None,
            pinch: PinchState { left_armed: true, right_armed: true, last_click: now },
            history: Seq::empty(),
            scroll: ScrollState { entered: None, last_y: None, travel: number(0) },
            fist: FistState { since: None, fired: false, last_fire: now },
            palm: PalmState {
                anchor: None,
                vol_armed: true,
                since: None,
                last_switch: now,
                last_flip: now,
            },
            claps: ClapState::fresh(now),
            voice: VoiceState { last_shutdown: None },
        }
    }

    /// What entering a mode resets, once the mode itself has been set: leaving the
    /// palm ends the swipe, the cursor snaps to the finger, scrolling and the palm
    /// settle first, and motion from before does not count for the palm.
    pub open spec fn entered(self, from: Mode, to: Mode, clock: u64) -> State {
        State {
            cursor: if to == Mode::Cursor {
                None
            } else {
                self.cursor
            },
            history: if to == Mode::Palm {
                Seq::empty()
            } else {
                self.history
            },
            scroll: ScrollState {
                entered: if to == Mode::Scroll {
                    Some(clock)
                } else {
                    self.scroll.entered
                },
                ..self.scroll
            },
            palm: PalmState {
                anchor: if from == Mode::Palm {
                    None
                } else {
                    self.palm.anchor
                },
                since: if to == Mode::Palm {
                    Some(clock)
                } else {
                    self.palm.since
                },
                ..self.palm
            },
            ..self
        }
    }

    /// The state after losing the hand.
    pub open spec fn lost(self) -> State {
        let from = self.modes.mode;
        let s = State {
            modes: self.modes.settled(Mode::Idle),
            finger_up: seq![false, false, false, false, false],
            cursor: None,
            history: Seq::empty(),
            scroll: self.scroll.rested(),
            fist: self.fist.lost(),
            palm: self.palm.lost(),
            ..self
        };
        if from == Mode::Idle {
            s
        } else {
            State { last_status: mode_line_of(Mode::Idle), ..s }
        }
    }

    /// Whether losing the hand is to be told to the user.
    pub open spec fn lost_announces(self) -> bool {
        self.modes.mode != Mode::Idle && self.last_status != mode_line_of(Mode::Idle)
    }

    /// What becomes of the hands of a frame.
    pub open spec fn route(self, hands: Seq<Hand>, spans: Seq<Scalar>) -> Route {
        if self.claps.window_since is Some {
            Route::Suspended
        } else {
            match primary_among(hands, spans, hands.len() as int) {
                Some(i) => Route::Process(i as usize),
                None => Route::Lost,
            }
        }
    }

    /// An utterance, given whether it holds the command, up to the first thing the
    /// caller has to do.
    pub open spec fn heard(self, matched: bool, now: u64) -> (State, VoiceStep) {
        (
            State { voice: self.voice.after(matched, now), ..self },
            match self.voice.answer(matched, now) {
                VoiceVerdict::Cooling => VoiceStep::Cooling,
                VoiceVerdict::Unmatched => VoiceStep::Unmatched,
                VoiceVerdict::ShutDown => VoiceStep::Countdown,
            },
        )
    }

    /// The utterance after an answer about a step, up to the next thing the caller
    /// has to do. Once the countdown has passed, at the time `clock`, the shutdown
    /// gesture starts over, as it does after its own shutdown.
    pub open spec fn spoken(self, step: VoiceStep, answer: ShutdownAnswer, clock: u64) -> (
        State,
        VoiceStep,
    ) {
        match (step, answer) {
            (VoiceStep::Countdown, ShutdownAnswer::Performed) => (
                State { claps: self.claps.reset(clock), ..self },
                VoiceStep::PowerOff,
            ),
            _ => (self, VoiceStep::Done),
        }
    }

    /// A frame, up to the first thing the caller has to do. A hand that is too
    /// small is no hand, and changes nothing.
    pub open spec fn frame(self, r: HandReading, now: u64) -> (State, FrameStep) {
        if r.span.below(number(MIN_HAND_SPAN)) {
            (self, FrameStep::Done)
        } else {
            let fingers = fingers_after(self.finger_up, r.angles@, r.ratios@);
            let fist = raised_fist(fingers, r.wrist_y);
            let history = remembered(self.history, Sample { t: now, p: r.centroid });
            let s = State {
                finger_up: fingers,
                history,
                fist: self.fist.seen(fist, opened(fingers), now),
                ..self
            };
            let task = FrameTask {
                reading: r,
                now,
                fist,
                rested: self.pinch.rested(now),
                stretch: stretch(history),
                stage: FrameStage::CloseTab,
            };
            if self.fist.due(fist, now) {
                (s, FrameStep::CloseTab(task))
            } else {
                s.pinch_part(task, now)
            }
        }
    }

    /// The part of a frame that watches the pinches; a fist makes none.
    pub open spec fn pinch_part(self, task: FrameTask, clock: u64) -> (State, FrameStep) {
        if task.fist {
            self.pose_part(task, clock)
        } else {
            self.left_part(task, clock)
        }
    }

    /// The part of a frame that watches thumb and index finger.
    pub open spec fn left_part(self, task: FrameTask, clock: u64) -> (State, FrameStep) {
        let button = PinchButton::Left;
        let r = task.reading.pinch(button);
        if self.pinch.due(button, task.rested, r) {
            (self, FrameStep::Click(button, task.at(FrameStage::Click(button))))
        } else {
            State { pinch: self.pinch.released(button, r), ..self }.right_part(task, clock)
        }
    }

    /// The part of a frame that watches thumb and middle finger.
    pub open spec fn right_part(self, task: FrameTask, clock: u64) -> (State, FrameStep) {
        let button = PinchButton::Right;
        let r = task.reading.pinch(button);
        if self.pinch.due(button, task.rested, r) {
            (self, FrameStep::Click(button, task.at(FrameStage::Click(button))))
        } else {
            State { pinch: self.pinch.released(button, r), ..self }.pose_part(task, clock)
        }
    }

    /// The part of a frame that selects the mode; a mode entered now is entered at
    /// the time `clock`.
    pub open spec fn pose_part(self, task: FrameTask, clock: u64) -> (State, FrameStep) {
        let seen = pose(self.finger_up, task.fist, self.fist.fired);
        let s = State { modes: self.modes.after(seen), ..self };
        if self.modes.confirms(seen) {
            let s = s.entered(self.modes.mode, seen, clock);
            let line = mode_line_of(seen);
            if s.last_status != line {
                (
                    State { last_status: line, ..s },
                    FrameStep::Announce(seen, task.at(FrameStage::Announce)),
                )
            } else {
                s.mode_part(task)
            }
        } else {
            s.mode_part(task)
        }
    }

    /// The part of a frame that belongs to the mode.
    pub open spec fn mode_part(self, task: FrameTask) -> (State, FrameStep) {
        match self.modes.mode {
            Mode::Scroll => self.scroll_part(task),
            Mode::Cursor => self.cursor_part(task),
            Mode::Palm => self.palm_part(task),
            Mode::Idle => (
                State { scroll: self.scroll.rested(), palm: self.palm.anchored(None), ..self },
                FrameStep::Done,
            ),
        }
    }

    /// Scrolling: the fingers' way since the last frame adds up.
    pub open spec fn scroll_part(self, task: FrameTask) -> (State, FrameStep) {
        let y = task.reading.tips_y;
        let at_y = State { scroll: ScrollState { last_y: Some(y), ..self.scroll }, ..self };
        if self.scroll.settling(task.now) {
            (at_y, FrameStep::Done)
        } else {
            match self.scroll.last_y {
                Some(from_y) => (
                    at_y,
                    FrameStep::SumTravel {
                        travel: self.scroll.travel,
                        from_y,
                        to_y: y,
                        task: task.at(FrameStage::SumTravel),
                    },
                ),
                None => at_y.wheel_part(task, 0),
            }
        }
    }

    /// Scrolling: travel is spent tick by tick.
    pub open spec fn wheel_part(self, task: FrameTask, ticks: u32) -> (State, FrameStep) {
        match next_tick(self.scroll.travel, ticks) {
            Some(direction) => (
                self,
                FrameStep::Wheel {
                    direction,
                    travel: self.scroll.travel,
                    task: task.at(FrameStage::Wheel(ticks)),
                },
            ),
            None => (self, FrameStep::Done),
        }
    }

    /// The state with this travel.
    pub open spec fn travelled(self, travel: Scalar) -> State {
        State { scroll: ScrollState { travel, ..self.scroll }, ..self }
    }

    /// Pointing: the first frame snaps to the finger, later ones are smoothed.
    pub open spec fn cursor_part(self, task: FrameTask) -> (State, FrameStep) {
        let to = task.reading.target;
        match self.cursor {
            None => self.moved(task, to),
            Some(from) => (
                self,
                FrameStep::Blend { from, to, task: task.at(FrameStage::Blend(from)) },
            ),
        }
    }

    /// Pointing: the cursor goes there.
    pub open spec fn moved(self, task: FrameTask, to: Point) -> (State, FrameStep) {
        (
            State { cursor: Some(to), ..self },
            FrameStep::MoveCursor { to, task: task.at(FrameStage::MoveCursor) },
        )
    }

    /// An open palm: while it settles, the swipe is anchored where it is.
    pub open spec fn palm_part(self, task: FrameTask) -> (State, FrameStep) {
        let pos = task.reading.centroid;
        if self.palm.settling(task.now) {
            (State { palm: self.palm.anchored(Some(pos)), ..self }, FrameStep::Done)
        } else {
            (
                self,
                FrameStep::MeasurePalm {
                    stretch: task.stretch,
                    anchor: self.palm.anchor,
                    pos,
                    task: task.at(FrameStage::MeasurePalm),
                },
            )
        }
    }

    /// An open palm: a swipe switches the workspace.
    pub open spec fn swipe_part(self, task: FrameTask, m: PalmMotion) -> (State, FrameStep) {
        match self.palm.switch_due(m, task.now) {
            Some(d) => (
                self,
                FrameStep::SwitchWorkspace(d, task.at(FrameStage::SwitchWorkspace(m))),
            ),
            None => State {
                palm: self.palm.followed(m, task.reading.centroid),
                ..self
            }.flip_part(task, m),
        }
    }

    /// An open palm: a flip steps the volume.
    pub open spec fn flip_part(self, task: FrameTask, m: PalmMotion) -> (State, FrameStep) {
        match self.palm.flip_due(m, task.now) {
            Some(up) => (self, FrameStep::StepVolume(up, task.at(FrameStage::StepVolume))),
            None => (State { palm: self.palm.unflipped(m), ..self }, FrameStep::Done),
        }
    }

    /// The frame after an answer, up to the next thing the caller has to do. An
    /// answer that does not belong to the step gives the frame up.
    pub open spec fn next(self, task: FrameTask, answer: FrameAnswer, clock: u64) -> (
        State,
        FrameStep,
    ) {
        match (task.stage, answer) {
            (FrameStage::CloseTab, FrameAnswer::Performed) => State {
                fist: self.fist.acted(task.now),
                ..self
            }.pinch_part(task, clock),
            (FrameStage::Click(PinchButton::Left), FrameAnswer::Performed) => State {
                pinch: self.pinch.clicked(PinchButton::Left, task.now),
                ..self
            }.right_part(task, clock),
            (FrameStage::Click(PinchButton::Right), FrameAnswer::Performed) => State {
                pinch: self.pinch.clicked(PinchButton::Right, task.now),
                ..self
            }.pose_part(task, clock),
            (FrameStage::Announce, FrameAnswer::Performed) => self.mode_part(task),
            (FrameStage::SumTravel, FrameAnswer::Number(travel)) => self.travelled(
                travel,
            ).wheel_part(task, 0),
            (FrameStage::Wheel(ticks), FrameAnswer::Number(travel)) => if ticks
                < SCROLL_MAX_TICKS {
                self.travelled(travel).wheel_part(task, (ticks + 1) as u32)
            } else {
                (self, FrameStep::Done)
            },
            (FrameStage::Blend(from), FrameAnswer::Blend(blend)) => self.moved(
                task,
                steadied(from, blend),
            ),
            (FrameStage::MeasurePalm, FrameAnswer::Motion(m)) => self.swipe_part(task, m),
            (FrameStage::SwitchWorkspace(m), FrameAnswer::Performed) => State {
                palm: self.palm.switched(task.reading.centroid, task.now),
                ..self
            }.flip_part(task, m),
            (FrameStage::StepVolume, FrameAnswer::Performed) => (
                State { palm: self.palm.flipped(task.now), history: Seq::empty(), ..self },
                FrameStep::Done,
            ),
            _ => (self, FrameStep::Done),
        }
    }
}

impl FrameTask {
    /// The task at this stage.
    pub open spec fn at(self, stage: FrameStage) -> FrameTask {
        FrameTask { stage, ..self }
    }

    fn advance(self, stage: FrameStage) -> (task: FrameTask)
        ensures
            task == self.at(stage),
    {
        FrameTask { stage, ..self }
    }
}

impl Controller {
    /// What holds between frames.
    pub open spec fn wf(&self) -> bool {
        self@.wf()
    }

    /// A controller that has seen nothing.
    pub fn new(now: u64) -> (c: Controller)
        ensures
            c.wf(),
            c@ == State::fresh(now),
    {
        let c = Controller {
            modes: ModeState { mode: Mode::Idle, candidate: None, frames: 0 },
            finger_up: [false, false, false, false, false],
            last_status: String::new(),
            cursor: None,
            pinch: PinchState { left_armed: true, right_armed: true, last_click: now },
            history: VecDeque::new(),
            scroll: ScrollState { entered: None, last_y: None, travel: Scalar::zero() },
            fist: FistState { since: None, fired: false, last_fire: now },
            palm: PalmState {
                anchor: None,
                vol_armed: true,
                since: None,
                last_switch: now,
                last_flip: now,
            },
            claps: ClapState::new(now),
            voice: VoiceState { last_shutdown: None },
        };
        assert(c@ =~= State::fresh(now));
        c
    }

    /// Keeps a line as the one last shown. Returns whether it is a new one.
    fn status(&mut self, line: String) -> (new: bool)
        ensures
            new == (old(self).last_status@ != line@),
            final(self)@ == (State { last_status: line@, ..old(self)@ }),
    {
        let new = self.last_status != line;
        self.last_status = line;
        new
    }

    /// What entering a mode resets, once the mode itself has been set. Returns
    /// whether to tell the user.
    fn enter(&mut self, from: Mode, to: Mode, clock: u64) -> (announce: bool)
        ensures
            announce == (old(self).last_status@ != mode_line_of(to)),
            final(self)@ == (State {
                last_status: mode_line_of(to),
                ..old(self)@.entered(from, to, clock)
            }),
    {
        if from == Mode::Palm {
            self.palm.anchor = None;
        }
        match to {
            Mode::Cursor => {
                self.cursor = None;
            },
            Mode::Scroll => {
                self.scroll.entered = Some(clock);
            },
            Mode::Palm => {
                self.palm.since = Some(clock);
                self.history.clear();
            },
            Mode::Idle => {},
        }
        self.status(mode_line(to))
    }

    /// Takes in a frame without a usable hand. Returns whether to tell the user
    /// that the mode is idle now.
    pub fn on_hand_lost(&mut self) -> (announce: bool)
        requires
            old(self).wf(),
        ensures
            final(self).wf(),
            final(self)@ == old(self)@.lost(),
            announce == old(self)@.lost_announces(),
    {
        self.cursor = None;
        self.history.clear();
        self.palm.lose();
        self.scroll.rest();
        self.fist.lose();
        self.finger_up = [false, false, false, false, false];
        let from = self.modes.mode;
        self.modes = ModeState { mode: Mode::Idle, candidate: None, frames: 0 };
        assert(self.finger_up@ =~= seq![false, false, false, false, false]);
        if from == Mode::Idle {
            false
        } else {
            self.enter(from, Mode::Idle, 0)
        }
    }

    /// Decides what becomes of the hands of a frame. `spans` holds the span of each
    /// hand.
    pub fn route(&self, hands: &Vec<Hand>, spans: &Vec<Scalar>) -> (route: Route)
        requires
            spans@.len() == hands@.len(),
        ensures
            route == self@.route(hands@, spans@),
            route matches Route::Process(i) ==> i < hands@.len() && hands@[i as int].full(),
    {
        if self.claps.is_waiting() {
            return Route::Suspended;
        }
        match primary_hand(hands, spans) {
            Some(i) => Route::Process(i),
            None => Route::Lost,
        }
    }

    /// Takes in an utterance, given whether it holds the command. Returns what to do
    /// first; `resume_voice` goes on from there.
    pub fn hear(&mut self, matched: bool, now: u64) -> (step: VoiceStep)
        requires
            old(self).wf(),
        ensures
            final(self).wf(),
            (final(self)@, step) == old(self)@.heard(matched, now),
    {
        match self.voice.decide(matched, now) {
            VoiceVerdict::Cooling => VoiceStep::Cooling,
            VoiceVerdict::Unmatched => VoiceStep::Unmatched,
            VoiceVerdict::ShutDown => VoiceStep::Countdown,
        }
    }

    /// Takes in an utterance; partial and final ones count alike. Returns what to do
    /// first; `resume_voice` goes on from there.
    pub fn handle_voice_event(&mut self, event: &VoiceEvent, now: u64) -> (step: VoiceStep)
        requires
            old(self).wf(),
        ensures
            final(self).wf(),
            (final(self)@, step) == old(self)@.heard(holds_command(event.text@), now),
    {
        if self.voice.is_cooling(now) {
            return VoiceStep::Cooling;
        }
        let matched = match_voice_command(event.text.as_str());
        self.hear(matched, now)
    }

    /// Goes on with an utterance: `step` is what was to be done, `clock` the time of
    /// the answer.
    pub fn resume_voice(&mut self, step: VoiceStep, answer: ShutdownAnswer, clock: u64) -> (next:
        VoiceStep)
        requires
            old(self).wf(),
        ensures
            final(self).wf(),
            (final(self)@, next) == old(self)@.spoken(step, answer, clock),
    {
        match (step, answer) {
            (VoiceStep::Countdown, ShutdownAnswer::Performed) => {
                self.claps.reset_shutdown_state(clock);
                VoiceStep::PowerOff
            },
            _ => VoiceStep::Done,
        }
    }

    /// Takes in a frame. Returns what to do first; `resume` goes on from there.
    pub fn process(&mut self, r: HandReading, now: u64) -> (step: FrameStep)
        requires
            old(self).wf(),
        ensures
            final(self).wf(),
            (final(self)@, step) == old(self)@.frame(r, now),
    {
        if r.span.lt(threshold(MIN_HAND_SPAN)) {
            return FrameStep::Done;
        }
        let rested = self.pinch.is_rested(now);
        update_fingers(&mut self.finger_up, &r.angles, &r.ratios);
        let fist = is_raised_fist(self.finger_up, r.wrist_y);
        remember(&mut self.history, Sample { t: now, p: r.centroid });
        let task = FrameTask {
            reading: r,
            now,
            fist,
            rested,
            stretch: velocity_stretch(&self.history),
            stage: FrameStage::CloseTab,
        };
        if self.fist.watch(fist, is_opened(self.finger_up), now) {
            return FrameStep::CloseTab(task);
        }
        self.watch_pinches(task, now)
    }

    fn watch_pinches(&mut self, task: FrameTask, clock: u64) -> (step: FrameStep)
        requires
            old(self).wf(),
        ensures
            final(self).wf(),
            (final(self)@, step) == old(self)@.pinch_part(task, clock),
    {
        if task.fist {
            self.select_mode(task, clock)
        } else {
            self.watch_left(task, clock)
        }
    }

    fn watch_left(&mut self, task: FrameTask, clock: u64) -> (step: FrameStep)
        requires
            old(self).wf(),
        ensures
            final(self).wf(),
            (final(self)@, step) == old(self)@.left_part(task, clock),
    {
        let r = task.reading.pinch_reading(PinchButton::Left);
        if self.pinch.watch(PinchButton::Left, task.rested, r) {
            FrameStep::Click(
                PinchButton::Left,
                task.advance(FrameStage::Click(PinchButton::Left)),
            )
        } else {
            self.watch_right(task, clock)
        }
    }

    fn watch_right(&mut self, task: FrameTask, clock: u64) -> (step: FrameStep)
        requires
            old(self).wf(),
        ensures
            final(self).wf(),
            (final(self)@, step) == old(self)@.right_part(task, clock),
    {
        let r = task.reading.pinch_reading(PinchButton::Right);
        if self.pinch.watch(PinchButton::Right, task.rested, r) {
            FrameStep::Click(
                PinchButton::Right,
                task.advance(FrameStage::Click(PinchButton::Right)),
            )
        } else {
            self.select_mode(task, clock)
        }
    }

    fn select_mode(&mut self, task: FrameTask, clock: u64) -> (step: FrameStep)
        requires
            old(self).wf(),
        ensures
            final(self).wf(),
            (final(self)@, step) == old(self)@.pose_part(task, clock),
    {
        let seen = classify_mode(self.finger_up, task.fist, self.fist.fired);
        let from = self.modes.mode;
        if self.modes.observe(seen) {
            if self.enter(from, seen, clock) {
                return FrameStep::Announce(seen, task.advance(FrameStage::Announce));
            }
        }
        self.act_in_mode(task)
    }

    fn act_in_mode(&mut self, task: FrameTask) -> (step: FrameStep)
        requires
            old(self).wf(),
        ensures
            final(self).wf(),
            (final(self)@, step) == old(self)@.mode_part(task),
    {
        match self.modes.mode {
            Mode::Scroll => self.handle_scroll(task),
            Mode::Cursor => self.move_cursor(task),
            Mode::Palm => self.handle_palm(task),
            Mode::Idle => {
                self.scroll.rest();
                self.palm.anchor = None;
                FrameStep::Done
            },
        }
    }

    fn handle_scroll(&mut self, task: FrameTask) -> (step: FrameStep)
        requires
            old(self).wf(),
        ensures
            final(self).wf(),
            (final(self)@, step) == old(self)@.scroll_part(task),
    {
        let y = task.reading.tips_y;
        let settling = self.scroll.is_settling(task.now);
        let last_y = self.scroll.last_y;
        self.scroll.last_y = Some(y);
        if settling {
            return FrameStep::Done;
        }
        match last_y {
            Some(from_y) => FrameStep::SumTravel {
                travel: self.scroll.travel,
                from_y,
                to_y: y,
                task: task.advance(FrameStage::SumTravel),
            },
            None => self.turn_wheel(task, 0),
        }
    }

    fn turn_wheel(&self, task: FrameTask, ticks: u32) -> (step: FrameStep)
        ensures
            (self@, step) == self@.wheel_part(task, ticks),
    {
        let travel = self.scroll.travel;
        match scroll_tick(travel, ticks) {
            Some(direction) => FrameStep::Wheel {
                direction,
                travel,
                task: task.advance(FrameStage::Wheel(ticks)),
            },
            None => FrameStep::Done,
        }
    }

    fn move_cursor(&mut self, task: FrameTask) -> (step: FrameStep)
        requires
            old(self).wf(),
        ensures
            final(self).wf(),
            (final(self)@, step) == old(self)@.cursor_part(task),
    {
        let to = task.reading.target;
        match self.cursor {
            None => self.put_cursor(task, to),
            Some(from) => FrameStep::Blend {
                from,
                to,
                task: task.advance(FrameStage::Blend(from)),
            },
        }
    }

    fn put_cursor(&mut self, task: FrameTask, to: Point) -> (step: FrameStep)
        requires
            old(self).wf(),
        ensures
            final(self).wf(),
            (final(self)@, step) == old(self)@.moved(task, to),
    {
        self.cursor = Some(to);
        FrameStep::MoveCursor { to, task: task.advance(FrameStage::MoveCursor) }
    }

    fn handle_palm(&mut self, task: FrameTask) -> (step: FrameStep)
        requires
            old(self).wf(),
        ensures
            final(self).wf(),
            (final(self)@, step) == old(self)@.palm_part(task),
    {
        let pos = task.reading.centroid;
        if self.palm.is_settling(task.now) {
            self.palm.anchor = Some(pos);
            return FrameStep::Done;
        }
        FrameStep::MeasurePalm {
            stretch: task.stretch,
            anchor: self.palm.anchor,
            pos,
            task: task.advance(FrameStage::MeasurePalm),
        }
    }

    fn follow_swipe(&mut self, task: FrameTask, m: PalmMotion) -> (step: FrameStep)
        requires
            old(self).wf(),
        ensures
            final(self).wf(),
            (final(self)@, step) == old(self)@.swipe_part(task, m),
    {
        match self.palm.track(m, task.reading.centroid, task.now) {
            Some(d) => FrameStep::SwitchWorkspace(
                d,
                task.advance(FrameStage::SwitchWorkspace(m)),
            ),
            None => self.follow_flip(task, m),
        }
    }

    fn follow_flip(&mut self, task: FrameTask, m: PalmMotion) -> (step: FrameStep)
        requires
            old(self).wf(),
        ensures
            final(self).wf(),
            (final(self)@, step) == old(self)@.flip_part(task, m),
    {
        match self.palm.watch_flip(m, task.now) {
            Some(up) => FrameStep::StepVolume(up, task.advance(FrameStage::StepVolume)),
            None => FrameStep::Done,
        }
    }

    /// Goes on with a frame. `clock` is the time of the answer.
    pub fn resume(&mut self, task: FrameTask, answer: FrameAnswer, clock: u64) -> (step: FrameStep)
        requires
            old(self).wf(),
        ensures
            final(self).wf(),
            (final(self)@, step) == old(self)@.next(task, answer, clock),
    {
        match (task.stage, answer) {
            (FrameStage::CloseTab, FrameAnswer::Performed) => {
                self.fist.act(task.now);
                self.watch_pinches(task, clock)
            },
            (FrameStage::Click(PinchButton::Left), FrameAnswer::Performed) => {
                self.pinch.click(PinchButton::Left, task.now);
                self.watch_right(task, clock)
            },
            (FrameStage::Click(PinchButton::Right), FrameAnswer::Performed) => {
                self.pinch.click(PinchButton::Right, task.now);
                self.select_mode(task, clock)
            },
            (FrameStage::Announce, FrameAnswer::Performed) => self.act_in_mode(task),
            (FrameStage::SumTravel, FrameAnswer::Number(travel)) => {
                self.scroll.travel = travel;
                self.turn_wheel(task, 0)
            },
            (FrameStage::Wheel(ticks), FrameAnswer::Number(travel)) => {
                if ticks < SCROLL_MAX_TICKS {
                    self.scroll.travel = travel;
                    self.turn_wheel(task, ticks + 1)
                } else {
                    FrameStep::Done
                }
            },
            (FrameStage::Blend(from), FrameAnswer::Blend(blend)) => {
                self.put_cursor(task, steady(from, blend))
            },
            (FrameStage::MeasurePalm, FrameAnswer::Motion(m)) => self.follow_swipe(task, m),
            (FrameStage::SwitchWorkspace(m), FrameAnswer::Performed) => {
                self.palm.switch(task.reading.centroid, task.now);
                self.follow_flip(task, m)
            },
            (FrameStage::StepVolume, FrameAnswer::Performed) => {
                self.palm.flip(task.now);
                self.history.clear();
                FrameStep::Done
            },
            _ => FrameStep::Done,
        }
    }
}

} // verus!
