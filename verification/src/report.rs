//! What becomes of a step: an action, a line for the user, or nothing. In a dry run
//! gestures are recognised and told, and nothing is acted upon.
use vstd::prelude::*;

use crate::controller::{mode_line, mode_line_of, FrameStep, VoiceStep};
use crate::hand::Point;
use crate::input::{button_of, pinch_mouse_button, MouseButton};
use crate::palm::SwipeDirection;
use crate::pinch::PinchButton;
use crate::scroll::ScrollDirection;
use crate::shutdown::ShutdownStep;

verus! {

/// The line that stands for an action in a dry run. Moving the cursor has none,
/// and computing is no action.
pub open spec fn gesture_line_of(step: FrameStep) -> Option<Seq<char>> {
    match step {
        FrameStep::CloseTab(_) => Some("[GESTURE] close tab"@),
        FrameStep::Click(PinchButton::Left, _) => Some("[GESTURE] left click"@),
        FrameStep::Click(PinchButton::Right, _) => Some("[GESTURE] right click"@),
        FrameStep::Wheel { direction: ScrollDirection::Down, .. } => Some(
            "[GESTURE] scroll down"@,
        ),
        FrameStep::Wheel { direction: ScrollDirection::Up, .. } => Some("[GESTURE] scroll up"@),
        FrameStep::SwitchWorkspace(SwipeDirection::Left, _) => Some(
            "[GESTURE] switch workspace left"@,
        ),
        FrameStep::SwitchWorkspace(SwipeDirection::Right, _) => Some(
            "[GESTURE] switch workspace right"@,
        ),
        FrameStep::StepVolume(true, _) => Some("[GESTURE] volume up"@),
        FrameStep::StepVolume(false, _) => Some("[GESTURE] volume down"@),
        _ => None,
    }
}

/// The line that stands for an action in a dry run.
pub fn gesture_line(step: &FrameStep) -> (line: Option<&'static str>)
    ensures
        match line {
            Some(text) => gesture_line_of(*step) == Some(text@),
            None => gesture_line_of(*step) is None,
        },
{
    match step {
        FrameStep::CloseTab(_) => Some("[GESTURE] close tab"),
        FrameStep::Click(button, _) => match button {
            PinchButton::Left => Some("[GESTURE] left click"),
            PinchButton::Right => Some("[GESTURE] right click"),
        },
        FrameStep::Wheel { direction, .. } => match direction {
            ScrollDirection::Down => Some("[GESTURE] scroll down"),
            ScrollDirection::Up => Some("[GESTURE] scroll up"),
        },
        FrameStep::SwitchWorkspace(direction, _) => match direction {
            SwipeDirection::Left => Some("[GESTURE] switch workspace left"),
            SwipeDirection::Right => Some("[GESTURE] switch workspace right"),
        },
        FrameStep::StepVolume(up, _) => if *up {
            Some("[GESTURE] volume up")
        } else {
            Some("[GESTURE] volume down")
        },
        _ => None,
    }
}

/// Something to do to the desktop.
#[derive(Clone, Copy, Debug)]
pub enum Action {
    CloseTab,
    Click(MouseButton),
    Scroll(ScrollDirection),
    MoveCursor(Point),
    SwitchWorkspace(SwipeDirection),
    /// True is up.
    StepVolume(bool),
}

/// What a step asks to do to the desktop. Computing and telling the user is not it.
pub open spec fn action_of(step: FrameStep) -> Option<Action> {
    match step {
        FrameStep::CloseTab(_) => Some(Action::CloseTab),
        FrameStep::Click(button, _) => Some(Action::Click(button_of(button))),
        FrameStep::Wheel { direction, .. } => Some(Action::Scroll(direction)),
        FrameStep::MoveCursor { to, .. } => Some(Action::MoveCursor(to)),
        FrameStep::SwitchWorkspace(direction, _) => Some(Action::SwitchWorkspace(direction)),
        FrameStep::StepVolume(up, _) => Some(Action::StepVolume(up)),
        _ => None,
    }
}

/// What a step asks to do to the desktop.
pub fn step_action(step: &FrameStep) -> (action: Option<Action>)
    ensures
        action == action_of(*step),
{
    match step {
        FrameStep::CloseTab(_) => Some(Action::CloseTab),
        FrameStep::Click(button, _) => Some(Action::Click(pinch_mouse_button(*button))),
        FrameStep::Wheel { direction, .. } => Some(Action::Scroll(*direction)),
        FrameStep::MoveCursor { to, .. } => Some(Action::MoveCursor(*to)),
        FrameStep::SwitchWorkspace(direction, _) => Some(Action::SwitchWorkspace(*direction)),
        FrameStep::StepVolume(up, _) => Some(Action::StepVolume(*up)),
        _ => None,
    }
}

/// What becomes of a step.
pub enum Effect {
    /// Nothing that anyone sees.
    Nothing,
    /// Tell the user.
    Say(String),
    /// Do it.
    Act(Action),
}

/// What becomes of a step, by the characters of what is told.
pub enum EffectView {
    Nothing,
    Say(Seq<char>),
    Act(Action),
}

impl View for Effect {
    type V = EffectView;

    open spec fn view(&self) -> EffectView {
        match self {
            Effect::Nothing => EffectView::Nothing,
            Effect::Say(line) => EffectView::Say(line@),
            Effect::Act(action) => EffectView::Act(*action),
        }
    }
}

/// What becomes of a step: a new mode is always told; an action is done, or in a dry
/// run told instead, as far as it has a line.
pub open spec fn effect_of(step: FrameStep, dry_run: bool) -> EffectView {
    match (step, action_of(step)) {
        (FrameStep::Announce(mode, _), _) => EffectView::Say(mode_line_of(mode)),
        (_, None) => EffectView::Nothing,
        (_, Some(action)) => if !dry_run {
            EffectView::Act(action)
        } else {
            match gesture_line_of(step) {
                Some(line) => EffectView::Say(line),
                None => EffectView::Nothing,
            }
        },
    }
}

/// What becomes of a step.
pub fn effect(step: &FrameStep, dry_run: bool) -> (result: Effect)
    ensures
        result@ == effect_of(*step, dry_run),
{
    if let FrameStep::Announce(mode, _) = step {
        return Effect::Say(mode_line(*mode));
    }
    match step_action(step) {
        None => Effect::Nothing,
        Some(action) => {
            if !dry_run {
                return Effect::Act(action);
            }
            match gesture_line(step) {
                Some(line) => Effect::Say(line.to_owned()),
                None => Effect::Nothing,
            }
        },
    }
}

/// What becomes of a step toward powering off.
#[derive(Clone, Copy, Debug, PartialEq, Eq, Structural)]
pub enum ShutdownEffect {
    Nothing,
    /// Tell the user that the machine would be powered off now.
    Report,
    /// Warn the user, and wait.
    CountDown,
    PowerOff,
}

/// What becomes of a countdown.
pub open spec fn countdown_effect(dry_run: bool) -> ShutdownEffect {
    if dry_run {
        ShutdownEffect::Report
    } else {
        ShutdownEffect::CountDown
    }
}

/// What becomes of powering off.
pub open spec fn power_off_effect(dry_run: bool) -> ShutdownEffect {
    if dry_run {
        ShutdownEffect::Nothing
    } else {
        ShutdownEffect::PowerOff
    }
}

/// What becomes of a step of the shutdown gesture. A dry run neither waits nor powers
/// off.
pub open spec fn shutdown_effect_of(step: ShutdownStep, dry_run: bool) -> ShutdownEffect {
    match step {
        ShutdownStep::Countdown(_) => countdown_effect(dry_run),
        ShutdownStep::PowerOff(_) => power_off_effect(dry_run),
        _ => ShutdownEffect::Nothing,
    }
}

/// What becomes of a step of the shutdown gesture.
pub fn shutdown_effect(step: &ShutdownStep, dry_run: bool) -> (effect: ShutdownEffect)
    ensures
        effect == shutdown_effect_of(*step, dry_run),
{
    match step {
        ShutdownStep::Countdown(_) => if dry_run {
            ShutdownEffect::Report
        } else {
            ShutdownEffect::CountDown
        },
        ShutdownStep::PowerOff(_) => if dry_run {
            ShutdownEffect::Nothing
        } else {
            ShutdownEffect::PowerOff
        },
        _ => ShutdownEffect::Nothing,
    }
}

/// What becomes of a step of a spoken shutdown. A dry run neither waits nor powers
/// off.
pub open spec fn voice_effect_of(step: VoiceStep, dry_run: bool) -> ShutdownEffect {
    match step {
        VoiceStep::Countdown => countdown_effect(dry_run),
        VoiceStep::PowerOff => power_off_effect(dry_run),
        _ => ShutdownEffect::Nothing,
    }
}

/// What becomes of a step of a spoken shutdown.
pub fn voice_effect(step: VoiceStep, dry_run: bool) -> (effect: ShutdownEffect)
    ensures
        effect == voice_effect_of(step, dry_run),
{
    match step {
        VoiceStep::Countdown => if dry_run {
            ShutdownEffect::Report
        } else {
            ShutdownEffect::CountDown
        },
        VoiceStep::PowerOff => if dry_run {
            ShutdownEffect::Nothing
        } else {
            ShutdownEffect::PowerOff
        },
        _ => ShutdownEffect::Nothing,
    }
}

/// A dry run never acts: no step of a frame does anything to the desktop, and no
/// shutdown waits or powers off. Without a dry run every action is done.
pub proof fn law_dry_run_never_acts(step: FrameStep, gesture: ShutdownStep, spoken: VoiceStep)
    ensures
        !(effect_of(step, true) is Act),
        shutdown_effect_of(gesture, true) is Nothing || shutdown_effect_of(gesture, true)
            is Report,
        voice_effect_of(spoken, true) is Nothing || voice_effect_of(spoken, true) is Report,
        action_of(step) matches Some(action) ==> effect_of(step, false) == EffectView::Act(action),
{
}

/// A dry run tells every gesture: each action but a move of the cursor becomes a line,
/// and so does each shutdown.
pub proof fn law_dry_run_tells_gestures(step: FrameStep, gesture: ShutdownStep, spoken: VoiceStep)
    ensures
        action_of(step) is Some && !(step is MoveCursor) ==> gesture_line_of(step) is Some
            && effect_of(step, true) == EffectView::Say(gesture_line_of(step)->0),
        step is MoveCursor ==> effect_of(step, true) == EffectView::Nothing,
        gesture is Countdown ==> shutdown_effect_of(gesture, true) is Report,
        spoken is Countdown ==> voice_effect_of(spoken, true) is Report,
{
}

/// Every step that acts asks for what it is about: a click for its button, a turn of the
/// wheel, a switch and a volume step for their directions, a move for its point.
pub proof fn law_actions_are_what_steps_say(step: FrameStep)
    ensures
        action_of(step) == Some(Action::CloseTab) <==> step is CloseTab,
        step matches FrameStep::Click(button, _) ==> action_of(step) == Some(
            Action::Click(
                if button == PinchButton::Left {
                    MouseButton::Left
                } else {
                    MouseButton::Right
                },
            ),
        ),
        step matches FrameStep::Wheel { direction, .. } ==> action_of(step) == Some(
            Action::Scroll(direction),
        ),
        step matches FrameStep::MoveCursor { to, .. } ==> action_of(step) == Some(
            Action::MoveCursor(to),
        ),
        step matches FrameStep::SwitchWorkspace(direction, _) ==> action_of(step) == Some(
            Action::SwitchWorkspace(direction),
        ),
        step matches FrameStep::StepVolume(up, _) ==> action_of(step) == Some(
            Action::StepVolume(up),
        ),
        action_of(step) is None <==> step is Done || step is Announce || step is SumTravel || step
            is Blend || step is MeasurePalm,
{
}

/// The line of a gesture names it and its direction.
pub proof fn law_lines_name_gestures(step: FrameStep)
    ensures
        step is CloseTab ==> gesture_line_of(step) == Some("[GESTURE] close tab"@),
        step matches FrameStep::Click(b, _) ==> gesture_line_of(step) == Some(
            if b == PinchButton::Left {
                "[GESTURE] left click"@
            } else {
                "[GESTURE] right click"@
            },
        ),
        step matches FrameStep::Wheel { direction, .. } ==> gesture_line_of(step) == Some(
            if direction == ScrollDirection::Down {
                "[GESTURE] scroll down"@
            } else {
                "[GESTURE] scroll up"@
            },
        ),
        step matches FrameStep::SwitchWorkspace(direction, _) ==> gesture_line_of(step) == Some(
            if direction == SwipeDirection::Left {
                "[GESTURE] switch workspace left"@
            } else {
                "[GESTURE] switch workspace right"@
            },
        ),
        step matches FrameStep::StepVolume(up, _) ==> gesture_line_of(step) == Some(
            if up {
                "[GESTURE] volume up"@
            } else {
                "[GESTURE] volume down"@
            },
        ),
        step is Announce || step is MoveCursor || step is Blend || step is SumTravel || step
            is MeasurePalm || step is Done ==> gesture_line_of(step) is None,
{
}

/// A new mode is told in a dry run as well, computing is never told, and without a dry
/// run a shutdown is counted down and then carried out.
pub proof fn law_effects_without_a_dry_run(
    step: FrameStep,
    gesture: ShutdownStep,
    spoken: VoiceStep,
    dry_run: bool,
)
    ensures
        step matches FrameStep::Announce(mode, _) ==> effect_of(step, dry_run) == EffectView::Say(
            "[MODE] "@ + mode.name(),
        ),
        step is Done || step is SumTravel || step is Blend || step is MeasurePalm ==> effect_of(
            step,
            dry_run,
        ) == EffectView::Nothing,
        shutdown_effect_of(gesture, false) is CountDown <==> gesture is Countdown,
        shutdown_effect_of(gesture, false) is PowerOff <==> gesture is PowerOff,
        !(gesture is Countdown) && !(gesture is PowerOff) ==> shutdown_effect_of(gesture, dry_run)
            is Nothing,
        gesture is PowerOff ==> shutdown_effect_of(gesture, true) is Nothing,
        spoken is PowerOff ==> voice_effect_of(spoken, true) is Nothing,
        voice_effect_of(spoken, false) is CountDown <==> spoken is Countdown,
        voice_effect_of(spoken, false) is PowerOff <==> spoken is PowerOff,
        !(spoken is Countdown) && !(spoken is PowerOff) ==> voice_effect_of(spoken, dry_run)
            is Nothing,
{
}

} // verus!
