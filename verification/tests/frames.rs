use air_mouse::controller::{
    mode_line, Controller, FrameAnswer, FrameStep, HandReading, Route,
};
use air_mouse::cursor::{screen_share, CursorBlend};
use air_mouse::hand::{Hand, Landmark, Point};
use air_mouse::mode::Mode;
use air_mouse::palm::{swipe_step, PalmMotion, PalmState, SwipeOutcome};
use air_mouse::input::MouseButton;
use air_mouse::report::{
    effect, gesture_line, shutdown_effect, Action, Effect, ShutdownEffect,
};
use air_mouse::scalar::Scalar;
use air_mouse::settings::{DOMINANCE, SCROLL_TICK, SWIPE_REANCHOR};
use air_mouse::shutdown::{ShutdownAnswer, ShutdownStep};

const MS: u64 = 1_000_000;

fn s(x: f32) -> Scalar {
    Scalar { bits: x.to_bits() }
}

fn v(x: Scalar) -> f32 {
    f32::from_bits(x.bits)
}

fn point(x: f32, y: f32) -> Point {
    Point { x: s(x), y: s(y) }
}

/// A hand with these fingers up (thumb first), resting low and not pinching.
fn hand(up: [bool; 5]) -> HandReading {
    let pick = |hi: f32, lo: f32| up.map(|u| s(if u { hi } else { lo }));
    HandReading {
        span: s(0.4),
        wrist_y: s(0.8),
        angles: pick(175.0, 80.0),
        ratios: pick(0.9, 0.3),
        left_gap: s(0.3),
        right_gap: s(0.3),
        close_reach: s(0.07),
        open_reach: s(0.09),
        centroid: point(0.5, 0.5),
        tips_y: s(0.5),
        target: point(100.0, 200.0),
    }
}

const FIST: [bool; 5] = [false; 5];
const POINTING: [bool; 5] = [false, true, false, false, false];
const TWO: [bool; 5] = [false, true, true, false, false];
const OPEN: [bool; 5] = [true; 5];

fn raised_fist() -> HandReading {
    HandReading { wrist_y: s(0.4), ..hand(FIST) }
}

/// Runs frames, doing the arithmetic and writing down the actions.
struct Run {
    c: Controller,
    log: Vec<String>,
    refuse: Vec<&'static str>,
}

impl Run {
    fn new() -> Run {
        Run { c: Controller::new(0), log: vec![], refuse: vec![] }
    }

    fn act(&mut self, text: &str) -> FrameAnswer {
        self.log.push(text.to_string());
        if self.refuse.iter().any(|r| *r == text) {
            FrameAnswer::Failed
        } else {
            FrameAnswer::Performed
        }
    }

    fn frame(&mut self, r: HandReading, now: u64) {
        let mut step = self.c.process(r, now);
        for _ in 0..20 {
            let line = gesture_line(&step);
            let (answer, task) = match step {
                FrameStep::Done => return,
                FrameStep::CloseTab(t) => (self.act(line.unwrap()), t),
                FrameStep::Click(_, t) => (self.act(line.unwrap()), t),
                FrameStep::SwitchWorkspace(_, t) => (self.act(line.unwrap()), t),
                FrameStep::StepVolume(_, t) => (self.act(line.unwrap()), t),
                FrameStep::Announce(m, t) => (self.act(&mode_line(m)), t),
                FrameStep::MoveCursor { to, task } => {
                    assert_eq!(line, None);
                    (self.act(&format!("move {} {}", v(to.x), v(to.y))), task)
                }
                FrameStep::SumTravel { travel, from_y, to_y, task } => {
                    (FrameAnswer::Number(s(v(travel) + (v(to_y) - v(from_y)))), task)
                }
                FrameStep::Wheel { travel, task, .. } => {
                    let t = v(travel);
                    let rest = t - f32::from_bits(SCROLL_TICK) * t.signum();
                    match self.act(line.unwrap()) {
                        FrameAnswer::Performed => (FrameAnswer::Number(s(rest)), task),
                        other => (other, task),
                    }
                }
                FrameStep::Blend { from, to, task } => {
                    let (dx, dy) = (v(to.x) - v(from.x), v(to.y) - v(from.y));
                    let blended = point(v(from.x) + dx / 2.0, v(from.y) + dy / 2.0);
                    let gap = s((dx * dx + dy * dy).sqrt());
                    (FrameAnswer::Blend(CursorBlend { gap, blended }), task)
                }
                FrameStep::MeasurePalm { stretch, anchor, pos, task } => {
                    let (vx, vy) = match stretch {
                        None => (0.0, 0.0),
                        Some((a, b)) => {
                            let dt = (b.t - a.t) as f32 / 1.0e9;
                            ((v(b.p.x) - v(a.p.x)) / dt, (v(b.p.y) - v(a.p.y)) / dt)
                        }
                    };
                    let a = anchor.unwrap_or(pos);
                    let lead = f32::from_bits(DOMINANCE);
                    let ease = f32::from_bits(SWIPE_REANCHOR);
                    let m = PalmMotion {
                        vx: s(vx),
                        vy: s(vy),
                        lead_x: s(lead * vx.abs()),
                        lead_y: s(lead * vy.abs()),
                        dx: s(v(pos.x) - v(a.x)),
                        eased: point(
                            v(a.x) + ease * (v(pos.x) - v(a.x)),
                            v(a.y) + ease * (v(pos.y) - v(a.y)),
                        ),
                    };
                    (FrameAnswer::Motion(m), task)
                }
            };
            step = self.c.resume(task, answer, now);
        }
        panic!("the frame did not end");
    }

    fn take(&mut self) -> Vec<String> {
        std::mem::take(&mut self.log)
    }
}

#[test]
fn held_raised_fist_closes_one_tab() {
    let mut run = Run::new();
    let start = 1000 * MS;
    for i in 0..4 {
        run.frame(raised_fist(), start + i * 100 * MS);
    }
    assert!(run.take().is_empty());
    run.frame(raised_fist(), start + 400 * MS);
    assert_eq!(run.take(), vec!["[GESTURE] close tab"]);
    // Still held: nothing more.
    for i in 5..30 {
        run.frame(raised_fist(), start + i * 100 * MS);
    }
    assert!(run.take().is_empty());
    // Opened and closed again: one more.
    run.frame(hand(OPEN), start + 3000 * MS);
    assert!(!run.c.fist.fired);
    run.frame(raised_fist(), start + 3100 * MS);
    run.frame(raised_fist(), start + 3500 * MS);
    assert_eq!(run.take(), vec!["[GESTURE] close tab"]);
}

#[test]
fn lowered_fist_closes_no_second_tab() {
    let mut run = Run::new();
    run.frame(raised_fist(), 1000 * MS);
    run.frame(raised_fist(), 1400 * MS);
    assert_eq!(run.take(), vec!["[GESTURE] close tab"]);
    // Lowered, lost and raised again, but never opened.
    run.frame(hand(FIST), 2000 * MS);
    run.frame(raised_fist(), 3000 * MS);
    run.frame(raised_fist(), 3400 * MS);
    run.c.on_hand_lost();
    run.frame(raised_fist(), 5000 * MS);
    run.frame(raised_fist(), 5400 * MS);
    assert!(run.take().is_empty());
    assert!(run.c.fist.fired);
    // The thumb alone does not open the hand; one finger does.
    run.frame(hand([true, false, false, false, false]), 6000 * MS);
    assert!(run.c.fist.fired);
    run.frame(hand([false, false, false, false, true]), 6100 * MS);
    assert!(!run.c.fist.fired);
    run.frame(raised_fist(), 6200 * MS);
    run.frame(raised_fist(), 6600 * MS);
    assert_eq!(run.take(), vec!["[GESTURE] close tab"]);
}

#[test]
fn interrupted_or_low_fist_closes_nothing() {
    let mut run = Run::new();
    run.frame(raised_fist(), 1000 * MS);
    run.frame(hand(FIST), 1300 * MS); // lowered
    run.frame(raised_fist(), 1400 * MS);
    run.frame(raised_fist(), 1700 * MS);
    run.c.on_hand_lost();
    run.frame(raised_fist(), 1900 * MS);
    run.frame(raised_fist(), 2200 * MS);
    for i in 0..20 {
        run.frame(hand(FIST), (3000 + i * 100) * MS);
    }
    assert!(run.take().is_empty());
}

#[test]
fn failed_close_is_tried_again() {
    let mut run = Run::new();
    run.refuse = vec!["[GESTURE] close tab"];
    run.frame(raised_fist(), 1000 * MS);
    run.frame(raised_fist(), 1400 * MS);
    assert!(!run.c.fist.fired);
    run.refuse.clear();
    run.frame(raised_fist(), 1500 * MS);
    assert!(run.c.fist.fired);
    assert_eq!(run.take(), vec!["[GESTURE] close tab", "[GESTURE] close tab"]);
}

#[test]
fn fist_just_acted_upon_stays_idle() {
    let mut run = Run::new();
    run.frame(raised_fist(), 1000 * MS);
    run.frame(raised_fist(), 1400 * MS);
    run.take();
    for i in 0..4 {
        run.frame(hand(POINTING), (1500 + i * 100) * MS);
    }
    assert_eq!(run.c.modes.mode, Mode::Idle);
    assert!(run.take().is_empty());
    // More than the re-arm time later the hand counts again.
    for i in 0..3 {
        run.frame(hand(POINTING), (1900 + i * 100) * MS);
    }
    assert_eq!(run.c.modes.mode, Mode::Cursor);
}

fn pinching(left: f32, right: f32) -> HandReading {
    HandReading { left_gap: s(left), right_gap: s(right), ..hand(OPEN) }
}

#[test]
fn pinch_clicks_once_until_released() {
    let mut run = Run::new();
    run.frame(pinching(0.02, 0.3), 1000 * MS);
    assert_eq!(run.take(), vec!["[GESTURE] left click"]);
    run.frame(pinching(0.02, 0.3), 1500 * MS);
    run.frame(pinching(0.08, 0.3), 1600 * MS); // between the thresholds
    run.frame(pinching(0.02, 0.3), 1700 * MS);
    assert!(!run.c.pinch.left_armed);
    run.frame(pinching(0.2, 0.3), 1800 * MS);
    assert!(run.c.pinch.left_armed);
    run.frame(pinching(0.06, 0.3), 1900 * MS);
    let clicks: Vec<String> = run.take().into_iter().filter(|l| l.contains("click")).collect();
    assert_eq!(clicks, vec!["[GESTURE] left click"]);
}

#[test]
fn click_cooldown_and_folded_finger() {
    let mut run = Run::new();
    // Too soon after the start.
    run.frame(pinching(0.02, 0.3), 180 * MS);
    assert!(run.take().is_empty());
    run.frame(pinching(0.02, 0.3), 181 * MS);
    assert_eq!(run.take(), vec!["[GESTURE] left click"]);
    // The other button shares the cooldown.
    run.frame(pinching(0.3, 0.02), 361 * MS);
    assert!(!run.take().iter().any(|l| l.contains("click")));
    let mut folded = pinching(0.3, 0.02);
    folded.angles[2] = s(90.0);
    run.frame(folded, 1000 * MS);
    assert!(!run.take().iter().any(|l| l.contains("click")));
    run.frame(pinching(0.3, 0.02), 1100 * MS);
    assert!(run.take().contains(&"[GESTURE] right click".to_string()));
}

#[test]
fn both_pinches_click_in_one_frame() {
    let mut run = Run::new();
    run.frame(pinching(0.02, 0.02), 1000 * MS);
    assert_eq!(run.take(), vec!["[GESTURE] left click", "[GESTURE] right click"]);
    assert_eq!(run.c.pinch.last_click, 1000 * MS);
}

#[test]
fn failed_click_ends_the_frame() {
    let mut run = Run::new();
    run.refuse = vec!["[GESTURE] left click"];
    run.frame(pinching(0.02, 0.02), 1000 * MS);
    assert_eq!(run.take(), vec!["[GESTURE] left click"]);
    assert!(run.c.pinch.left_armed && run.c.pinch.right_armed);
    assert_eq!(run.c.pinch.last_click, 0);
    assert_eq!(run.c.modes.candidate, None);
}

#[test]
fn mode_needs_three_frames_in_a_row() {
    let mut run = Run::new();
    run.frame(hand(POINTING), 1000 * MS);
    run.frame(hand(POINTING), 1030 * MS);
    assert_eq!(run.c.modes.mode, Mode::Idle);
    run.frame(hand(FIST), 1060 * MS);
    run.frame(hand(POINTING), 1090 * MS);
    run.frame(hand(POINTING), 1120 * MS);
    assert!(run.take().is_empty());
    run.frame(hand(POINTING), 1150 * MS);
    assert_eq!(run.take(), vec!["[MODE] cursor", "move 100 200"]);
    // Losing the hand is immediate, and announced once.
    assert!(run.c.on_hand_lost());
    assert_eq!(run.c.modes.mode, Mode::Idle);
    assert!(!run.c.on_hand_lost());
    assert_eq!(run.c.last_status, "[MODE] idle");
}

#[test]
fn tiny_hand_is_ignored() {
    let mut run = Run::new();
    let tiny = HandReading { span: s(0.059), ..raised_fist() };
    run.frame(tiny, 1000 * MS);
    run.frame(tiny, 2000 * MS);
    assert!(run.take().is_empty());
    assert_eq!(run.c.fist.since, None);
    assert_eq!(run.c.history.len(), 0);
}

#[test]
fn cursor_snaps_then_smooths_and_ignores_shake() {
    let mut run = Run::new();
    for i in 0..3 {
        run.frame(hand(POINTING), (1000 + i * 30) * MS);
    }
    run.take();
    let at = |x: f32, y: f32| HandReading { target: point(x, y), ..hand(POINTING) };
    run.frame(at(140.0, 200.0), 1100 * MS);
    assert_eq!(run.take(), vec!["move 120 200"]);
    run.frame(at(121.0, 200.0), 1130 * MS);
    assert_eq!(run.take(), vec!["move 120 200"]);
    run.frame(at(121.5, 200.0), 1160 * MS);
    assert_eq!(run.take(), vec!["move 120.75 200"]);
}

#[test]
fn fingers_scroll_the_page() {
    let mut run = Run::new();
    let at = |y: f32| HandReading { tips_y: s(y), ..hand(TWO) };
    for i in 0..3 {
        run.frame(at(0.5), (1000 + i * 30) * MS);
    }
    assert_eq!(run.take(), vec!["[MODE] scroll"]);
    assert_eq!(run.c.scroll.entered, Some(1060 * MS));
    // Too young: travel does not count.
    run.frame(at(0.3), 1179 * MS);
    assert!(run.take().is_empty());
    run.frame(at(0.34), 1180 * MS);
    assert_eq!(run.take(), vec!["[GESTURE] scroll down"]);
    // At most three ticks a frame; the rest is kept.
    run.frame(at(0.1), 1210 * MS);
    assert_eq!(run.take(), vec!["[GESTURE] scroll up"; 3]);
    run.frame(at(0.1), 1240 * MS);
    assert_eq!(run.take(), vec!["[GESTURE] scroll up"; 3]);
    run.frame(at(0.1), 1270 * MS);
    assert!(run.take().is_empty());
    assert!(v(run.c.scroll.travel).abs() < f32::from_bits(SCROLL_TICK));
}

fn palm_at(x: f32, y: f32) -> HandReading {
    HandReading { centroid: point(x, y), ..hand(OPEN) }
}

/// Holds an open palm still until it has settled; returns the time.
fn settle(run: &mut Run) -> u64 {
    for i in 0..15 {
        run.frame(palm_at(0.3, 0.5), (1000 + i * 30) * MS);
    }
    assert_eq!(run.take(), vec!["[MODE] palm"]);
    1420 * MS
}

#[test]
fn swipe_switches_the_workspace() {
    let mut run = Run::new();
    let t = settle(&mut run);
    run.frame(palm_at(0.40, 0.5), t + 30 * MS);
    run.frame(palm_at(0.50, 0.5), t + 60 * MS);
    assert_eq!(run.take(), vec!["[GESTURE] switch workspace right"]);
    assert_eq!(run.c.palm.last_switch, t + 60 * MS);
    assert_eq!(run.c.palm.anchor, Some(point(0.50, 0.5)));
    // Within the cooldown the swipe is only followed.
    run.frame(palm_at(0.60, 0.5), t + 90 * MS);
    run.frame(palm_at(0.70, 0.5), t + 120 * MS);
    assert!(run.take().is_empty());
    assert_eq!(run.c.palm.anchor, Some(point(0.70, 0.5)));
}

#[test]
fn failed_switch_is_tried_again() {
    let mut run = Run::new();
    let t = settle(&mut run);
    run.refuse = vec!["[GESTURE] switch workspace left"];
    run.frame(palm_at(0.20, 0.5), t + 30 * MS);
    run.frame(palm_at(0.10, 0.5), t + 60 * MS);
    let anchor = run.c.palm.anchor;
    run.refuse.clear();
    run.frame(palm_at(0.08, 0.5), t + 90 * MS);
    assert_eq!(run.take(), vec!["[GESTURE] switch workspace left"; 2]);
    assert!(v(anchor.unwrap().x) > 0.25);
}

#[test]
fn flip_steps_the_volume() {
    let mut run = Run::new();
    let t = settle(&mut run);
    // Far and fast enough over the remembered motion.
    run.frame(palm_at(0.3, 0.30), t + 30 * MS);
    run.frame(palm_at(0.3, 0.10), t + 60 * MS);
    assert_eq!(run.take(), vec!["[GESTURE] volume up"]);
    assert_eq!(run.c.history.len(), 0);
    assert!(!run.c.palm.vol_armed);
    // Motion is measured anew, and within the cooldown nothing more happens.
    for i in 0..8 {
        let y = if i % 2 == 0 { 0.1 } else { 0.9 };
        run.frame(palm_at(0.3, y), t + (90 + i * 60) * MS);
    }
    assert!(run.take().is_empty());
    // Calm, then down.
    let calm = t + 5000 * MS;
    for i in 0..15 {
        run.frame(palm_at(0.3, 0.2), calm + i * 30 * MS);
    }
    assert!(run.c.palm.vol_armed);
    run.frame(palm_at(0.3, 0.4), calm + 450 * MS);
    run.frame(palm_at(0.3, 0.6), calm + 480 * MS);
    assert_eq!(run.take(), vec!["[GESTURE] volume down"]);
}

#[test]
fn palm_waits_before_acting() {
    let mut run = Run::new();
    for i in 0..3 {
        run.frame(palm_at(0.3, 0.5), (1000 + i * 30) * MS);
    }
    assert_eq!(run.take(), vec!["[MODE] palm"]);
    for i in 0..6 {
        run.frame(palm_at(0.3 + 0.1 * i as f32, 0.5), (1090 + i * 30) * MS);
    }
    assert!(run.take().is_empty());
}

#[test]
fn history_is_a_window() {
    let mut run = Run::new();
    for i in 0..30 {
        run.frame(hand(POINTING), (1000 + i * 50) * MS);
    }
    // 350 ms back and no further: the last eight of 50 ms steps.
    assert_eq!(run.c.history.len(), 8);
    assert_eq!(run.c.history[0].t, (2450 - 350) * MS);
}

fn tracker_hand(points: usize, side: Option<&str>, y: f32) -> Hand {
    let mark = Landmark { x: s(0.5), y: s(y), z: s(0.0) };
    Hand { landmarks: vec![mark; points], handedness: side.map(|t| t.to_string()) }
}

#[test]
fn route_picks_the_hand_or_rests() {
    let mut c = Controller::new(0);
    let hands = vec![tracker_hand(20, None, 0.5), tracker_hand(21, None, 0.5)];
    let spans = vec![s(0.9), s(0.2)];
    assert_eq!(c.route(&hands, &spans), Route::Process(1));
    assert_eq!(c.route(&vec![], &vec![]), Route::Lost);
    c.claps.window_since = Some(5);
    c.claps.count = 2;
    assert_eq!(c.route(&hands, &spans), Route::Suspended);
}

/// One frame of the shutdown gesture: whether the wrists meet, and where the right
/// one is. Returns what happened.
fn clap_frame(c: &mut Controller, together: bool, right_y: Option<f32>, now: u64) -> Vec<&'static str> {
    let mut hands = vec![tracker_hand(21, Some("Left"), 0.5)];
    if let Some(y) = right_y {
        hands.push(tracker_hand(21, Some("Right"), y));
    } else {
        hands.push(tracker_hand(21, None, 0.5));
    }
    let mut log = vec![];
    let mut step = c.claps.check_shutdown_gesture(&hands, now);
    loop {
        let (answer, task) = match step {
            ShutdownStep::Done => return log,
            ShutdownStep::MeasureDrop { from, to, task } => {
                (ShutdownAnswer::Number(s(v(to) - v(from))), task)
            }
            ShutdownStep::MeasureClap { task, .. } => {
                (ShutdownAnswer::Number(s(if together { 0.05 } else { 0.5 })), task)
            }
            ShutdownStep::Countdown(task) => {
                log.push("countdown");
                (ShutdownAnswer::Performed, task)
            }
            ShutdownStep::PowerOff(task) => {
                log.push("poweroff");
                (ShutdownAnswer::Performed, task)
            }
        };
        step = c.claps.resume(task, answer, now + 2000 * MS);
    }
}

#[test]
fn two_claps_and_a_lowered_hand_power_off() {
    let mut c = Controller::new(0);
    assert!(clap_frame(&mut c, true, None, 1000 * MS).is_empty());
    assert_eq!(c.claps.count, 1);
    // Staying together is one clap.
    assert!(clap_frame(&mut c, true, None, 1400 * MS).is_empty());
    assert_eq!(c.claps.count, 1);
    clap_frame(&mut c, false, None, 1500 * MS);
    clap_frame(&mut c, true, None, 1800 * MS);
    assert!(c.claps.is_waiting());
    assert_eq!(c.claps.window_since, Some(1800 * MS));
    // The height is taken when the right hand is first seen.
    assert!(clap_frame(&mut c, false, Some(0.4), 2000 * MS).is_empty());
    assert_eq!(c.claps.right_start_y, Some(s(0.4)));
    assert!(clap_frame(&mut c, false, Some(0.6), 2100 * MS).is_empty());
    assert_eq!(
        clap_frame(&mut c, false, Some(0.63), 2200 * MS),
        vec!["countdown", "poweroff"]
    );
    assert_eq!(c.claps.last_shutdown, Some(4200 * MS));
    assert!(!c.claps.is_waiting());
    assert_eq!(c.claps.count, 0);
    // The gesture cools down.
    clap_frame(&mut c, true, None, 9199 * MS);
    assert_eq!(c.claps.count, 0);
    clap_frame(&mut c, true, None, 9200 * MS);
    assert_eq!(c.claps.count, 1);
}

#[test]
fn late_second_clap_starts_over() {
    let mut c = Controller::new(0);
    clap_frame(&mut c, true, None, 1000 * MS);
    clap_frame(&mut c, false, None, 1100 * MS);
    clap_frame(&mut c, true, None, 2501 * MS);
    assert_eq!(c.claps.count, 1);
    assert!(!c.claps.is_waiting());
    // Too quick a second clap does not count.
    clap_frame(&mut c, false, None, 2600 * MS);
    clap_frame(&mut c, true, None, 2801 * MS);
    assert_eq!(c.claps.count, 1);
}

#[test]
fn window_closes_after_a_while() {
    let mut c = Controller::new(0);
    clap_frame(&mut c, true, None, 1000 * MS);
    clap_frame(&mut c, false, None, 1100 * MS);
    clap_frame(&mut c, true, None, 1400 * MS);
    clap_frame(&mut c, false, Some(0.4), 1500 * MS);
    // The last moment of the window still counts.
    assert!(clap_frame(&mut c, false, None, 3900 * MS).is_empty());
    assert!(c.claps.is_waiting());
    assert!(clap_frame(&mut c, false, Some(0.9), 3901 * MS).is_empty());
    assert!(!c.claps.is_waiting());
    assert_eq!(c.claps.right_start_y, None);
}

#[test]
fn failed_poweroff_gives_the_frame_up() {
    let mut c = Controller::new(0);
    c.claps.count = 2;
    c.claps.last_clap = 1000 * MS;
    c.claps.window_since = Some(1000 * MS);
    c.claps.right_start_y = Some(s(0.2));
    let hands = vec![tracker_hand(21, Some("Right"), 0.9), tracker_hand(21, None, 0.5)];
    let step = c.claps.check_shutdown_gesture(&hands, 1100 * MS);
    let ShutdownStep::MeasureDrop { task, .. } = step else { panic!("expected a drop") };
    let step = c.claps.resume(task, ShutdownAnswer::Number(s(0.7)), 1100 * MS);
    let ShutdownStep::Countdown(task) = step else { panic!("expected a countdown") };
    let step = c.claps.resume(task, ShutdownAnswer::Performed, 3100 * MS);
    let ShutdownStep::PowerOff(task) = step else { panic!("expected to power off") };
    assert_eq!(c.claps.resume(task, ShutdownAnswer::Failed, 3200 * MS), ShutdownStep::Done);
    assert_eq!(c.claps.last_shutdown, Some(3100 * MS));
    assert!(!c.claps.together);
}

#[test]
fn right_hand_without_landmarks_is_no_wrist() {
    let mut c = Controller::new(0);
    c.claps.count = 2;
    c.claps.last_clap = 1000 * MS;
    c.claps.window_since = Some(1000 * MS);
    let hands = vec![tracker_hand(0, Some("Right"), 0.0), tracker_hand(21, Some("Right"), 0.3)];
    assert_eq!(c.claps.check_shutdown_gesture(&hands, 1100 * MS), ShutdownStep::Done);
    assert_eq!(c.claps.right_start_y, None);
}

fn motion(vx: f32, vy: f32, dx: f32) -> PalmMotion {
    let lead = f32::from_bits(DOMINANCE);
    PalmMotion {
        vx: s(vx),
        vy: s(vy),
        lead_x: s(lead * vx.abs()),
        lead_y: s(lead * vy.abs()),
        dx: s(dx),
        eased: point(0.1, 0.2),
    }
}

fn palm() -> PalmState {
    PalmState {
        anchor: Some(point(0.0, 0.0)),
        vol_armed: true,
        since: Some(0),
        last_switch: 0,
        last_flip: 0,
    }
}

#[test]
fn volume_waits_for_calm() {
    let mut p = palm();
    let t = 501 * MS;
    assert_eq!(p.watch_flip(motion(0.1, -0.9, 0.0), t), Some(true));
    p.flip(t);
    // Unarmed: flying on steps nothing, whatever the time.
    assert_eq!(p.watch_flip(motion(0.1, -0.9, 0.0), t + 900 * MS), None);
    // Slower, but not calm yet.
    assert_eq!(p.watch_flip(motion(0.0, 0.5, 0.0), t + 900 * MS), None);
    assert!(!p.vol_armed);
    // A fast diagonal is no flip, and not calm either.
    assert_eq!(p.watch_flip(motion(1.0, 1.0, 0.0), t + 900 * MS), None);
    assert!(!p.vol_armed);
    assert_eq!(p.watch_flip(motion(0.0, 0.4, 0.0), t + 900 * MS), None);
    assert!(p.vol_armed);
    assert_eq!(p.watch_flip(motion(0.0, 0.9, 0.0), t + 500 * MS), None);
    assert_eq!(p.watch_flip(motion(0.0, 0.9, 0.0), t + 501 * MS), Some(false));
}

#[test]
fn still_palm_does_nothing() {
    let mut p = palm();
    assert_eq!(p.track(motion(0.0, 0.0, 0.5), point(0.5, 0.5), 9000 * MS), None);
    assert_eq!(p.anchor, Some(point(0.1, 0.2)));
    assert_eq!(p.watch_flip(motion(0.0, 0.0, 0.5), 9000 * MS), None);
    assert!(p.vol_armed);
    // Nor does one that moves as fast as it may without swiping or flipping.
    let mut p = palm();
    let m = motion(0.35, 0.85, 0.5);
    assert_eq!(p.track(m, point(0.5, 0.5), 9000 * MS), None);
    assert_eq!(p.watch_flip(m, 9000 * MS), None);
}

#[test]
fn one_motion_is_a_swipe_or_a_flip() {
    for vx in [-2.0f32, -0.5, 0.0, 0.36, 1.0, 1.3] {
        for vy in [-2.0f32, -0.9, 0.0, 0.5, 1.0, 1.31] {
            let m = motion(vx, vy, 0.5);
            let swiped = palm().track(m, point(0.5, 0.5), 9000 * MS).is_some();
            let flipped = palm().watch_flip(m, 9000 * MS).is_some();
            assert!(!(swiped && flipped), "{vx} {vy}");
            assert_eq!(swiped, vx.abs() > 0.35 && vx.abs() > 1.3 * vy.abs(), "{vx} {vy}");
            assert_eq!(flipped, vy.abs() > 0.85 && vy.abs() > 1.3 * vx.abs(), "{vx} {vy}");
        }
    }
}

#[test]
fn losing_the_hand_keeps_the_cooldowns() {
    let mut run = Run::new();
    run.frame(pinching(0.02, 0.3), 1000 * MS);
    run.frame(raised_fist(), 1100 * MS);
    run.frame(raised_fist(), 1500 * MS);
    assert!(run.c.fist.fired);
    run.c.on_hand_lost();
    assert!(run.c.fist.fired && run.c.fist.since.is_none());
    assert_eq!(run.c.pinch.last_click, 1000 * MS);
    assert!(!run.c.pinch.left_armed);
    assert_eq!(run.c.finger_up, [false; 5]);
    assert_eq!(run.c.history.len(), 0);
    assert_eq!(run.c.cursor, None);
}

#[test]
fn answers_that_do_not_belong_end_the_frame() {
    let mut c = Controller::new(0);
    c.process(raised_fist(), 1000 * MS);
    let step = c.process(raised_fist(), 1400 * MS);
    let FrameStep::CloseTab(task) = step else { panic!("expected a tab to close") };
    assert!(matches!(c.resume(task, FrameAnswer::Number(s(1.0)), 0), FrameStep::Done));
    assert!(!c.fist.fired);
}

#[test]
fn dry_run_tells_instead_of_acting() {
    let mut c = Controller::new(0);
    c.process(raised_fist(), 1000 * MS);
    let close = c.process(raised_fist(), 1400 * MS);
    let click = Controller::new(0).process(pinching(0.3, 0.02), 1000 * MS);
    let mut c = Controller::new(0);
    for i in 0..2 {
        c.process(hand(POINTING), (1000 + i * 30) * MS);
    }
    let announce = c.process(hand(POINTING), 1060 * MS);
    let FrameStep::Announce(_, task) = announce else { panic!("expected a mode") };
    let travel = c.resume(task, FrameAnswer::Performed, 1060 * MS);
    let said = |step: &FrameStep, dry_run: bool| match effect(step, dry_run) {
        Effect::Say(line) => line,
        Effect::Nothing => "nothing".to_string(),
        Effect::Act(Action::CloseTab) => "act: close tab".to_string(),
        Effect::Act(Action::Click(MouseButton::Right)) => "act: right click".to_string(),
        Effect::Act(Action::MoveCursor(to)) => format!("act: move {}", v(to.x)),
        Effect::Act(other) => format!("act: {other:?}"),
    };
    assert_eq!(said(&close, true), "[GESTURE] close tab");
    assert_eq!(said(&close, false), "act: close tab");
    assert_eq!(said(&click, true), "[GESTURE] right click");
    assert_eq!(said(&click, false), "act: right click");
    assert_eq!(said(&announce, true), "[MODE] cursor");
    assert_eq!(said(&announce, false), "[MODE] cursor");
    assert_eq!(said(&travel, true), "nothing");
    assert_eq!(said(&travel, false), "act: move 100");
    assert_eq!(said(&FrameStep::Done, false), "nothing");
    let FrameStep::CloseTab(task) = close else { panic!("expected a tab to close") };
    let step = FrameStep::SwitchWorkspace(air_mouse::palm::SwipeDirection::Left, task);
    assert_eq!(said(&step, true), "[GESTURE] switch workspace left");
    assert_eq!(said(&step, false), "act: SwitchWorkspace(Left)");
    assert_eq!(said(&FrameStep::StepVolume(true, task), true), "[GESTURE] volume up");
    assert_eq!(said(&FrameStep::StepVolume(true, task), false), "act: StepVolume(true)");
}

#[test]
fn dry_run_reports_shutdown() {
    let mut c = Controller::new(0);
    c.claps.count = 2;
    c.claps.last_clap = 1000 * MS;
    c.claps.window_since = Some(1000 * MS);
    c.claps.right_start_y = Some(s(0.2));
    let hands = vec![tracker_hand(21, Some("Right"), 0.9), tracker_hand(21, None, 0.5)];
    let measure = c.claps.check_shutdown_gesture(&hands, 1100 * MS);
    let ShutdownStep::MeasureDrop { task, .. } = measure else { panic!("expected a drop") };
    let countdown = c.claps.resume(task, ShutdownAnswer::Number(s(0.7)), 1100 * MS);
    let ShutdownStep::Countdown(task) = countdown else { panic!("expected a countdown") };
    let power_off = c.claps.resume(task, ShutdownAnswer::Performed, 1200 * MS);
    for (step, dry, real) in [
        (measure, ShutdownEffect::Nothing, ShutdownEffect::Nothing),
        (countdown, ShutdownEffect::Report, ShutdownEffect::CountDown),
        (power_off, ShutdownEffect::Nothing, ShutdownEffect::PowerOff),
    ] {
        assert_eq!(shutdown_effect(&step, true), dry);
        assert_eq!(shutdown_effect(&step, false), real);
    }
}

#[test]
fn positions_are_cut_off_at_the_screen() {
    for (x, expected) in [(-0.3f32, 0.0f32), (0.0, 0.0), (0.25, 0.25), (1.0, 1.0), (7.0, 1.0)] {
        assert_eq!(v(screen_share(s(x))), expected);
        assert_eq!(v(screen_share(s(x))), x.clamp(0.0, 1.0));
        for side in [0.0f32, 1080.0, 1921.0] {
            let pixel = v(screen_share(s(x))) * side;
            assert!(0.0 <= pixel && pixel <= side);
        }
    }
    assert_eq!(v(screen_share(s(f32::NEG_INFINITY))), 0.0);
    assert_eq!(v(screen_share(s(f32::INFINITY))), 1.0);
    assert!(v(screen_share(s(f32::NAN))).is_nan());
}

#[test]
fn cursor_stays_on_the_screen() {
    let mut run = Run::new();
    let at = |x: f32, y: f32| HandReading { target: point(x, y), ..hand(POINTING) };
    for (i, x) in [0.0f32, 1920.0, 3.0, 1919.5, 0.0, 1920.0, 960.0].iter().enumerate() {
        run.frame(at(*x, 1080.0 - x / 2.0), (1000 + i as u64 * 30) * MS);
        if let Some(p) = run.c.cursor {
            assert!(0.0 <= v(p.x) && v(p.x) <= 1920.0 && 0.0 <= v(p.y) && v(p.y) <= 1080.0);
        }
    }
    assert!(run.c.cursor.is_some());
}

#[test]
fn anchor_eases_toward_the_hand() {
    let share = f32::from_bits(SWIPE_REANCHOR);
    for (start, pos) in [(0.1f32, 0.9f32), (0.9, 0.1), (0.5, 0.5000001), (-3.0, 1.0e-30), (0.0, 1.0e-45)] {
        let mut a = start;
        for k in 1..200 {
            let next = a + share * (pos - a);
            assert!(a.min(pos) <= next && next <= a.max(pos), "{start} {pos} {k}");
            a = next;
            let ideal = 0.95f64.powi(k) * (pos as f64 - start as f64).abs();
            assert!(((pos - a).abs() as f64 - ideal).abs() <= 1.0e-5, "{start} {pos} {k}");
        }
    }
}

#[test]
fn closer_tips_never_rearm() {
    sweep_gaps(0.2);
    sweep_gaps(0.0001);
    sweep_gaps(0.9);
}

fn sweep_gaps(palm: f32) {
    let on = s(palm * f32::from_bits(air_mouse::settings::PINCH_PALM_REL_ON));
    let off = s(palm * f32::from_bits(air_mouse::settings::PINCH_PALM_REL_OFF));
    let mut touched = false;
    for i in (0..500).rev() {
        let gap = s(i as f32 * 0.001);
        let touching = air_mouse::pinch::pinch_closed(gap, on);
        assert!(touching || !touched);
        assert!(!(touching && air_mouse::pinch::pinch_open(gap, off)));
        touched = touched || touching;
    }
    assert!(touched);
}

#[test]
fn stale_travel_cannot_fire() {
    let share = f32::from_bits(SWIPE_REANCHOR);
    let limit = f32::from_bits(air_mouse::settings::SWIPE_DIST);
    for (start, pos) in [(0.0f32, 1.0f32), (1.0, 0.0), (-1.0, 1.0), (1.0, -1.0), (0.3, 0.9)] {
        let mut a = start;
        for _ in 0..50 {
            let eased = a + share * (pos - a);
            let outcome = swipe_step(s(0.2), s(0.0), s(pos - a), point(eased, 0.5));
            assert_eq!(outcome, SwipeOutcome::Reanchor(point(eased, 0.5)));
            a = eased;
        }
        assert!((pos - a).abs() < limit, "{start} {pos}");
        // Not even a fast move makes a switch of what is left.
        let outcome = swipe_step(s(2.0), s(0.0), s(pos - a), point(0.0, 0.0));
        assert_eq!(outcome, SwipeOutcome::Hold);
    }
}

#[test]
fn smoothing_stays_on_the_screen() {
    let above = |side: f32| f32::from_bits(side.to_bits() + 1);
    for side in [1.0f32, 1080.0, 1921.0, 3840.0, 8_388_607.0] {
        for from in [0.0f32, 1.0e-10, 0.3, side / 3.0, side - side / 1.0e6, side, above(side)] {
            for to in [0.0f32, 1.0e-10, 0.7, side / 7.0, side - side / 1.0e6, side] {
                for factor in [0.1f32, 0.5, 0.9999999, 1.0] {
                    let smoothed = from + factor * (to - from);
                    assert!(0.0 <= smoothed && smoothed <= above(side), "{side} {from} {to}");
                    assert!((0..=side as i32).contains(&(smoothed as i32)));
                    // It never recedes from the target.
                    assert!(if from <= to { from <= smoothed } else { smoothed <= from });
                }
            }
        }
    }
}
