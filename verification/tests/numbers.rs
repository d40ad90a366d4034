use air_mouse::hand::{hand_bounds, primary_hand, Hand, Landmark};
use air_mouse::scalar::Scalar;
use air_mouse::settings;
use air_mouse::settings::elapsed;
use std::time::Duration;

fn s(x: f32) -> Scalar {
    Scalar { bits: x.to_bits() }
}

fn samples() -> Vec<f32> {
    vec![
        0.0,
        -0.0,
        1.0,
        -1.0,
        1.0e-45,
        -1.0e-45,
        f32::MIN_POSITIVE,
        f32::MAX,
        f32::MIN,
        f32::INFINITY,
        f32::NEG_INFINITY,
        f32::NAN,
        -f32::NAN,
        0.055,
        0.0549,
        135.0,
        134.99999,
        -0.22,
        1.0e-30,
        3.5e20,
    ]
}

#[test]
fn comparisons_agree_with_the_machine() {
    for &a in &samples() {
        assert_eq!(s(a).not_a_number(), a.is_nan());
        assert_eq!(s(a).abs().bits, a.abs().to_bits());
        for &b in &samples() {
            assert_eq!(s(a).lt(s(b)), a < b, "{a} < {b}");
            assert_eq!(s(a).le(s(b)), a <= b, "{a} <= {b}");
            let min = f32::from_bits(s(a).min(s(b)).bits);
            let max = f32::from_bits(s(a).max(s(b)).bits);
            assert!(min == a.min(b) || (min.is_nan() && a.min(b).is_nan()), "min {a} {b}");
            assert!(max == a.max(b) || (max.is_nan() && a.max(b).is_nan()), "max {a} {b}");
        }
    }
    assert_eq!(f32::from_bits(Scalar::zero().bits), 0.0);
}

#[test]
fn thresholds_are_the_documented_numbers() {
    let pairs: [(u32, f32); 26] = [
        (settings::MIN_HAND_SPAN, 0.06),
        (settings::PINCH_ON, 0.055),
        (settings::PINCH_OFF, 0.095),
        (settings::PINCH_PALM_REL_ON, 0.35),
        (settings::PINCH_PALM_REL_OFF, 0.45),
        (settings::PINCH_MIN_ANGLE_DEG, 90.0),
        (settings::MARGIN, 0.08),
        (settings::CURSOR_JITTER_PX, 1.5),
        (settings::SMOOTH_MIN, 0.10),
        (settings::SMOOTH_MAX, 1.0),
        (settings::SMOOTH_RANGE_PX, 120.0),
        (settings::SCROLL_TICK, 0.035),
        (settings::SWIPE_DIST, 0.18),
        (settings::SWIPE_VEL, 0.35),
        (settings::SWIPE_REANCHOR, 0.05),
        (settings::FLIP_VEL, 0.85),
        (settings::FLIP_REST_VEL, 0.85 * 0.5),
        (settings::DOMINANCE, 1.3),
        (settings::FIST_MAX_WRIST_Y, 0.60),
        (settings::FINGER_UP_DEG, 135.0),
        (settings::FINGER_DOWN_DEG, 115.0),
        (settings::EXT_RATIO_UP, 0.60),
        (settings::EXT_RATIO_DOWN, 0.42),
        (settings::CLAP_THRESHOLD, 0.12),
        (settings::SHUTDOWN_DOWN_THRESHOLD, 0.22),
        (0, 0.0),
    ];
    for (bits, value) in pairs {
        assert_eq!(bits, value.to_bits(), "{value}");
        assert_eq!(settings::threshold(bits), s(value));
    }
}

#[test]
fn timings_are_the_documented_ones() {
    let ms = |n: u64| n * 1_000_000;
    assert_eq!(settings::CLICK_COOLDOWN, ms(180));
    assert_eq!(settings::SCROLL_SETTLE, ms(120));
    assert_eq!(settings::SCROLL_MAX_TICKS, 3);
    assert_eq!(settings::WORKSPACE_COOLDOWN, ms(400));
    assert_eq!(settings::VOLUME_FLIP_COOLDOWN, ms(500));
    assert_eq!(settings::VOLUME_STEP, 5);
    assert_eq!(settings::FIST_HOLD, ms(400));
    assert_eq!(settings::FIST_REARM, ms(400));
    assert_eq!(settings::MODE_CONFIRM_FRAMES, 3);
    assert_eq!(settings::PALM_SETTLE, ms(200));
    assert_eq!(settings::MOTION_WINDOW, ms(350));
    assert_eq!(settings::CLAP_TIMEOUT, ms(1500));
    assert_eq!(settings::CLAP_COOLDOWN, ms(300));
    assert_eq!(settings::AFTER_CLAP_WINDOW, ms(2500));
    assert_eq!(settings::SHUTDOWN_COOLDOWN, ms(5000));
    assert_eq!(settings::VOICE_COOLDOWN, ms(10000));
}

#[test]
fn shortest_motion_span_is_five_hundredths_of_a_second() {
    let short = |ns: u64| Duration::from_nanos(ns).as_secs_f32() < 0.05;
    assert!(short(settings::MOTION_MIN_SPAN - 1));
    assert!(!short(settings::MOTION_MIN_SPAN));
    for ns in [0, 1, 49_000_000, 49_999_990] {
        assert!(short(ns));
    }
    for ns in [49_999_999, 50_000_000, 50_000_001, 350_000_000, 1_000_000_000] {
        assert!(!short(ns));
    }
}

#[test]
fn elapsed_never_runs_backwards() {
    assert_eq!(elapsed(10, 3), 7);
    assert_eq!(elapsed(3, 3), 0);
    assert_eq!(elapsed(3, 10), 0);
}

fn mark(x: f32, y: f32) -> Landmark {
    Landmark { x: s(x), y: s(y), z: s(0.0) }
}

#[test]
fn bounds_enclose_the_landmarks() {
    let b = hand_bounds(&vec![mark(0.4, 0.9), mark(-0.1, 0.2), mark(0.3, 0.5)]);
    assert_eq!((b.min_x, b.max_x), (s(-0.1), s(0.4)));
    assert_eq!((b.min_y, b.max_y), (s(0.2), s(0.9)));
    // What is not a number is passed over.
    let b = hand_bounds(&vec![mark(f32::NAN, 0.5), mark(0.3, f32::NAN)]);
    assert_eq!((b.min_x, b.max_x), (s(0.3), s(0.3)));
    assert_eq!((b.min_y, b.max_y), (s(0.5), s(0.5)));
    let b = hand_bounds(&vec![]);
    assert_eq!((b.min_x, b.max_x), (s(f32::MAX), s(f32::MIN)));
}

fn hand(landmarks: usize) -> Hand {
    Hand { landmarks: (0..landmarks).map(|_| mark(0.5, 0.5)).collect(), handedness: None }
}

#[test]
fn largest_complete_hand_counts() {
    let hands = vec![hand(21), hand(20), hand(21), hand(21)];
    let spans = |v: [f32; 4]| -> Vec<Scalar> { v.iter().map(|&x| s(x)).collect() };
    assert_eq!(primary_hand(&hands, &spans([0.3, 0.9, 0.4, 0.2])), Some(2));
    // Of equals the latest counts.
    assert_eq!(primary_hand(&hands, &spans([0.4, 0.9, 0.4, 0.2])), Some(2));
    assert_eq!(primary_hand(&hands, &spans([0.5, 0.9, 0.4, 0.2])), Some(0));
    // A span that is no number compares as equal.
    assert_eq!(primary_hand(&hands, &spans([0.5, 0.9, f32::NAN, 0.2])), Some(3));
    assert_eq!(primary_hand(&vec![hand(20)], &vec![s(0.5)]), None);
    assert_eq!(primary_hand(&vec![], &vec![]), None);
}

#[test]
fn primary_agrees_with_max_by() {
    let values = [0.1, 0.4, f32::NAN, 0.4, 0.2];
    for a in values {
        for b in values {
            for c in values {
                let hands = vec![hand(21), hand(21), hand(21)];
                let spans = vec![s(a), s(b), s(c)];
                let expected = [a, b, c]
                    .iter()
                    .enumerate()
                    .max_by(|x, y| x.1.partial_cmp(y.1).unwrap_or(std::cmp::Ordering::Equal))
                    .map(|(i, _)| i);
                assert_eq!(primary_hand(&hands, &spans), expected);
            }
        }
    }
}
