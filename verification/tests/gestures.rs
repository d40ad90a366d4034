use air_mouse::fingers::hysteresis_step;
use air_mouse::hand::{finger_joint, Point};
use air_mouse::mode::{classify_mode, Mode};
use air_mouse::palm::{swipe_step, SwipeOutcome};
use air_mouse::pinch::{pinch_closed, pinch_open, PinchReading};
use air_mouse::scalar::Scalar;
use air_mouse::settings::{
    DOMINANCE, EXT_RATIO_UP, FINGER_DOWN_DEG, FINGER_UP_DEG, MARGIN, PINCH_MIN_ANGLE_DEG,
    PINCH_PALM_REL_OFF, PINCH_PALM_REL_ON, SWIPE_DIST, SWIPE_REANCHOR,
};

fn s(x: f32) -> Scalar {
    Scalar { bits: x.to_bits() }
}

fn f(bits: u32) -> f32 {
    f32::from_bits(bits)
}

fn dist(a: &[f32; 3], b: &[f32; 3]) -> f32 {
    ((a[0] - b[0]).powi(2) + (a[1] - b[1]).powi(2)).sqrt()
}

fn joint_angle(a: &[f32; 3], b: &[f32; 3], c: &[f32; 3]) -> f32 {
    let v1 = [a[0] - b[0], a[1] - b[1], a[2] - b[2]];
    let v2 = [c[0] - b[0], c[1] - b[1], c[2] - b[2]];
    let m1 = (v1[0] * v1[0] + v1[1] * v1[1] + v1[2] * v1[2]).sqrt();
    let m2 = (v2[0] * v2[0] + v2[1] * v2[1] + v2[2] * v2[2]).sqrt();
    if m1 < 1e-6 || m2 < 1e-6 {
        return 180.0;
    }
    ((v1[0] * v2[0] + v1[1] * v2[1] + v1[2] * v2[2]) / (m1 * m2))
        .clamp(-1.0, 1.0)
        .acos()
        .to_degrees()
}

fn finger_angles(lm: &[[f32; 3]]) -> [f32; 5] {
    let mut out = [0.0; 5];
    for (i, angle) in out.iter_mut().enumerate() {
        let (a, b, c) = finger_joint(i);
        *angle = joint_angle(&lm[a], &lm[b], &lm[c]);
    }
    out
}

fn finger_ratios(lm: &[[f32; 3]], palm: f32) -> [f32; 5] {
    let mut out = [0.0; 5];
    for (i, ratio) in out.iter_mut().enumerate() {
        let (knuckle, _, tip) = finger_joint(i);
        *ratio = dist(&lm[knuckle], &lm[tip]) / palm.max(1e-4);
    }
    out
}

/// Open palm: wrist at bottom, fingers straight up.
fn open_palm() -> [[f32; 3]; 21] {
    let mut lm = [[0.0; 3]; 21];
    lm[0] = [0.50, 0.90, 0.0];
    lm[1] = [0.44, 0.84, 0.0];
    lm[2] = [0.40, 0.78, 0.0];
    lm[3] = [0.37, 0.72, 0.0];
    lm[4] = [0.34, 0.66, 0.0];
    for (col, base) in [(0usize, 5usize), (1, 9), (2, 13), (3, 17)] {
        let x = 0.44 + col as f32 * 0.055;
        let y_top = 0.70 - col as f32 * 0.02;
        lm[base] = [x, y_top + 0.00, 0.0];
        lm[base + 1] = [x, y_top - 0.08, 0.0];
        lm[base + 2] = [x, y_top - 0.14, 0.0];
        lm[base + 3] = [x, y_top - 0.20, 0.0];
    }
    lm
}

fn curl(lm: &mut [[f32; 3]; 21], base: usize) {
    let x = lm[base][0];
    let y = lm[base][1];
    lm[base + 1] = [x, y - 0.02, 0.0];
    lm[base + 2] = [x + 0.02, y + 0.02, 0.0];
    lm[base + 3] = [x + 0.04, y + 0.04, 0.0];
}

/// Fresh read without history: a finger counts as up only on a strong cue.
fn fingers_up(lm: &[[f32; 3]]) -> [bool; 5] {
    let palm = dist(&lm[0], &lm[9]).max(1e-4);
    let angles = finger_angles(lm);
    let ratios = finger_ratios(lm, palm);
    let mut out = [false; 5];
    for i in 0..5 {
        out[i] = hysteresis_step(false, s(angles[i]), s(ratios[i]));
        assert_eq!(out[i], angles[i] >= f(FINGER_UP_DEG) || ratios[i] >= f(EXT_RATIO_UP));
    }
    out
}

/// One step of swipe tracking on plain numbers.
fn swipe(anchor: [f32; 2], pos: [f32; 2], vx: f32, vy: f32) -> SwipeOutcome {
    let ease = |a: f32, p: f32| a + f(SWIPE_REANCHOR) * (p - a);
    swipe_step(
        s(vx),
        s(f(DOMINANCE) * vy.abs()),
        s(pos[0] - anchor[0]),
        Point { x: s(ease(anchor[0], pos[0])), y: s(ease(anchor[1], pos[1])) },
    )
}

#[test]
fn open_hand_all_extended() {
    assert!(fingers_up(&open_palm()).iter().all(|&x| x));
}

#[test]
fn fist_all_curled() {
    let mut lm = open_palm();
    // Thumb hooked back across the palm (tip curls toward the wrist).
    lm[3] = [0.38, 0.74, 0.0];
    lm[4] = [0.42, 0.79, 0.0];
    for b in [5, 9, 13, 17] {
        curl(&mut lm, b);
    }
    let f = fingers_up(&lm);
    assert!(f.iter().all(|&x| !x), "fist misread as {f:?}");
}

#[test]
fn pointing_only_index() {
    let mut lm = open_palm();
    curl(&mut lm, 1);
    for b in [9, 13, 17] {
        curl(&mut lm, b);
    }
    let f = fingers_up(&lm);
    assert_eq!((f[1], f[2], f[3], f[4]), (true, false, false, false));
}

#[test]
fn finger_toward_camera_still_reads_straight() {
    // Index finger aimed at the camera: barely moves in x/y but gains depth.
    let mut lm = open_palm();
    lm[5][2] = 0.00;
    lm[6][2] = 0.05;
    lm[7][2] = 0.10;
    lm[8][2] = 0.15;
    assert!(finger_angles(&lm)[1] > f(FINGER_UP_DEG));
}

#[test]
fn finger_hysteresis_holds_between_thresholds() {
    // Strong cues decide; dead-band keeps history.
    assert!(hysteresis_step(true, s(180.0), s(0.8))); // straight -> up
    assert!(hysteresis_step(true, s(f(FINGER_UP_DEG) + 1.0), s(0.5))); // angle ON -> up
    assert!(hysteresis_step(true, s(125.0), s(0.8))); // ratio ON -> up
    assert!(hysteresis_step(true, s(125.0), s(0.5))); // both mid -> stays up
    assert!(!hysteresis_step(true, s(f(FINGER_DOWN_DEG) - 1.0), s(0.3))); // both OFF -> down
    assert!(!hysteresis_step(false, s(60.0), s(0.3))); // curled -> down
    // Same mid-band value keeps a previously-folded finger folded.
    assert!(!hysteresis_step(false, s(125.0), s(0.5)));
}

#[test]
fn curled_finger_has_small_spread_ratio() {
    let mut lm = open_palm();
    for b in [5, 9, 13, 17] {
        curl(&mut lm, b);
    }
    let palm = dist(&lm[0], &lm[9]).max(1e-4);
    let ratios = finger_ratios(&lm, palm);
    for r in [ratios[1], ratios[2], ratios[3], ratios[4]] {
        assert!(r < f(EXT_RATIO_UP), "curled ratio should be small, got {r}");
    }
    let open = open_palm();
    let palm_o = dist(&open[0], &open[9]).max(1e-4);
    let ro = finger_ratios(&open, palm_o);
    for r in [ro[1], ro[2], ro[3], ro[4]] {
        assert!(r >= f(EXT_RATIO_UP), "open ratio should be large, got {r}");
    }
}

#[test]
fn pinch_uses_palm_relative_hysteresis() {
    let palm: f32 = 0.20;
    let on = s(palm * f(PINCH_PALM_REL_ON));
    let off = s(palm * f(PINCH_PALM_REL_OFF));
    // Touching tips fire even though absolute distance alone is borderline.
    assert!(pinch_closed(s(0.03), on));
    assert!(pinch_closed(s(0.060), on)); // 0.06 < 0.20*0.35=0.07 -> fire
    assert!(!pinch_closed(s(0.10), on));
    // Re-arm needs BOTH measures cleared.
    assert!(pinch_open(s(0.10), off)); // > 0.095 and > 0.09
    assert!(!pinch_open(s(0.06), off));
}

#[test]
fn pinch_allows_partially_curled_finger() {
    // A real pinch curls the index to ~100-120 deg; only a tucked finger is blocked.
    assert!(110.0 > f(PINCH_MIN_ANGLE_DEG));
    assert!(95.0 > f(PINCH_MIN_ANGLE_DEG));
    assert!(70.0 < f(PINCH_MIN_ANGLE_DEG)); // fully tucked still blocked
    let bent = |angle: f32| PinchReading {
        angle: s(angle),
        gap: s(0.01),
        close_reach: s(0.07),
        open_reach: s(0.09),
    };
    assert!(bent(110.0).is_unfolded());
    assert!(bent(95.0).is_unfolded());
    assert!(!bent(70.0).is_unfolded());
    assert!(!bent(90.0).is_unfolded());
}

#[test]
fn mode_classifier_is_forgiving() {
    // Pointing survives ring/pinky wobble.
    assert_eq!(classify_mode([false, true, false, false, false], false, false), Mode::Cursor);
    assert_eq!(classify_mode([false, true, false, true, false], false, false), Mode::Cursor);
    assert_eq!(classify_mode([true, true, false, true, true], false, false), Mode::Cursor);
    // Scroll survives one borderline finger.
    assert_eq!(classify_mode([false, true, true, false, false], false, false), Mode::Scroll);
    assert_eq!(classify_mode([false, true, true, true, false], false, false), Mode::Scroll);
    assert_eq!(classify_mode([false, true, true, false, true], false, false), Mode::Scroll);
    // Full palm still palm.
    assert_eq!(classify_mode([true, true, true, true, true], false, false), Mode::Palm);
    assert_eq!(classify_mode([false, true, true, true, true], false, false), Mode::Palm);
    // Fist forces idle.
    assert_eq!(classify_mode([false, false, false, false, false], true, false), Mode::Idle);
    assert_eq!(classify_mode([false, true, false, false, false], false, true), Mode::Idle);
}

#[test]
fn three_fingers_without_index_are_a_palm() {
    assert_eq!(classify_mode([false, false, true, true, true], false, false), Mode::Palm);
    assert_eq!(classify_mode([true, false, true, true, false], false, false), Mode::Idle);
    assert_eq!(classify_mode([true, false, false, false, false], false, false), Mode::Idle);
}

#[test]
fn mode_labels() {
    assert_eq!(Mode::Idle.label(), "idle");
    assert_eq!(Mode::Cursor.label(), "cursor");
    assert_eq!(Mode::Scroll.label(), "scroll");
    assert_eq!(Mode::Palm.label(), "palm");
}

#[test]
fn pointing_pose_classifies_to_cursor() {
    let mut lm = open_palm();
    curl(&mut lm, 1);
    for b in [9, 13, 17] {
        curl(&mut lm, b);
    }
    let f = fingers_up(&lm);
    assert_eq!((f[1], f[2], f[3], f[4]), (true, false, false, false));
    assert_eq!(classify_mode(f, false, false), Mode::Cursor);
}

#[test]
fn cursor_mapping_full_frame() {
    let margin = f(MARGIN);
    let norm = |v: f32| ((v - margin) / (1.0 - 2.0 * margin)).clamp(0.0, 1.0);
    assert_eq!(norm(margin), 0.0);
    assert_eq!(norm(1.0 - margin), 1.0);
    assert!((norm(0.5) - 0.5).abs() < 1e-6);
    // A hand low in frame (resting position) is still reachable.
    assert!(norm(0.85) > 0.85);
}

#[test]
fn fast_horizontal_swipe_fires() {
    let anchor = [0.5, 0.5];
    // Swipe right fast and clean: crosses the distance threshold.
    match swipe(anchor, [anchor[0] + f(SWIPE_DIST) + 0.01, 0.5], 1.2, 0.1) {
        SwipeOutcome::Fire(dir) => assert_eq!(dir.label(), "right"),
        _ => panic!("expected fire"),
    }
    // Same travel but below the speed gate -> no fire, just re-anchor.
    assert!(matches!(
        swipe(anchor, [anchor[0] + f(SWIPE_DIST) + 0.01, 0.5], 0.1, 0.05),
        SwipeOutcome::Reanchor(_)
    ));
}

#[test]
fn swipe_left_and_short_swipe() {
    let anchor = [0.5, 0.5];
    match swipe(anchor, [anchor[0] - f(SWIPE_DIST) - 0.01, 0.5], -1.2, 0.1) {
        SwipeOutcome::Fire(dir) => assert_eq!(dir.label(), "left"),
        _ => panic!("expected fire"),
    }
    assert_eq!(swipe(anchor, [0.6, 0.5], 1.2, 0.1), SwipeOutcome::Hold);
}

#[test]
fn slow_drift_never_fires_workspace() {
    let anchor: [f32; 2] = [0.5, 0.5];
    let mut a = anchor;
    // Simulate many frames of slow rightward drift.
    for _ in 0..600 {
        match swipe(a, [a[0] + 0.001, a[1]], 0.15, 0.02) {
            SwipeOutcome::Fire(_) => panic!("slow drift fired"),
            SwipeOutcome::Reanchor(next) => a = [f(next.x.bits), f(next.y.bits)],
            SwipeOutcome::Hold => {}
        }
    }
}

#[test]
fn vertical_motion_does_not_fire_workspace() {
    let anchor = [0.5, 0.5];
    // Big horizontal displacement but vertical motion dominates.
    assert!(matches!(
        swipe(anchor, [anchor[0] + f(SWIPE_DIST), 0.7], 0.3, 1.5),
        SwipeOutcome::Reanchor(_)
    ));
}
