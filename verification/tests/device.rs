use air_mouse::commands::{
    adjust_volume, decimal_text, find_backend, poweroff, switch_workspace, Backend, BackendStep,
    Probes, ShellCommand, Tool,
};
use air_mouse::input::{
    button_code, close_tab_combo, combo_strokes, evdev_to_enigo_key, fallback_combo,
    fallback_scroll, key_event, pinch_mouse_button, workspace_combo, EventRecord, FallbackAction,
    FallbackKey, FallbackStroke, KeyCombo, KeyStroke, MouseButton, VirtualInput,
};
use air_mouse::input;
use air_mouse::options::Options;
use air_mouse::palm::SwipeDirection;
use air_mouse::pinch::PinchButton;
use air_mouse::scroll::ScrollDirection;
use evdev::{AbsoluteAxisType, EventType, Key, RelativeAxisType, Synchronization};

#[test]
fn codes_are_those_of_the_device_library() {
    assert_eq!(input::EV_SYN, EventType::SYNCHRONIZATION.0);
    assert_eq!(input::EV_KEY, EventType::KEY.0);
    assert_eq!(input::EV_REL, EventType::RELATIVE.0);
    assert_eq!(input::EV_ABS, EventType::ABSOLUTE.0);
    assert_eq!(input::SYN_REPORT, Synchronization::SYN_REPORT.0);
    assert_eq!(input::ABS_X, AbsoluteAxisType::ABS_X.0);
    assert_eq!(input::ABS_Y, AbsoluteAxisType::ABS_Y.0);
    assert_eq!(input::REL_WHEEL, RelativeAxisType::REL_WHEEL.0);
    let keys = [
        (input::KEY_TAB, Key::KEY_TAB),
        (input::KEY_W, Key::KEY_W),
        (input::KEY_LEFTCTRL, Key::KEY_LEFTCTRL),
        (input::KEY_LEFTSHIFT, Key::KEY_LEFTSHIFT),
        (input::KEY_LEFTALT, Key::KEY_LEFTALT),
        (input::KEY_LEFTMETA, Key::KEY_LEFTMETA),
        (input::KEY_LEFT, Key::KEY_LEFT),
        (input::KEY_RIGHT, Key::KEY_RIGHT),
        (input::BTN_LEFT, Key::BTN_LEFT),
        (input::BTN_RIGHT, Key::BTN_RIGHT),
        (input::BTN_MIDDLE, Key::BTN_MIDDLE),
        (input::BTN_BACK, Key::BTN_BACK),
        (input::BTN_FORWARD, Key::BTN_FORWARD),
    ];
    for (code, key) in keys {
        assert_eq!(code, key.code());
    }
}

#[test]
fn device_registers_pointer_and_keys() {
    let device = VirtualInput::new("pointer", 1920, 1080);
    assert_eq!(device.name, "pointer");
    assert_eq!((device.x_axis.code, device.x_axis.minimum, device.x_axis.maximum), (0, 0, 1920));
    assert_eq!((device.y_axis.code, device.y_axis.minimum, device.y_axis.maximum), (1, 0, 1080));
    assert_eq!((device.x_axis.value, device.x_axis.fuzz, device.x_axis.flat), (0, 0, 0));
    assert_eq!(device.x_axis.resolution, 1);
    assert_eq!(device.relative_axes, vec![8]);
    // Registered in no particular order, listed in ascending order, each once.
    assert_eq!(device.key_codes(), vec![15, 17, 29, 42, 56, 105, 106, 0x110, 0x111]);
}

fn record(kind: u16, code: u16, value: i32) -> EventRecord {
    EventRecord { kind, code, value }
}

#[test]
fn events_move_click_and_scroll() {
    let device = VirtualInput::new("pointer", 100, 100);
    assert_eq!(device.move_mouse(7, -3), vec![record(3, 0, 7), record(3, 1, -3), record(0, 0, 0)]);
    assert_eq!(
        device.button_click(MouseButton::Right),
        vec![
            vec![record(1, 0x111, 1), record(0, 0, 0)],
            vec![record(1, 0x111, 0), record(0, 0, 0)],
        ]
    );
    // Away from the user is up.
    assert_eq!(device.scroll(ScrollDirection::Up), vec![record(2, 8, 1), record(0, 0, 0)]);
    assert_eq!(device.scroll(ScrollDirection::Down), vec![record(2, 8, -1), record(0, 0, 0)]);
    // The portable call counts downwards.
    assert_eq!(fallback_scroll(ScrollDirection::Down), 1);
    assert_eq!(fallback_scroll(ScrollDirection::Up), -1);
}

#[test]
fn button_codes() {
    assert_eq!(button_code(MouseButton::Left), 0x110);
    assert_eq!(button_code(MouseButton::Middle), 0x112);
    assert_eq!(button_code(MouseButton::Back), 0x116);
    assert_eq!(button_code(MouseButton::Forward), 0x115);
    assert_eq!(button_code(MouseButton::ScrollLeft), 0x110);
    assert_eq!(pinch_mouse_button(PinchButton::Left), MouseButton::Left);
    assert_eq!(pinch_mouse_button(PinchButton::Right), MouseButton::Right);
}

#[test]
fn combo_releases_in_reverse_order() {
    let stroke = |code: u16, pressed: bool| KeyStroke { code, pressed };
    let combo = workspace_combo(SwipeDirection::Left);
    assert_eq!(
        combo_strokes(&combo),
        vec![
            stroke(29, true),
            stroke(56, true),
            stroke(105, true),
            stroke(105, false),
            stroke(56, false),
            stroke(29, false),
        ]
    );
    assert_eq!(workspace_combo(SwipeDirection::Right).key, 106);
    let device = VirtualInput::new("pointer", 100, 100);
    let close = close_tab_combo();
    let batches = device.key_combo(&close);
    let expected: Vec<Vec<EventRecord>> = combo_strokes(&close).into_iter().map(key_event).collect();
    assert_eq!(batches, expected);
    assert_eq!(batches.len(), 4);
    assert_eq!(batches[1], vec![record(1, 17, 1), record(0, 0, 0)]);
}

#[test]
fn fallback_keys() {
    assert_eq!(evdev_to_enigo_key(29), Some(FallbackKey::Control));
    assert_eq!(evdev_to_enigo_key(42), Some(FallbackKey::Shift));
    assert_eq!(evdev_to_enigo_key(56), Some(FallbackKey::Alt));
    assert_eq!(evdev_to_enigo_key(125), Some(FallbackKey::Meta));
    assert_eq!(evdev_to_enigo_key(15), Some(FallbackKey::Tab));
    assert_eq!(evdev_to_enigo_key(17), Some(FallbackKey::Unicode('w')));
    assert_eq!(evdev_to_enigo_key(105), None);
    let stroke = |key: FallbackKey, action: FallbackAction| FallbackStroke { key, action };
    let plan = fallback_combo(&close_tab_combo());
    assert_eq!(plan.unsupported, None);
    assert_eq!(
        plan.strokes,
        vec![
            stroke(FallbackKey::Control, FallbackAction::Press),
            stroke(FallbackKey::Unicode('w'), FallbackAction::Click),
            stroke(FallbackKey::Control, FallbackAction::Release),
        ]
    );
}

#[test]
fn fallback_stops_at_unsupported_key() {
    // The arrow has no portable key: the modifiers are already down by then.
    let plan = fallback_combo(&workspace_combo(SwipeDirection::Left));
    assert_eq!(plan.unsupported, Some(105));
    assert_eq!(plan.strokes.len(), 2);
    // A modifier without a portable key stops the ones behind it.
    let plan = fallback_combo(&KeyCombo { modifiers: vec![29, 106, 56], key: 17 });
    assert_eq!(plan.unsupported, Some(106));
    assert_eq!(plan.strokes.len(), 1);
}

fn line(c: &ShellCommand) -> String {
    let mut out = c.program.clone();
    for a in &c.args {
        out.push(' ');
        out.push_str(a);
    }
    out
}

#[test]
fn volume_commands() {
    assert_eq!(line(&adjust_volume(true, 5)), "pactl set-sink-volume @DEFAULT_SINK@ +5%");
    assert_eq!(line(&adjust_volume(false, 120)), "pactl set-sink-volume @DEFAULT_SINK@ -120%");
    for n in [0u32, 7, 10, 99, 1000, 4_294_967_295] {
        assert_eq!(decimal_text(n), n.to_string());
    }
}

#[test]
fn workspace_commands() {
    let text = |b: Backend, d: SwipeDirection| switch_workspace(b, d).map(|c| line(&c));
    let (l, r) = (SwipeDirection::Left, SwipeDirection::Right);
    assert_eq!(text(Backend::Hyprland, l).unwrap(), "hyprctl dispatch workspace e-1");
    assert_eq!(text(Backend::Hyprland, r).unwrap(), "hyprctl dispatch workspace e+1");
    assert_eq!(text(Backend::Hyprctl, l).unwrap(), "hyprctl dispatch workspace -1");
    assert_eq!(text(Backend::Hyprctl, r).unwrap(), "hyprctl dispatch workspace +1");
    assert_eq!(text(Backend::Xdotool, l).unwrap(), "xdotool set_desktop --relative -1");
    assert_eq!(text(Backend::Xdotool, r).unwrap(), "xdotool set_desktop --relative +1");
    assert_eq!(text(Backend::Sway, l).unwrap(), "swaymsg workspace prev");
    assert_eq!(text(Backend::Sway, r).unwrap(), "swaymsg workspace next");
    assert_eq!(text(Backend::Device, r), None);
}

/// The search on a machine with these tools, and what it asked about.
fn search(hyprland: bool, device: bool, tools: &[Tool]) -> (BackendStep, Vec<Tool>) {
    let mut probes = Probes::none();
    let mut asked = vec![];
    loop {
        match find_backend(hyprland, device, probes) {
            BackendStep::Ask(tool) => {
                asked.push(tool);
                probes.note(tool, tools.contains(&tool));
            }
            step => return (step, asked),
        }
    }
}

#[test]
fn backend_search() {
    let used = |b: Backend| BackendStep::Use(b);
    let (hypr, xdo, sway) = (Tool::Hyprctl, Tool::Xdotool, Tool::Swaymsg);
    let all = [hypr, xdo, sway];
    assert_eq!(search(true, true, &all), (used(Backend::Hyprland), vec![hypr]));
    assert_eq!(search(true, true, &[xdo, sway]), (used(Backend::Device), vec![hypr]));
    assert_eq!(search(false, true, &all), (used(Backend::Device), vec![]));
    assert_eq!(search(false, false, &all), (used(Backend::Hyprctl), vec![hypr]));
    assert_eq!(search(false, false, &[xdo, sway]), (used(Backend::Xdotool), vec![hypr, xdo]));
    assert_eq!(search(false, false, &[sway]), (used(Backend::Sway), vec![hypr, xdo, sway]));
    assert_eq!(search(true, false, &[sway]), (used(Backend::Sway), vec![hypr, xdo, sway]));
    assert_eq!(search(true, false, &[]), (BackendStep::Missing, vec![hypr, xdo, sway]));
    assert_eq!(sway.program(), "swaymsg");
    assert_eq!(hypr.program(), "hyprctl");
    assert_eq!(xdo.program(), "xdotool");
}

#[test]
fn poweroff_attempts() {
    assert_eq!(line(&poweroff(0).unwrap()), "systemctl poweroff");
    assert_eq!(line(&poweroff(1).unwrap()), "shutdown -h now");
    assert_eq!(line(&poweroff(2).unwrap()), "poweroff");
    assert!(poweroff(3).is_none());
}

fn args(text: &str) -> Vec<String> {
    text.split(' ').map(|a| a.to_string()).collect()
}

#[test]
fn options_are_read() {
    let o = Options::parse(&args("air-mouse"));
    assert!(!o.dry_run && !o.debug && !o.preview && !o.no_voice);
    assert_eq!(o.camera, "0");
    assert_eq!(o.tracker_args(), args("tracker.py --camera 0"));
    let o = Options::parse(&args("air-mouse --preview --camera 2 --debug --no-voice --dry-run x"));
    assert!(o.dry_run && o.debug && o.preview && o.no_voice);
    assert_eq!(o.camera, "2");
    assert_eq!(o.tracker_args(), args("tracker.py --camera 2 --preview"));
    // Nothing behind it, and only the first one counts.
    assert_eq!(Options::parse(&args("air-mouse --camera")).camera, "0");
    assert_eq!(Options::parse(&args("air-mouse --camera 1 --camera 3")).camera, "1");
}
