//! The virtual input device: what it registers, and what it is fed.
//!
//! Codes and event kinds are those of the Linux input subsystem. The events are
//! plain records; the caller writes them to the device, batch by batch.
use vstd::prelude::*;

use crate::palm::SwipeDirection;
use crate::pinch::PinchButton;
use crate::scroll::ScrollDirection;

verus! {

/// Event kind that ends a batch.
pub const EV_SYN: u16 = 0x00;

/// Event kind of keys and buttons.
pub const EV_KEY: u16 = 0x01;

/// Event kind of relative axes.
pub const EV_REL: u16 = 0x02;

/// Event kind of absolute axes.
pub const EV_ABS: u16 = 0x03;

pub const SYN_REPORT: u16 = 0;

pub const REL_WHEEL: u16 = 0x08;

pub const ABS_X: u16 = 0x00;

pub const ABS_Y: u16 = 0x01;

pub const KEY_TAB: u16 = 15;

pub const KEY_W: u16 = 17;

pub const KEY_LEFTCTRL: u16 = 29;

pub const KEY_LEFTSHIFT: u16 = 42;

pub const KEY_LEFTALT: u16 = 56;

pub const KEY_LEFT: u16 = 105;

pub const KEY_RIGHT: u16 = 106;

pub const KEY_LEFTMETA: u16 = 125;

pub const BTN_LEFT: u16 = 0x110;

pub const BTN_RIGHT: u16 = 0x111;

pub const BTN_MIDDLE: u16 = 0x112;

pub const BTN_FORWARD: u16 = 0x115;

pub const BTN_BACK: u16 = 0x116;

/// How many key codes there are.
pub const KEY_CODES: u16 = 0x300;

/// A set of key codes, kept by `evdev::AttributeSet`.
#[verifier::external_body]
pub struct KeySet {
    set: evdev::AttributeSet<evdev::Key>,
}

/// The key codes in the set.
pub uninterp spec fn codes_in(keys: KeySet) -> Set<u16>;

impl KeySet {
    /// `evdev::AttributeSet::new`: the set holds nothing.
    #[verifier::external_body]
    fn new() -> (keys: KeySet)
        ensures
            codes_in(keys) == Set::<u16>::empty(),
    {
        KeySet { set: evdev::AttributeSet::new() }
    }

    /// `evdev::AttributeSetRef::insert`: the set holds this code too. It has room
    /// for the key codes that there are, and for no other number.
    #[verifier::external_body]
    fn insert(&mut self, code: u16)
        requires
            code < KEY_CODES,
        ensures
            codes_in(*final(self)) == codes_in(*old(self)).insert(code),
    {
        self.set.insert(evdev::Key::new(code))
    }

    /// `evdev::AttributeSetRef::iter`: hands out every code of the set, each once,
    /// in ascending order.
    #[verifier::external_body]
    fn listed(&self) -> (codes: Vec<u16>)
        ensures
            forall|c: u16| #[trigger] codes@.contains(c) <==> codes_in(*self).contains(c),
            forall|i: int, j: int| 0 <= i < j < codes@.len() ==> codes@[i] < codes@[j],
    {
        self.set.iter().map(|key| key.code()).collect()
    }
}

/// One event for the device.
#[derive(Clone, Copy, Debug, PartialEq, Eq, Structural)]
pub struct EventRecord {
    pub kind: u16,
    pub code: u16,
    pub value: i32,
}

/// The range of an absolute axis.
#[derive(Clone, Copy, Debug, PartialEq, Eq, Structural)]
pub struct AxisRange {
    pub code: u16,
    pub value: i32,
    pub minimum: i32,
    pub maximum: i32,
    pub fuzz: i32,
    pub flat: i32,
    pub resolution: i32,
}

/// A key that goes down or comes up.
#[derive(Clone, Copy, Debug, PartialEq, Eq, Structural)]
pub struct KeyStroke {
    pub code: u16,
    pub pressed: bool,
}

/// A mouse button.
#[derive(Clone, Copy, Debug, PartialEq, Eq, Structural)]
pub enum MouseButton {
    Left,
    Middle,
    Right,
    Back,
    Forward,
    ScrollUp,
    ScrollDown,
    ScrollLeft,
    ScrollRight,
}

/// Modifiers to hold down, and the key to strike meanwhile.
pub struct KeyCombo {
    pub modifiers: Vec<u16>,
    pub key: u16,
}

/// The event that ends a batch.
pub open spec fn report() -> EventRecord {
    EventRecord { kind: EV_SYN, code: SYN_REPORT, value: 0 }
}

/// The batch for a key that goes down or comes up.
pub open spec fn key_batch(stroke: KeyStroke) -> Seq<EventRecord> {
    seq![
        EventRecord {
            kind: EV_KEY,
            code: stroke.code,
            value: if stroke.pressed {
                1
            } else {
                0
            },
        },
        report(),
    ]
}

/// The batch for a cursor that goes to this pixel.
pub open spec fn move_batch(x: i32, y: i32) -> Seq<EventRecord> {
    seq![
        EventRecord { kind: EV_ABS, code: ABS_X, value: x },
        EventRecord { kind: EV_ABS, code: ABS_Y, value: y },
        report(),
    ]
}

/// How far a tick turns the wheel: away from the user is up.
pub open spec fn wheel_of(direction: ScrollDirection) -> int {
    match direction {
        ScrollDirection::Up => 1,
        ScrollDirection::Down => -1,
    }
}

/// The batch for a tick of the wheel.
pub open spec fn wheel_batch(direction: ScrollDirection) -> Seq<EventRecord> {
    seq![
        EventRecord { kind: EV_REL, code: REL_WHEEL, value: wheel_of(direction) as i32 },
        report(),
    ]
}

/// The batches of a sequence of strokes.
pub open spec fn batches_of(strokes: Seq<KeyStroke>) -> Seq<Seq<EventRecord>> {
    strokes.map_values(|s: KeyStroke| key_batch(s))
}

/// Batches, each taken by its events.
pub open spec fn unwrapped(batches: Seq<Vec<EventRecord>>) -> Seq<Seq<EventRecord>> {
    batches.map_values(|b: Vec<EventRecord>| b@)
}

/// The key goes down.
pub open spec fn press(code: u16) -> KeyStroke {
    KeyStroke { code, pressed: true }
}

/// The key comes up.
pub open spec fn release(code: u16) -> KeyStroke {
    KeyStroke { code, pressed: false }
}

/// The code of a button; the wheel's buttons have none, and count as the left one.
pub open spec fn code_of(button: MouseButton) -> u16 {
    match button {
        MouseButton::Left => BTN_LEFT,
        MouseButton::Right => BTN_RIGHT,
        MouseButton::Middle => BTN_MIDDLE,
        MouseButton::Back => BTN_BACK,
        MouseButton::Forward => BTN_FORWARD,
        _ => BTN_LEFT,
    }
}

/// The strokes of a combination: the modifiers go down in order, the key is struck,
/// and the modifiers come up in reverse order.
pub open spec fn strokes_of(modifiers: Seq<u16>, key: u16) -> Seq<KeyStroke> {
    modifiers.map_values(|m: u16| press(m)) + seq![press(key), release(key)]
        + modifiers.reverse().map_values(|m: u16| release(m))
}

/// The codes that the device registers.
pub open spec fn registered() -> Set<u16> {
    set![
        BTN_LEFT,
        BTN_RIGHT,
        KEY_LEFTCTRL,
        KEY_LEFTSHIFT,
        KEY_LEFTALT,
        KEY_TAB,
        KEY_W,
        KEY_LEFT,
        KEY_RIGHT,
    ]
}

/// An axis from zero to this maximum.
pub open spec fn axis_to(code: u16, maximum: i32) -> AxisRange {
    AxisRange { code, value: 0, minimum: 0, maximum, fuzz: 0, flat: 0, resolution: 1 }
}

/// What the virtual device registers: a pointer on a screen of a given size, with
/// buttons, a wheel and a few keys.
pub struct VirtualInput {
    pub name: String,
    pub x_axis: AxisRange,
    pub y_axis: AxisRange,
    pub relative_axes: Vec<u16>,
    pub keys: KeySet,
}

impl VirtualInput {
    /// Describes the device for a screen of this size.
    pub fn new(name: &str, width: i32, height: i32) -> (device: VirtualInput)
        ensures
            device.name@ == name@,
            device.x_axis == axis_to(ABS_X, width),
            device.y_axis == axis_to(ABS_Y, height),
            device.relative_axes@ == seq![REL_WHEEL],
            codes_in(device.keys) == registered(),
    {
        let mut keys = KeySet::new();
        keys.insert(BTN_LEFT);
        keys.insert(BTN_RIGHT);
        keys.insert(KEY_LEFTCTRL);
        keys.insert(KEY_LEFTSHIFT);
        keys.insert(KEY_LEFTALT);
        keys.insert(KEY_TAB);
        keys.insert(KEY_W);
        keys.insert(KEY_LEFT);
        keys.insert(KEY_RIGHT);
        assert(codes_in(keys) =~= registered());
        let x_axis = AxisRange {
            code: ABS_X,
            value: 0,
            minimum: 0,
            maximum: width,
            fuzz: 0,
            flat: 0,
            resolution: 1,
        };
        let y_axis = AxisRange {
            code: ABS_Y,
            value: 0,
            minimum: 0,
            maximum: height,
            fuzz: 0,
            flat: 0,
            resolution: 1,
        };
        VirtualInput {
            name: name.to_owned(),
            x_axis,
            y_axis,
            relative_axes: vec![REL_WHEEL],
            keys,
        }
    }

    /// The codes that the device registers, in ascending order.
    pub fn key_codes(&self) -> (codes: Vec<u16>)
        ensures
            forall|c: u16| #[trigger] codes@.contains(c) <==> codes_in(self.keys).contains(c),
            forall|i: int, j: int| 0 <= i < j < codes@.len() ==> codes@[i] < codes@[j],
    {
        self.keys.listed()
    }

    /// The batch that moves the cursor to this pixel.
    pub fn move_mouse(&self, x: i32, y: i32) -> (batch: Vec<EventRecord>)
        ensures
            batch@ == move_batch(x, y),
    {
        vec![
            EventRecord { kind: EV_ABS, code: ABS_X, value: x },
            EventRecord { kind: EV_ABS, code: ABS_Y, value: y },
            EventRecord { kind: EV_SYN, code: SYN_REPORT, value: 0 },
        ]
    }

    /// The batch that turns the wheel by one tick.
    pub fn scroll(&self, direction: ScrollDirection) -> (batch: Vec<EventRecord>)
        ensures
            batch@ == wheel_batch(direction),
    {
        let value: i32 = match direction {
            ScrollDirection::Up => 1,
            ScrollDirection::Down => -1,
        };
        vec![
            EventRecord { kind: EV_REL, code: REL_WHEEL, value },
            EventRecord { kind: EV_SYN, code: SYN_REPORT, value: 0 },
        ]
    }

    /// The batches that click a button.
    pub fn button_click(&self, button: MouseButton) -> (batches: Vec<Vec<EventRecord>>)
        ensures
            unwrapped(batches@) == batches_of(seq![press(code_of(button)), release(code_of(button))]),
    {
        let code: u16 = button_code(button);
        let batches = vec![
            key_event(KeyStroke { code, pressed: true }),
            key_event(KeyStroke { code, pressed: false }),
        ];
        assert(unwrapped(batches@) =~= batches_of(seq![press(code), release(code)]));
        batches
    }

    /// The batches that strike a key while modifiers are held down.
    pub fn key_combo(&self, combo: &KeyCombo) -> (batches: Vec<Vec<EventRecord>>)
        ensures
            unwrapped(batches@) == batches_of(strokes_of(combo.modifiers@, combo.key)),
    {
        let strokes = combo_strokes(combo);
        let mut batches: Vec<Vec<EventRecord>> = Vec::new();
        let mut i: usize = 0;
        while i < strokes.len()
            invariant
                i <= strokes.len(),
                batches@.len() == i,
                forall|j: int| 0 <= j < i ==> (#[trigger] batches@[j])@ == key_batch(strokes@[j]),
            decreases strokes.len() - i,
        {
            batches.push(key_event(strokes[i]));
            i = i + 1;
        }
        assert(unwrapped(batches@) =~= batches_of(strokes@));
        batches
    }
}

/// The code of a button.
pub fn button_code(button: MouseButton) -> (code: u16)
    ensures
        code == code_of(button),
{
    match button {
        MouseButton::Left => BTN_LEFT,
        MouseButton::Right => BTN_RIGHT,
        MouseButton::Middle => BTN_MIDDLE,
        MouseButton::Back => BTN_BACK,
        MouseButton::Forward => BTN_FORWARD,
        _ => BTN_LEFT,
    }
}

/// The batch for a key that goes down or comes up.
pub fn key_event(stroke: KeyStroke) -> (batch: Vec<EventRecord>)
    ensures
        batch@ == key_batch(stroke),
{
    let value: i32 = if stroke.pressed {
        1
    } else {
        0
    };
    vec![
        EventRecord { kind: EV_KEY, code: stroke.code, value },
        EventRecord { kind: EV_SYN, code: SYN_REPORT, value: 0 },
    ]
}

/// The strokes of a combination.
pub fn combo_strokes(combo: &KeyCombo) -> (strokes: Vec<KeyStroke>)
    ensures
        strokes@ == strokes_of(combo.modifiers@, combo.key),
{
    let mut strokes: Vec<KeyStroke> = Vec::new();
    let count: usize = combo.modifiers.len();
    let mut i: usize = 0;
    while i < count
        invariant
            i <= count,
            count == combo.modifiers.len(),
            strokes@ == combo.modifiers@.take(i as int).map_values(|m: u16| press(m)),
        decreases count - i,
    {
        let code = combo.modifiers[i];
        strokes.push(KeyStroke { code, pressed: true });
        assert(strokes@ =~= combo.modifiers@.take(i + 1).map_values(|m: u16| press(m)));
        i = i + 1;
    }
    assert(combo.modifiers@.take(count as int) == combo.modifiers@);
    strokes.push(KeyStroke { code: combo.key, pressed: true });
    strokes.push(KeyStroke { code: combo.key, pressed: false });
    let ghost down = combo.modifiers@.map_values(|m: u16| press(m)) + seq![
        press(combo.key),
        release(combo.key),
    ];
    let ghost up = combo.modifiers@.reverse().map_values(|m: u16| release(m));
    assert(strokes@ =~= down);
    let mut left: usize = count;
    while left > 0
        invariant
            left <= count,
            count == combo.modifiers.len(),
            up == combo.modifiers@.reverse().map_values(|m: u16| release(m)),
            strokes@ == down + up.take(count - left),
        decreases left,
    {
        left = left - 1;
        let code = combo.modifiers[left];
        strokes.push(KeyStroke { code, pressed: false });
        assert(up[count - left - 1] == release(code));
        assert(strokes@ =~= down + up.take(count - left));
    }
    assert(up.take(count as int) == up);
    strokes
}

/// The combination that closes a tab.
pub fn close_tab_combo() -> (combo: KeyCombo)
    ensures
        combo.modifiers@ == seq![KEY_LEFTCTRL],
        combo.key == KEY_W,
{
    KeyCombo { modifiers: vec![KEY_LEFTCTRL], key: KEY_W }
}

/// The key of a workspace switch.
pub open spec fn arrow_key(direction: SwipeDirection) -> u16 {
    match direction {
        SwipeDirection::Left => KEY_LEFT,
        SwipeDirection::Right => KEY_RIGHT,
    }
}

/// The combination that switches the workspace.
pub fn workspace_combo(direction: SwipeDirection) -> (combo: KeyCombo)
    ensures
        combo.modifiers@ == seq![KEY_LEFTCTRL, KEY_LEFTALT],
        combo.key == arrow_key(direction),
{
    let key: u16 = match direction {
        SwipeDirection::Left => KEY_LEFT,
        SwipeDirection::Right => KEY_RIGHT,
    };
    KeyCombo { modifiers: vec![KEY_LEFTCTRL, KEY_LEFTALT], key }
}

/// The mouse button of a pinch.
pub open spec fn button_of(button: PinchButton) -> MouseButton {
    match button {
        PinchButton::Left => MouseButton::Left,
        PinchButton::Right => MouseButton::Right,
    }
}

/// The mouse button of a pinch.
pub fn pinch_mouse_button(button: PinchButton) -> (result: MouseButton)
    ensures
        result == button_of(button),
{
    match button {
        PinchButton::Left => MouseButton::Left,
        PinchButton::Right => MouseButton::Right,
    }
}

/// A key as the portable input library names it.
#[derive(Clone, Copy, Debug, PartialEq, Eq, Structural)]
pub enum FallbackKey {
    Control,
    Shift,
    Alt,
    Meta,
    Tab,
    Unicode(char),
}

/// The portable key for a code, where there is one.
pub open spec fn fallback_of(code: u16) -> Option<FallbackKey> {
    if code == KEY_LEFTCTRL {
        Some(FallbackKey::Control)
    } else if code == KEY_LEFTSHIFT {
        Some(FallbackKey::Shift)
    } else if code == KEY_LEFTALT {
        Some(FallbackKey::Alt)
    } else if code == KEY_LEFTMETA {
        Some(FallbackKey::Meta)
    } else if code == KEY_TAB {
        Some(FallbackKey::Tab)
    } else if code == KEY_W {
        Some(FallbackKey::Unicode('w'))
    } else {
        None
    }
}

/// The portable key for a code, where there is one.
pub fn evdev_to_enigo_key(code: u16) -> (key: Option<FallbackKey>)
    ensures
        key == fallback_of(code),
{
    if code == KEY_LEFTCTRL {
        Some(FallbackKey::Control)
    } else if code == KEY_LEFTSHIFT {
        Some(FallbackKey::Shift)
    } else if code == KEY_LEFTALT {
        Some(FallbackKey::Alt)
    } else if code == KEY_LEFTMETA {
        Some(FallbackKey::Meta)
    } else if code == KEY_TAB {
        Some(FallbackKey::Tab)
    } else if code == KEY_W {
        Some(FallbackKey::Unicode('w'))
    } else {
        None
    }
}

/// What is done to a portable key.
#[derive(Clone, Copy, Debug, PartialEq, Eq, Structural)]
pub enum FallbackAction {
    Press,
    Click,
    Release,
}

/// A stroke of a portable key.
#[derive(Clone, Copy, Debug, PartialEq, Eq, Structural)]
pub struct FallbackStroke {
    pub key: FallbackKey,
    pub action: FallbackAction,
}

/// Strokes to make in order, and the code that stops them, if one has no portable
/// key.
pub struct FallbackPlan {
    pub strokes: Vec<FallbackStroke>,
    pub unsupported: Option<u16>,
}

/// How many codes from the front on have a portable key.
pub open spec fn supported_prefix(codes: Seq<u16>) -> nat
    decreases codes.len(),
{
    if codes.len() == 0 || fallback_of(codes[0]) is None {
        0
    } else {
        1 + supported_prefix(codes.drop_first())
    }
}

/// The same action on the portable keys of codes.
pub open spec fn fallback_strokes(codes: Seq<u16>, action: FallbackAction) -> Seq<FallbackStroke> {
    codes.map_values(|c: u16| FallbackStroke { key: fallback_of(c)->0, action })
}

/// The strokes of a combination on portable keys. They stop at the first code
/// without a portable key.
pub open spec fn fallback_plan_of(modifiers: Seq<u16>, key: u16) -> (
    Seq<FallbackStroke>,
    Option<u16>,
) {
    let n = supported_prefix(modifiers) as int;
    let down = fallback_strokes(modifiers.take(n), FallbackAction::Press);
    if n < modifiers.len() {
        (down, Some(modifiers[n]))
    } else if fallback_of(key) is None {
        (down, Some(key))
    } else {
        (
            down + fallback_strokes(seq![key], FallbackAction::Click) + fallback_strokes(
                modifiers.reverse(),
                FallbackAction::Release,
            ),
            None,
        )
    }
}

proof fn lemma_supported_prefix(codes: Seq<u16>, n: int)
    requires
        0 <= n <= codes.len(),
        forall|i: int| 0 <= i < n ==> fallback_of(#[trigger] codes[i]) is Some,
    ensures
        supported_prefix(codes) >= n,
        supported_prefix(codes) <= codes.len(),
        n < codes.len() && fallback_of(codes[n]) is None ==> supported_prefix(codes) == n,
    decreases codes.len(),
{
    if codes.len() > 0 {
        let rest = codes.drop_first();
        if n > 0 {
            assert(fallback_of(codes[0]) is Some);
            assert forall|i: int| 0 <= i < n - 1 implies fallback_of(
                #[trigger] rest[i],
            ) is Some by {
                assert(rest[i] == codes[i + 1]);
            }
            lemma_supported_prefix(rest, n - 1);
        } else if fallback_of(codes[0]) is Some {
            lemma_supported_prefix(rest, 0);
        }
    }
}

/// Plans a combination on portable keys.
pub fn fallback_combo(combo: &KeyCombo) -> (plan: FallbackPlan)
    ensures
        (plan.strokes@, plan.unsupported) == fallback_plan_of(combo.modifiers@, combo.key),
{
    let mut strokes: Vec<FallbackStroke> = Vec::new();
    let ghost mods = combo.modifiers@;
    let count: usize = combo.modifiers.len();
    let mut i: usize = 0;
    while i < count
        invariant
            i <= count,
            count == combo.modifiers.len(),
            mods == combo.modifiers@,
            forall|j: int| 0 <= j < i ==> fallback_of(#[trigger] mods[j]) is Some,
            strokes@ == fallback_strokes(mods.take(i as int), FallbackAction::Press),
        decreases count - i,
    {
        let code = combo.modifiers[i];
        match evdev_to_enigo_key(code) {
            Some(key) => {
                strokes.push(FallbackStroke { key, action: FallbackAction::Press });
                assert(strokes@ =~= fallback_strokes(mods.take(i + 1), FallbackAction::Press));
            },
            None => {
                proof {
                    lemma_supported_prefix(mods, i as int);
                }
                return FallbackPlan { strokes, unsupported: Some(code) };
            },
        }
        i = i + 1;
    }
    proof {
        lemma_supported_prefix(mods, count as int);
    }
    match evdev_to_enigo_key(combo.key) {
        Some(key) => {
            strokes.push(FallbackStroke { key, action: FallbackAction::Click });
        },
        None => {
            return FallbackPlan { strokes, unsupported: Some(combo.key) };
        },
    }
    let ghost down = fallback_strokes(mods.take(count as int), FallbackAction::Press)
        + fallback_strokes(seq![combo.key], FallbackAction::Click);
    let ghost up = fallback_strokes(mods.reverse(), FallbackAction::Release);
    assert(strokes@ =~= down);
    let mut left: usize = count;
    while left > 0
        invariant
            left <= count,
            count == combo.modifiers.len(),
            mods == combo.modifiers@,
            forall|j: int| 0 <= j < count ==> fallback_of(#[trigger] mods[j]) is Some,
            up == fallback_strokes(mods.reverse(), FallbackAction::Release),
            strokes@ == down + up.take(count - left),
        decreases left,
    {
        left = left - 1;
        let code = combo.modifiers[left];
        assert(fallback_of(mods[left as int]) is Some);
        if let Some(key) = evdev_to_enigo_key(code) {
            strokes.push(FallbackStroke { key, action: FallbackAction::Release });
        }
        assert(up[count - left - 1] == (FallbackStroke {
            key: fallback_of(code)->0,
            action: FallbackAction::Release,
        }));
        assert(strokes@ =~= down + up.take(count - left));
    }
    assert(up.take(count as int) == up);
    FallbackPlan { strokes, unsupported: None }
}

/// How far the portable scroll call turns the wheel for a tick: it counts downwards.
pub fn fallback_scroll(direction: ScrollDirection) -> (length: i32)
    ensures
        length == -wheel_of(direction),
{
    match direction {
        ScrollDirection::Up => -1,
        ScrollDirection::Down => 1,
    }
}

/// A combination leaves no key behind: its strokes mirror each other, so that what
/// goes down first comes up last, and every key that goes down comes up.
pub proof fn law_combo_mirrors_itself(modifiers: Seq<u16>, key: u16, i: int)
    requires
        0 <= i <= modifiers.len(),
    ensures
        strokes_of(modifiers, key).len() == 2 * modifiers.len() + 2,
        strokes_of(modifiers, key)[i].pressed,
        strokes_of(modifiers, key)[strokes_of(modifiers, key).len() - 1 - i] == release(
            strokes_of(modifiers, key)[i].code,
        ),
{
}

/// Whatever a gesture presses is registered with the device.
pub proof fn law_pressed_keys_are_registered(direction: SwipeDirection, button: PinchButton)
    ensures
        registered().contains(KEY_LEFTCTRL),
        registered().contains(KEY_W),
        registered().contains(KEY_LEFTALT),
        registered().contains(arrow_key(direction)),
        registered().contains(code_of(button_of(button))),
{
}

/// Closing a tab works on portable keys too.
pub proof fn law_close_tab_has_portable_keys()
    ensures
        fallback_plan_of(seq![KEY_LEFTCTRL], KEY_W) == (
            seq![
                FallbackStroke { key: FallbackKey::Control, action: FallbackAction::Press },
                FallbackStroke { key: FallbackKey::Unicode('w'), action: FallbackAction::Click },
                FallbackStroke { key: FallbackKey::Control, action: FallbackAction::Release },
            ],
            None::<u16>,
        ),
{
    let modifiers = seq![KEY_LEFTCTRL];
    lemma_supported_prefix(modifiers, 1);
    assert(fallback_plan_of(modifiers, KEY_W).0 =~= seq![
        FallbackStroke { key: FallbackKey::Control, action: FallbackAction::Press },
        FallbackStroke { key: FallbackKey::Unicode('w'), action: FallbackAction::Click },
        FallbackStroke { key: FallbackKey::Control, action: FallbackAction::Release },
    ]);
}

/// A key goes down with 1 and comes up with 0, under its own code, and every batch ends
/// with a report.
pub proof fn law_batches_say_what_happens(code: u16, x: i32, y: i32)
    ensures
        key_batch(press(code)).len() == 2 && key_batch(release(code)).len() == 2,
        key_batch(press(code))[0] == (EventRecord { kind: 1, code, value: 1 }),
        key_batch(release(code))[0] == (EventRecord { kind: 1, code, value: 0 }),
        key_batch(press(code))[1] == (EventRecord { kind: 0, code: 0, value: 0 }),
        key_batch(release(code))[1] == (EventRecord { kind: 0, code: 0, value: 0 }),
        move_batch(x, y).len() == 3,
        move_batch(x, y)[0] == (EventRecord { kind: 3, code: 0, value: x }),
        move_batch(x, y)[1] == (EventRecord { kind: 3, code: 1, value: y }),
        move_batch(x, y)[2] == (EventRecord { kind: 0, code: 0, value: 0 }),
        wheel_batch(ScrollDirection::Up)[0] == (EventRecord { kind: 2, code: 8, value: 1 }),
        wheel_batch(ScrollDirection::Down)[0] == (EventRecord { kind: 2, code: 8, value: (-1) as i32 }),
        wheel_batch(ScrollDirection::Up).len() == 2 && wheel_batch(ScrollDirection::Down).len()
            == 2,
        wheel_batch(ScrollDirection::Up)[1] == (EventRecord { kind: 0, code: 0, value: 0 }),
        wheel_batch(ScrollDirection::Down)[1] == (EventRecord { kind: 0, code: 0, value: 0 }),
{
}

/// Strokes become batches one by one, in order.
pub proof fn law_strokes_are_batched_in_order(strokes: Seq<KeyStroke>, i: int)
    requires
        0 <= i < strokes.len(),
    ensures
        batches_of(strokes).len() == strokes.len(),
        batches_of(strokes)[i][0].code == strokes[i].code,
        batches_of(strokes)[i][0].value == 1 <==> strokes[i].pressed,
        batches_of(strokes)[i].last() == (EventRecord { kind: 0, code: 0, value: 0 }),
{
}

/// A combination presses its modifiers in order, strikes its key between, and releases
/// the modifiers in reverse order.
pub proof fn law_combo_holds_modifiers_around_the_key(modifiers: Seq<u16>, key: u16, i: int)
    requires
        0 <= i <= modifiers.len(),
    ensures
        ({
            let strokes = strokes_of(modifiers, key);
            let n = modifiers.len() as int;
            &&& strokes.len() == 2 * n + 2
            &&& strokes[n] == (KeyStroke { code: key, pressed: true })
            &&& strokes[n + 1] == (KeyStroke { code: key, pressed: false })
            &&& i < n ==> strokes[i] == (KeyStroke { code: modifiers[i], pressed: true })
            &&& i < n ==> strokes[2 * n + 1 - i] == (KeyStroke {
                code: modifiers[i],
                pressed: false,
            })
        }),
{
}

/// Buttons have codes of their own, but for those of the wheel, which count as the left
/// one; a pinch clicks the button it is named after.
pub proof fn law_buttons_have_their_codes(button: MouseButton)
    ensures
        code_of(MouseButton::Left) == 0x110,
        code_of(MouseButton::Right) == 0x111,
        code_of(MouseButton::Middle) == 0x112,
        code_of(MouseButton::Forward) == 0x115,
        code_of(MouseButton::Back) == 0x116,
        !(button is Right) && !(button is Middle) && !(button is Forward) && !(button is Back)
            ==> code_of(button) == 0x110,
        button_of(PinchButton::Left) == MouseButton::Left,
        button_of(PinchButton::Right) == MouseButton::Right,
        arrow_key(SwipeDirection::Left) == 105,
        arrow_key(SwipeDirection::Right) == 106,
{
}

/// The device registers the two buttons and the seven keys that gestures and their
/// modifiers need, and no other code; its axes run from zero to the screen's ends.
pub proof fn law_device_registers(code: u16, maximum: i32)
    ensures
        registered().contains(code) <==> (code == 0x110 || code == 0x111 || code == 29 || code
            == 42 || code == 56 || code == 15 || code == 17 || code == 105 || code == 106),
        axis_to(code, maximum) == (AxisRange {
            code,
            value: 0,
            minimum: 0,
            maximum,
            fuzz: 0,
            flat: 0,
            resolution: 1,
        }),
{
}

/// Which codes have a portable key: control, shift, alt, meta, tab and the letter w.
pub proof fn law_portable_keys(code: u16)
    ensures
        fallback_of(code) == Some(FallbackKey::Control) <==> code == 29,
        fallback_of(code) == Some(FallbackKey::Shift) <==> code == 42,
        fallback_of(code) == Some(FallbackKey::Alt) <==> code == 56,
        fallback_of(code) == Some(FallbackKey::Meta) <==> code == 125,
        fallback_of(code) == Some(FallbackKey::Tab) <==> code == 15,
        fallback_of(code) == Some(FallbackKey::Unicode('w')) <==> code == 17,
        fallback_of(code) is None <==> code != 29 && code != 42 && code != 56 && code != 125
            && code != 15 && code != 17,
{
}

/// On portable keys, a combination that has them presses its modifiers in order, clicks
/// its key, and releases the modifiers in reverse order.
pub proof fn law_portable_combo_mirrors_itself(modifiers: Seq<u16>, key: u16, i: int)
    requires
        forall|x: int| 0 <= x < modifiers.len() ==> fallback_of(#[trigger] modifiers[x]) is Some,
        fallback_of(key) is Some,
        0 <= i <= modifiers.len(),
    ensures
        ({
            let (strokes, unsupported) = fallback_plan_of(modifiers, key);
            let n = modifiers.len() as int;
            &&& unsupported is None
            &&& strokes.len() == 2 * n + 1
            &&& strokes[n] == (FallbackStroke {
                key: fallback_of(key)->0,
                action: FallbackAction::Click,
            })
            &&& i < n ==> strokes[i] == (FallbackStroke {
                key: fallback_of(modifiers[i])->0,
                action: FallbackAction::Press,
            })
            &&& i < n ==> strokes[2 * n - i] == (FallbackStroke {
                key: fallback_of(modifiers[i])->0,
                action: FallbackAction::Release,
            })
        }),
{
    lemma_supported_prefix(modifiers, modifiers.len() as int);
    assert(modifiers.take(modifiers.len() as int) == modifiers);
}

/// A code without a portable key stops the combination: the modifiers before the first
/// such one are pressed, nothing follows, and that code is named.
pub proof fn law_unsupported_key_stops_the_combo(modifiers: Seq<u16>, key: u16, n: int, i: int)
    requires
        0 <= n <= modifiers.len(),
        forall|x: int| 0 <= x < n ==> fallback_of(#[trigger] modifiers[x]) is Some,
        n < modifiers.len() ==> fallback_of(modifiers[n]) is None,
        n == modifiers.len() ==> fallback_of(key) is None,
        0 <= i <= n,
    ensures
        ({
            let (strokes, unsupported) = fallback_plan_of(modifiers, key);
            &&& unsupported == Some(
                if n < modifiers.len() {
                    modifiers[n]
                } else {
                    key
                },
            )
            &&& strokes.len() == n
            &&& i < n ==> strokes[i] == (FallbackStroke {
                key: fallback_of(modifiers[i])->0,
                action: FallbackAction::Press,
            })
        }),
{
    lemma_supported_prefix(modifiers, n);
}

} // verus!
