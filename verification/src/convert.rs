//! Conversions from what the windowing layer reports to what the
//! interface understands.

use vstd::prelude::*;
use crate::geometry::Point;

verus! {

/// A mouse button as the windowing layer reports it.
#[derive(Clone, Copy, Debug, PartialEq, Eq, Structural)]
pub enum MouseButton {
    Left,
    Middle,
    Right,
    Unknown,
}

/// A mouse button that the interface knows.
#[derive(Clone, Copy, Debug, PartialEq, Eq, Structural)]
pub enum Button {
    Left,
    Middle,
    Right,
}

/// The modifier keys that are held, as the windowing layer reports them.
#[derive(Clone, Copy, Debug, PartialEq, Eq, Structural)]
pub struct KeyMods {
    pub shift: bool,
    pub ctrl: bool,
    pub alt: bool,
    pub logo: bool,
}

/// The modifier keys that are held, as a set of bits.
#[derive(Clone, Copy, Debug, PartialEq, Eq, Structural)]
pub struct Modifiers {
    pub bits: u32,
}

/// The bit of the shift key.
pub const SHIFT: u32 = 0x4;

/// The bit of the control key.
pub const CTRL: u32 = 0x20;

/// The bit of the alt key.
pub const ALT: u32 = 0x100;

/// The bit of the logo key.
pub const LOGO: u32 = 0x800;

/// The phase of a touch as the windowing layer reports it.
#[derive(Clone, Copy, Debug, PartialEq, Eq, Structural)]
pub enum TouchPhase {
    Started,
    Moved,
    Ended,
    Cancelled,
}

/// What a finger did.
#[derive(Clone, Copy, Debug, PartialEq, Eq, Structural)]
pub enum TouchEvent {
    FingerPressed { id: u64, position: Point },
    FingerMoved { id: u64, position: Point },
    FingerLifted { id: u64, position: Point },
    FingerLost { id: u64, position: Point },
}

/// A key as the windowing layer reports it.
#[derive(Clone, Copy, Debug, PartialEq, Eq, Structural)]
pub enum KeyCode {
    Space,
    Apostrophe,
    Comma,
    Minus,
    Period,
    Slash,
    Key0,
    Key1,
    Key2,
    Key3,
    Key4,
    Key5,
    Key6,
    Key7,
    Key8,
    Key9,
    Semicolon,
    Equal,
    A,
    B,
    C,
    D,
    E,
    F,
    G,
    H,
    I,
    J,
    K,
    L,
    M,
    N,
    O,
    P,
    Q,
    R,
    S,
    T,
    U,
    V,
    W,
    X,
    Y,
    Z,
    LeftBracket,
    Backslash,
    RightBracket,
    GraveAccent,
    World1,
    World2,
    Escape,
    Enter,
    Tab,
    Backspace,
    Insert,
    Delete,
    Right,
    Left,
    Down,
    Up,
    PageUp,
    PageDown,
    Home,
    End,
    CapsLock,
    ScrollLock,
    NumLock,
    PrintScreen,
    Pause,
    F1,
    F2,
    F3,
    F4,
    F5,
    F6,
    F7,
    F8,
    F9,
    F10,
    F11,
    F12,
    F13,
    F14,
    F15,
    F16,
    F17,
    F18,
    F19,
    F20,
    F21,
    F22,
    F23,
    F24,
    F25,
    Kp0,
    Kp1,
    Kp2,
    Kp3,
    Kp4,
    Kp5,
    Kp6,
    Kp7,
    Kp8,
    Kp9,
    KpDecimal,
    KpDivide,
    KpMultiply,
    KpSubtract,
    KpAdd,
    KpEnter,
    KpEqual,
    LeftShift,
    LeftControl,
    LeftAlt,
    LeftSuper,
    RightShift,
    RightControl,
    RightAlt,
    RightSuper,
    Menu,
    Back,
    Unknown,
}

/// A key that has a name instead of a character.
#[derive(Clone, Copy, Debug, PartialEq, Eq, Structural)]
pub enum Named {
    Space,
    Escape,
    Enter,
    Tab,
    Backspace,
    Insert,
    Delete,
    ArrowRight,
    ArrowLeft,
    ArrowDown,
    ArrowUp,
    PageUp,
    PageDown,
    Home,
    End,
    CapsLock,
    ScrollLock,
    NumLock,
    PrintScreen,
    MediaPause,
    F1,
    F2,
    F3,
    F4,
    F5,
    F6,
    F7,
    F8,
    F9,
    F10,
    F11,
    F12,
    F13,
    F14,
    F15,
    F16,
    F17,
    F18,
    F19,
    F20,
    F21,
    F22,
    F23,
    F24,
    F25,
    Shift,
    Control,
    Alt,
    Super,
}

/// A key as the interface understands it.
#[derive(Clone, Copy, Debug, PartialEq, Eq, Structural)]
pub enum Key {
    Named(Named),
    Character(char),
    Unidentified,
}

/// Where on the keyboard a key sits.
#[derive(Clone, Copy, Debug, PartialEq, Eq, Structural)]
pub enum Location {
    Standard,
    Left,
    Right,
    Numpad,
}

/// Whether `chr` lies in one of the three private use areas.
pub open spec fn in_private_use_area(chr: char) -> bool {
    ||| 0xe000 <= chr as u32 <= 0xf8ff
    ||| 0xf0000 <= chr as u32 <= 0xffffd
    ||| 0x100000 <= chr as u32 <= 0x10fffd
}

/// Whether `chr` is a control character of ASCII.
pub open spec fn is_control(chr: char) -> bool {
    chr as u32 <= 0x1f || chr as u32 == 0x7f
}

/// Whether `chr` is text. The windowing layer sends special keys
/// (backspace, delete, the function keys) as characters of the private use
/// areas; those are no text, and neither are control characters: a line
/// break arrives as the enter key.
pub fn is_printable_char(chr: char) -> (printable: bool)
    ensures
        printable == (!in_private_use_area(chr) && !is_control(chr)),
{
    let code: u32 = chr as u32;
    let is_in_private_use_area = (0xe000 <= code && code <= 0xf8ff) || (0xf0000 <= code && code
        <= 0xffffd) || (0x100000 <= code && code <= 0x10fffd);
    let is_ascii_control = code <= 0x1f || code == 0x7f;
    !is_in_private_use_area && !is_ascii_control
}

/// The button that the interface knows for `mb`, if it knows one.
pub open spec fn spec_mouse_button(mb: MouseButton) -> Option<Button> {
    match mb {
        MouseButton::Left => Some(Button::Left),
        MouseButton::Middle => Some(Button::Middle),
        MouseButton::Right => Some(Button::Right),
        MouseButton::Unknown => None,
    }
}

/// The button that the interface knows for `mb`; none for an unknown one.
pub fn mouse_button(mb: MouseButton) -> (button: Option<Button>)
    ensures
        button == spec_mouse_button(mb),
{
    match mb {
        MouseButton::Left => Some(Button::Left),
        MouseButton::Middle => Some(Button::Middle),
        MouseButton::Right => Some(Button::Right),
        MouseButton::Unknown => None,
    }
}

/// The bits of the modifier keys that are held: each key has a bit of its
/// own, so the set is the sum of the bits of the keys held.
pub open spec fn spec_key_mod(md: KeyMods) -> Modifiers {
    Modifiers {
        bits: ((if md.shift { SHIFT as int } else { 0 }) + (if md.ctrl { CTRL as int } else { 0 }) + (if md.alt {
            ALT as int
        } else {
            0
        }) + (if md.logo { LOGO as int } else { 0 })) as u32,
    }
}

/// The set of the modifier keys that are held.
pub fn key_mod(md: KeyMods) -> (modifiers: Modifiers)
    ensures
        modifiers == spec_key_mod(md),
{
    let mut bits: u32 = 0;
    if md.shift {
        bits = bits + SHIFT;
    }
    if md.ctrl {
        bits = bits + CTRL;
    }
    if md.alt {
        bits = bits + ALT;
    }
    if md.logo {
        bits = bits + LOGO;
    }
    Modifiers { bits }
}

impl Modifiers {
    /// Whether the key with the bit `flag` is held.
    pub open spec fn spec_contains(self, flag: u32) -> bool {
        self.bits & flag == flag
    }

    /// Whether the key with the bit `flag` is held.
    pub fn contains(&self, flag: u32) -> (held: bool)
        ensures
            held == self.spec_contains(flag),
    {
        self.bits & flag == flag
    }
}

/// Each modifier key is in the set exactly if it is held.
pub proof fn lemma_key_mod_exact(md: KeyMods)
    ensures
        spec_key_mod(md).spec_contains(SHIFT) == md.shift,
        spec_key_mod(md).spec_contains(CTRL) == md.ctrl,
        spec_key_mod(md).spec_contains(ALT) == md.alt,
        spec_key_mod(md).spec_contains(LOGO) == md.logo,
{
    let s: u32 = if md.shift { 0x4 } else { 0 };
    let c: u32 = if md.ctrl { 0x20 } else { 0 };
    let a: u32 = if md.alt { 0x100 } else { 0 };
    let l: u32 = if md.logo { 0x800 } else { 0 };
    let bits: u32 = (s + c + a + l) as u32;
    assert(spec_key_mod(md).bits == bits);
    assert((bits & 0x4 == 0x4) == (s == 0x4) && (bits & 0x20 == 0x20) == (c == 0x20) && (bits & 0x100
        == 0x100) == (a == 0x100) && (bits & 0x800 == 0x800) == (l == 0x800)) by (bit_vector)
        requires
            s == 0 || s == 0x4,
            c == 0 || c == 0x20,
            a == 0 || a == 0x100,
            l == 0 || l == 0x800,
            bits == s + c + a + l,
    ;
}

/// Where the key `code` sits: the keypad keys on the numpad, the left and
/// right modifier keys on their side, every other key in the standard
/// block.
pub open spec fn key_location(code: KeyCode) -> Location {
    match code {
        KeyCode::Kp0
            | KeyCode::Kp1
            | KeyCode::Kp2
            | KeyCode::Kp3
            | KeyCode::Kp4
            | KeyCode::Kp5
            | KeyCode::Kp6
            | KeyCode::Kp7
            | KeyCode::Kp8
            | KeyCode::Kp9
            | KeyCode::KpDecimal
            | KeyCode::KpDivide
            | KeyCode::KpMultiply
            | KeyCode::KpSubtract
            | KeyCode::KpAdd
            | KeyCode::KpEqual
            | KeyCode::KpEnter => Location::Numpad,
        KeyCode::LeftShift
            | KeyCode::LeftControl
            | KeyCode::LeftAlt
            | KeyCode::LeftSuper => Location::Left,
        KeyCode::RightShift
            | KeyCode::RightControl
            | KeyCode::RightAlt
            | KeyCode::RightSuper => Location::Right,
        _ => Location::Standard,
    }
}

/// What the key `code` means: a character, a named key, or nothing that
/// the interface knows.
pub open spec fn key_meaning(code: KeyCode) -> Key {
    match code {
        KeyCode::Apostrophe => Key::Character('\''),
        KeyCode::Comma => Key::Character(','),
        KeyCode::Minus => Key::Character('-'),
        KeyCode::Period => Key::Character('.'),
        KeyCode::Slash => Key::Character('/'),
        KeyCode::Key0 => Key::Character('0'),
        KeyCode::Key1 => Key::Character('1'),
        KeyCode::Key2 => Key::Character('2'),
        KeyCode::Key3 => Key::Character('3'),
        KeyCode::Key4 => Key::Character('4'),
        KeyCode::Key5 => Key::Character('5'),
        KeyCode::Key6 => Key::Character('6'),
        KeyCode::Key7 => Key::Character('7'),
        KeyCode::Key8 => Key::Character('8'),
        KeyCode::Key9 => Key::Character('9'),
        KeyCode::Semicolon => Key::Character(';'),
        KeyCode::Equal => Key::Character(','),
        KeyCode::A => Key::Character('a'),
        KeyCode::B => Key::Character('b'),
        KeyCode::C => Key::Character('c'),
        KeyCode::D => Key::Character('d'),
        KeyCode::E => Key::Character('e'),
        KeyCode::F => Key::Character('f'),
        KeyCode::G => Key::Character('g'),
        KeyCode::H => Key::Character('h'),
        KeyCode::I => Key::Character('i'),
        KeyCode::J => Key::Character('j'),
        KeyCode::K => Key::Character('k'),
        KeyCode::L => Key::Character('l'),
        KeyCode::M => Key::Character('m'),
        KeyCode::N => Key::Character('n'),
        KeyCode::O => Key::Character('o'),
        KeyCode::P => Key::Character('p'),
        KeyCode::Q => Key::Character('q'),
        KeyCode::R => Key::Character('r'),
        KeyCode::S => Key::Character('s'),
        KeyCode::T => Key::Character('t'),
        KeyCode::U => Key::Character('u'),
        KeyCode::V => Key::Character('v'),
        KeyCode::W => Key::Character('w'),
        KeyCode::X => Key::Character('x'),
        KeyCode::Y => Key::Character('y'),
        KeyCode::Z => Key::Character('z'),
        KeyCode::LeftBracket => Key::Character('('),
        KeyCode::Backslash => Key::Character('\\'),
        KeyCode::RightBracket => Key::Character(')'),
        KeyCode::Space => Key::Named(Named::Space),
        KeyCode::Escape => Key::Named(Named::Escape),
        KeyCode::Enter => Key::Named(Named::Enter),
        KeyCode::Tab => Key::Named(Named::Tab),
        KeyCode::Backspace => Key::Named(Named::Backspace),
        KeyCode::Insert => Key::Named(Named::Insert),
        KeyCode::Delete => Key::Named(Named::Delete),
        KeyCode::Right => Key::Named(Named::ArrowRight),
        KeyCode::Left => Key::Named(Named::ArrowLeft),
        KeyCode::Down => Key::Named(Named::ArrowDown),
        KeyCode::Up => Key::Named(Named::ArrowUp),
        KeyCode::PageUp => Key::Named(Named::PageUp),
        KeyCode::PageDown => Key::Named(Named::PageDown),
        KeyCode::Home => Key::Named(Named::Home),
        KeyCode::End => Key::Named(Named::End),
        KeyCode::CapsLock => Key::Named(Named::CapsLock),
        KeyCode::ScrollLock => Key::Named(Named::ScrollLock),
        KeyCode::NumLock => Key::Named(Named::NumLock),
        KeyCode::PrintScreen => Key::Named(Named::PrintScreen),
        KeyCode::Pause => Key::Named(Named::MediaPause),
        KeyCode::F1 => Key::Named(Named::F1),
        KeyCode::F2 => Key::Named(Named::F2),
        KeyCode::F3 => Key::Named(Named::F3),
        KeyCode::F4 => Key::Named(Named::F4),
        KeyCode::F5 => Key::Named(Named::F5),
        KeyCode::F6 => Key::Named(Named::F6),
        KeyCode::F7 => Key::Named(Named::F7),
        KeyCode::F8 => Key::Named(Named::F8),
        KeyCode::F9 => Key::Named(Named::F9),
        KeyCode::F10 => Key::Named(Named::F10),
        KeyCode::F11 => Key::Named(Named::F11),
        KeyCode::F12 => Key::Named(Named::F12),
        KeyCode::F13 => Key::Named(Named::F13),
        KeyCode::F14 => Key::Named(Named::F14),
        KeyCode::F15 => Key::Named(Named::F15),
        KeyCode::F16 => Key::Named(Named::F16),
        KeyCode::F17 => Key::Named(Named::F17),
        KeyCode::F18 => Key::Named(Named::F18),
        KeyCode::F19 => Key::Named(Named::F19),
        KeyCode::F20 => Key::Named(Named::F20),
        KeyCode::F21 => Key::Named(Named::F21),
        KeyCode::F22 => Key::Named(Named::F22),
        KeyCode::F23 => Key::Named(Named::F23),
        KeyCode::F24 => Key::Named(Named::F24),
        KeyCode::F25 => Key::Named(Named::F25),
        KeyCode::Kp0 => Key::Character('0'),
        KeyCode::Kp1 => Key::Character('1'),
        KeyCode::Kp2 => Key::Character('2'),
        KeyCode::Kp3 => Key::Character('3'),
        KeyCode::Kp4 => Key::Character('4'),
        KeyCode::Kp5 => Key::Character('5'),
        KeyCode::Kp6 => Key::Character('6'),
        KeyCode::Kp7 => Key::Character('7'),
        KeyCode::Kp8 => Key::Character('8'),
        KeyCode::Kp9 => Key::Character('9'),
        KeyCode::KpDecimal => Key::Character('.'),
        KeyCode::KpDivide => Key::Character('/'),
        KeyCode::KpMultiply => Key::Character('*'),
        KeyCode::KpSubtract => Key::Character('-'),
        KeyCode::KpAdd => Key::Character('+'),
        KeyCode::KpEqual => Key::Character('='),
        KeyCode::KpEnter => Key::Named(Named::Enter),
        KeyCode::LeftShift => Key::Named(Named::Shift),
        KeyCode::LeftControl => Key::Named(Named::Control),
        KeyCode::LeftAlt => Key::Named(Named::Alt),
        KeyCode::LeftSuper => Key::Named(Named::Super),
        KeyCode::RightShift => Key::Named(Named::Shift),
        KeyCode::RightControl => Key::Named(Named::Control),
        KeyCode::RightAlt => Key::Named(Named::Alt),
        KeyCode::RightSuper => Key::Named(Named::Super),
        _ => Key::Unidentified,
    }
}

/// What the key `code` means and where it sits.
pub fn key(code: KeyCode) -> (out: (Key, Location))
    ensures
        out.0 == key_meaning(code),
        out.1 == key_location(code),
{
    match code {
        KeyCode::Apostrophe => (Key::Character('\''), Location::Standard),
        KeyCode::Comma => (Key::Character(','), Location::Standard),
        KeyCode::Minus => (Key::Character('-'), Location::Standard),
        KeyCode::Period => (Key::Character('.'), Location::Standard),
        KeyCode::Slash => (Key::Character('/'), Location::Standard),
        KeyCode::Key0 => (Key::Character('0'), Location::Standard),
        KeyCode::Key1 => (Key::Character('1'), Location::Standard),
        KeyCode::Key2 => (Key::Character('2'), Location::Standard),
        KeyCode::Key3 => (Key::Character('3'), Location::Standard),
        KeyCode::Key4 => (Key::Character('4'), Location::Standard),
        KeyCode::Key5 => (Key::Character('5'), Location::Standard),
        KeyCode::Key6 => (Key::Character('6'), Location::Standard),
        KeyCode::Key7 => (Key::Character('7'), Location::Standard),
        KeyCode::Key8 => (Key::Character('8'), Location::Standard),
        KeyCode::Key9 => (Key::Character('9'), Location::Standard),
        KeyCode::Semicolon => (Key::Character(';'), Location::Standard),
        KeyCode::Equal => (Key::Character(','), Location::Standard),
        KeyCode::A => (Key::Character('a'), Location::Standard),
        KeyCode::B => (Key::Character('b'), Location::Standard),
        KeyCode::C => (Key::Character('c'), Location::Standard),
        KeyCode::D => (Key::Character('d'), Location::Standard),
        KeyCode::E => (Key::Character('e'), Location::Standard),
        KeyCode::F => (Key::Character('f'), Location::Standard),
        KeyCode::G => (Key::Character('g'), Location::Standard),
        KeyCode::H => (Key::Character('h'), Location::Standard),
        KeyCode::I => (Key::Character('i'), Location::Standard),
        KeyCode::J => (Key::Character('j'), Location::Standard),
        KeyCode::K => (Key::Character('k'), Location::Standard),
        KeyCode::L => (Key::Character('l'), Location::Standard),
        KeyCode::M => (Key::Character('m'), Location::Standard),
        KeyCode::N => (Key::Character('n'), Location::Standard),
        KeyCode::O => (Key::Character('o'), Location::Standard),
        KeyCode::P => (Key::Character('p'), Location::Standard),
        KeyCode::Q => (Key::Character('q'), Location::Standard),
        KeyCode::R => (Key::Character('r'), Location::Standard),
        KeyCode::S => (Key::Character('s'), Location::Standard),
        KeyCode::T => (Key::Character('t'), Location::Standard),
        KeyCode::U => (Key::Character('u'), Location::Standard),
        KeyCode::V => (Key::Character('v'), Location::Standard),
        KeyCode::W => (Key::Character('w'), Location::Standard),
        KeyCode::X => (Key::Character('x'), Location::Standard),
        KeyCode::Y => (Key::Character('y'), Location::Standard),
        KeyCode::Z => (Key::Character('z'), Location::Standard),
        KeyCode::LeftBracket => (Key::Character('('), Location::Standard),
        KeyCode::Backslash => (Key::Character('\\'), Location::Standard),
        KeyCode::RightBracket => (Key::Character(')'), Location::Standard),
        KeyCode::Space => (Key::Named(Named::Space), Location::Standard),
        KeyCode::Escape => (Key::Named(Named::Escape), Location::Standard),
        KeyCode::Enter => (Key::Named(Named::Enter), Location::Standard),
        KeyCode::Tab => (Key::Named(Named::Tab), Location::Standard),
        KeyCode::Backspace => (Key::Named(Named::Backspace), Location::Standard),
        KeyCode::Insert => (Key::Named(Named::Insert), Location::Standard),
        KeyCode::Delete => (Key::Named(Named::Delete), Location::Standard),
        KeyCode::Right => (Key::Named(Named::ArrowRight), Location::Standard),
        KeyCode::Left => (Key::Named(Named::ArrowLeft), Location::Standard),
        KeyCode::Down => (Key::Named(Named::ArrowDown), Location::Standard),
        KeyCode::Up => (Key::Named(Named::ArrowUp), Location::Standard),
        KeyCode::PageUp => (Key::Named(Named::PageUp), Location::Standard),
        KeyCode::PageDown => (Key::Named(Named::PageDown), Location::Standard),
        KeyCode::Home => (Key::Named(Named::Home), Location::Standard),
        KeyCode::End => (Key::Named(Named::End), Location::Standard),
        KeyCode::CapsLock => (Key::Named(Named::CapsLock), Location::Standard),
        KeyCode::ScrollLock => (Key::Named(Named::ScrollLock), Location::Standard),
        KeyCode::NumLock => (Key::Named(Named::NumLock), Location::Standard),
        KeyCode::PrintScreen => (Key::Named(Named::PrintScreen), Location::Standard),
        KeyCode::Pause => (Key::Named(Named::MediaPause), Location::Standard),
        KeyCode::F1 => (Key::Named(Named::F1), Location::Standard),
        KeyCode::F2 => (Key::Named(Named::F2), Location::Standard),
        KeyCode::F3 => (Key::Named(Named::F3), Location::Standard),
        KeyCode::F4 => (Key::Named(Named::F4), Location::Standard),
        KeyCode::F5 => (Key::Named(Named::F5), Location::Standard),
        KeyCode::F6 => (Key::Named(Named::F6), Location::Standard),
        KeyCode::F7 => (Key::Named(Named::F7), Location::Standard),
        KeyCode::F8 => (Key::Named(Named::F8), Location::Standard),
        KeyCode::F9 => (Key::Named(Named::F9), Location::Standard),
        KeyCode::F10 => (Key::Named(Named::F10), Location::Standard),
        KeyCode::F11 => (Key::Named(Named::F11), Location::Standard),
        KeyCode::F12 => (Key::Named(Named::F12), Location::Standard),
        KeyCode::F13 => (Key::Named(Named::F13), Location::Standard),
        KeyCode::F14 => (Key::Named(Named::F14), Location::Standard),
        KeyCode::F15 => (Key::Named(Named::F15), Location::Standard),
        KeyCode::F16 => (Key::Named(Named::F16), Location::Standard),
        KeyCode::F17 => (Key::Named(Named::F17), Location::Standard),
        KeyCode::F18 => (Key::Named(Named::F18), Location::Standard),
        KeyCode::F19 => (Key::Named(Named::F19), Location::Standard),
        KeyCode::F20 => (Key::Named(Named::F20), Location::Standard),
        KeyCode::F21 => (Key::Named(Named::F21), Location::Standard),
        KeyCode::F22 => (Key::Named(Named::F22), Location::Standard),
        KeyCode::F23 => (Key::Named(Named::F23), Location::Standard),
        KeyCode::F24 => (Key::Named(Named::F24), Location::Standard),
        KeyCode::F25 => (Key::Named(Named::F25), Location::Standard),
        KeyCode::Kp0 => (Key::Character('0'), Location::Numpad),
        KeyCode::Kp1 => (Key::Character('1'), Location::Numpad),
        KeyCode::Kp2 => (Key::Character('2'), Location::Numpad),
        KeyCode::Kp3 => (Key::Character('3'), Location::Numpad),
        KeyCode::Kp4 => (Key::Character('4'), Location::Numpad),
        KeyCode::Kp5 => (Key::Character('5'), Location::Numpad),
        KeyCode::Kp6 => (Key::Character('6'), Location::Numpad),
        KeyCode::Kp7 => (Key::Character('7'), Location::Numpad),
        KeyCode::Kp8 => (Key::Character('8'), Location::Numpad),
        KeyCode::Kp9 => (Key::Character('9'), Location::Numpad),
        KeyCode::KpDecimal => (Key::Character('.'), Location::Numpad),
        KeyCode::KpDivide => (Key::Character('/'), Location::Numpad),
        KeyCode::KpMultiply => (Key::Character('*'), Location::Numpad),
        KeyCode::KpSubtract => (Key::Character('-'), Location::Numpad),
        KeyCode::KpAdd => (Key::Character('+'), Location::Numpad),
        KeyCode::KpEqual => (Key::Character('='), Location::Numpad),
        KeyCode::KpEnter => (Key::Named(Named::Enter), Location::Numpad),
        KeyCode::LeftShift => (Key::Named(Named::Shift), Location::Left),
        KeyCode::LeftControl => (Key::Named(Named::Control), Location::Left),
        KeyCode::LeftAlt => (Key::Named(Named::Alt), Location::Left),
        KeyCode::LeftSuper => (Key::Named(Named::Super), Location::Left),
        KeyCode::RightShift => (Key::Named(Named::Shift), Location::Right),
        KeyCode::RightControl => (Key::Named(Named::Control), Location::Right),
        KeyCode::RightAlt => (Key::Named(Named::Alt), Location::Right),
        KeyCode::RightSuper => (Key::Named(Named::Super), Location::Right),
        _ => (Key::Unidentified, Location::Standard),
    }
}

/// What a finger did, from the phase of the touch.
pub open spec fn spec_touch(phase: TouchPhase, id: u64, position: Point) -> TouchEvent {
    match phase {
        TouchPhase::Started => TouchEvent::FingerPressed { id, position },
        TouchPhase::Moved => TouchEvent::FingerMoved { id, position },
        TouchPhase::Ended => TouchEvent::FingerLifted { id, position },
        TouchPhase::Cancelled => TouchEvent::FingerLost { id, position },
    }
}

/// What the finger `id` did at `position`.
pub fn touch(phase: TouchPhase, id: u64, position: Point) -> (event: TouchEvent)
    ensures
        event == spec_touch(phase, id, position),
{
    match phase {
        TouchPhase::Started => TouchEvent::FingerPressed { id, position },
        TouchPhase::Moved => TouchEvent::FingerMoved { id, position },
        TouchPhase::Ended => TouchEvent::FingerLifted { id, position },
        TouchPhase::Cancelled => TouchEvent::FingerLost { id, position },
    }
}

} // verus!
