//! Keys of a keyboard, and the events that they cause.

use vstd::prelude::*;

verus! {

/// A key, by its position or by what it types. Keys on which nothing here
/// depends are all `Other`.
#[derive(Debug, Clone, Copy, PartialEq, Eq, Hash, Structural)]
pub enum Key {
    A,
    B,
    C,
    D,
    E,
    F,
    G,
    H,
    I,
    J,
    K,
    L,
    M,
    N,
    O,
    P,
    Q,
    R,
    S,
    T,
    U,
    V,
    W,
    X,
    Y,
    Z,
    Num0,
    Num1,
    Num2,
    Num3,
    Num4,
    Num5,
    Num6,
    Num7,
    Num8,
    Num9,
    F1,
    F2,
    F3,
    F4,
    F5,
    F6,
    F7,
    F8,
    F9,
    F10,
    F11,
    F12,
    ArrowDown,
    ArrowLeft,
    ArrowRight,
    ArrowUp,
    Backspace,
    Delete,
    Enter,
    Space,
    Tab,
    Backslash,
    Backtick,
    Comma,
    Equals,
    Minus,
    Period,
    Quote,
    Semicolon,
    Slash,
    Escape,
    ShiftLeft,
    ShiftRight,
    ControlLeft,
    ControlRight,
    AltLeft,
    AltRight,
    SuperLeft,
    SuperRight,
    Other,
}

/// The modifiers that are held during an event.
#[derive(Debug, Clone, Copy, PartialEq, Eq, Structural)]
pub struct Modifiers {
    pub alt: bool,
    pub ctrl: bool,
    pub shift: bool,
    /// The command key of a Mac keyboard.
    pub mac_cmd: bool,
    /// The key that commands go by on the platform at hand.
    pub command: bool,
}

impl Modifiers {
    pub open spec fn none() -> Modifiers {
        Modifiers { alt: false, ctrl: false, shift: false, mac_cmd: false, command: false }
    }
}

impl Default for Modifiers {
    /// No modifier.
    fn default() -> (m: Modifiers)
        ensures
            m == Modifiers::none(),
    {
        Modifiers { alt: false, ctrl: false, shift: false, mac_cmd: false, command: false }
    }
}

/// A key going down or up.
#[derive(Debug, Clone, Copy, PartialEq, Eq, Structural)]
pub struct KeyEvent {
    /// What the key stands for in the keyboard's layout.
    pub key: Key,
    /// Where the key is, where that is known.
    pub physical_key: Option<Key>,
    pub pressed: bool,
    /// Whether the key was down already.
    pub repeat: bool,
    pub modifiers: Modifiers,
}

/// An input event.
#[derive(Debug, Clone, Copy, PartialEq, Eq, Structural)]
pub enum Event {
    Key(KeyEvent),
    /// An event that is not of the keyboard, by its place in the queue that it
    /// came in.
    Other(usize),
}

/// The name of the key code under which a key can serve in a shortcut.
pub open spec fn code_name(key: Key) -> Option<Seq<char>> {
    match key {
        Key::A => Some("KeyA"@),
        Key::B => Some("KeyB"@),
        Key::C => Some("KeyC"@),
        Key::D => Some("KeyD"@),
        Key::E => Some("KeyE"@),
        Key::F => Some("KeyF"@),
        Key::G => Some("KeyG"@),
        Key::H => Some("KeyH"@),
        Key::I => Some("KeyI"@),
        Key::J => Some("KeyJ"@),
        Key::K => Some("KeyK"@),
        Key::L => Some("KeyL"@),
        Key::M => Some("KeyM"@),
        Key::N => Some("KeyN"@),
        Key::O => Some("KeyO"@),
        Key::P => Some("KeyP"@),
        Key::Q => Some("KeyQ"@),
        Key::R => Some("KeyR"@),
        Key::S => Some("KeyS"@),
        Key::T => Some("KeyT"@),
        Key::U => Some("KeyU"@),
        Key::V => Some("KeyV"@),
        Key::W => Some("KeyW"@),
        Key::X => Some("KeyX"@),
        Key::Y => Some("KeyY"@),
        Key::Z => Some("KeyZ"@),
        Key::Num0 => Some("Digit0"@),
        Key::Num1 => Some("Digit1"@),
        Key::Num2 => Some("Digit2"@),
        Key::Num3 => Some("Digit3"@),
        Key::Num4 => Some("Digit4"@),
        Key::Num5 => Some("Digit5"@),
        Key::Num6 => Some("Digit6"@),
        Key::Num7 => Some("Digit7"@),
        Key::Num8 => Some("Digit8"@),
        Key::Num9 => Some("Digit9"@),
        Key::F1 => Some("F1"@),
        Key::F2 => Some("F2"@),
        Key::F3 => Some("F3"@),
        Key::F4 => Some("F4"@),
        Key::F5 => Some("F5"@),
        Key::F6 => Some("F6"@),
        Key::F7 => Some("F7"@),
        Key::F8 => Some("F8"@),
        Key::F9 => Some("F9"@),
        Key::F10 => Some("F10"@),
        Key::F11 => Some("F11"@),
        Key::F12 => Some("F12"@),
        Key::ArrowDown => Some("ArrowDown"@),
        Key::ArrowLeft => Some("ArrowLeft"@),
        Key::ArrowRight => Some("ArrowRight"@),
        Key::ArrowUp => Some("ArrowUp"@),
        Key::Backspace => Some("Backspace"@),
        Key::Delete => Some("Delete"@),
        Key::Enter => Some("Enter"@),
        Key::Space => Some("Space"@),
        Key::Tab => Some("Tab"@),
        Key::Backslash => Some("Backslash"@),
        Key::Backtick => Some("Backquote"@),
        Key::Comma => Some("Comma"@),
        Key::Equals => Some("Equal"@),
        Key::Minus => Some("Minus"@),
        Key::Period => Some("Period"@),
        Key::Quote => Some("Quote"@),
        Key::Semicolon => Some("Semicolon"@),
        Key::Slash => Some("Slash"@),
        _ => None,
    }
}

/// Whether `name` is a key code that some key serves under.
pub open spec fn is_capture_code(name: Seq<char>) -> bool {
    exists|key: Key| #[trigger] code_name(key) == Some(name)
}

/// The name of the key code under which `key` can serve in a shortcut.
pub fn map_key(key: Key) -> (name: Option<&'static str>)
    ensures
        code_name(key) == (match name {
            Some(n) => Some(n@),
            None => None,
        }),
{
    match key {
        Key::A => Some("KeyA"),
        Key::B => Some("KeyB"),
        Key::C => Some("KeyC"),
        Key::D => Some("KeyD"),
        Key::E => Some("KeyE"),
        Key::F => Some("KeyF"),
        Key::G => Some("KeyG"),
        Key::H => Some("KeyH"),
        Key::I => Some("KeyI"),
        Key::J => Some("KeyJ"),
        Key::K => Some("KeyK"),
        Key::L => Some("KeyL"),
        Key::M => Some("KeyM"),
        Key::N => Some("KeyN"),
        Key::O => Some("KeyO"),
        Key::P => Some("KeyP"),
        Key::Q => Some("KeyQ"),
        Key::R => Some("KeyR"),
        Key::S => Some("KeyS"),
        Key::T => Some("KeyT"),
        Key::U => Some("KeyU"),
        Key::V => Some("KeyV"),
        Key::W => Some("KeyW"),
        Key::X => Some("KeyX"),
        Key::Y => Some("KeyY"),
        Key::Z => Some("KeyZ"),
        Key::Num0 => Some("Digit0"),
        Key::Num1 => Some("Digit1"),
        Key::Num2 => Some("Digit2"),
        Key::Num3 => Some("Digit3"),
        Key::Num4 => Some("Digit4"),
        Key::Num5 => Some("Digit5"),
        Key::Num6 => Some("Digit6"),
        Key::Num7 => Some("Digit7"),
        Key::Num8 => Some("Digit8"),
        Key::Num9 => Some("Digit9"),
        Key::F1 => Some("F1"),
        Key::F2 => Some("F2"),
        Key::F3 => Some("F3"),
        Key::F4 => Some("F4"),
        Key::F5 => Some("F5"),
        Key::F6 => Some("F6"),
        Key::F7 => Some("F7"),
        Key::F8 => Some("F8"),
        Key::F9 => Some("F9"),
        Key::F10 => Some("F10"),
        Key::F11 => Some("F11"),
        Key::F12 => Some("F12"),
        Key::ArrowDown => Some("ArrowDown"),
        Key::ArrowLeft => Some("ArrowLeft"),
        Key::ArrowRight => Some("ArrowRight"),
        Key::ArrowUp => Some("ArrowUp"),
        Key::Backspace => Some("Backspace"),
        Key::Delete => Some("Delete"),
        Key::Enter => Some("Enter"),
        Key::Space => Some("Space"),
        Key::Tab => Some("Tab"),
        Key::Backslash => Some("Backslash"),
        Key::Backtick => Some("Backquote"),
        Key::Comma => Some("Comma"),
        Key::Equals => Some("Equal"),
        Key::Minus => Some("Minus"),
        Key::Period => Some("Period"),
        Key::Quote => Some("Quote"),
        Key::Semicolon => Some("Semicolon"),
        Key::Slash => Some("Slash"),
        _ => None,
    }
}

/// The keys that only modify others.
pub open spec fn modifies(key: Key) -> bool {
    ||| key == Key::ShiftLeft
    ||| key == Key::ShiftRight
    ||| key == Key::ControlLeft
    ||| key == Key::ControlRight
    ||| key == Key::AltLeft
    ||| key == Key::AltRight
    ||| key == Key::SuperLeft
    ||| key == Key::SuperRight
}

/// Whether `key` only modifies others.
pub fn is_modifier_key(key: Key) -> (b: bool)
    ensures
        b == modifies(key),
{
    matches!(
        key,
        Key::ShiftLeft | Key::ShiftRight | Key::ControlLeft | Key::ControlRight | Key::AltLeft
            | Key::AltRight | Key::SuperLeft | Key::SuperRight
    )
}

} // verus!
