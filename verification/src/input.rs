//! The terminal input events that the library reacts to: keys with their
//! modifiers, mouse scrolling and the rest.
use vstd::prelude::*;

verus! {

/// A key of the keyboard.
#[derive(Debug, Clone, Copy, PartialEq, Eq, Structural)]
pub enum KeyCode {
    Char(char),
    Enter,
    Esc,
    Backspace,
    Tab,
    Up,
    Down,
    Left,
    Right,
    /// Any key the library does not react to (function keys, Home, ...).
    Other,
}

/// The modifier keys held during a key press.
#[derive(Debug, Clone, Copy, PartialEq, Eq, Structural)]
pub struct KeyModifiers {
    pub shift: bool,
    pub control: bool,
    pub alt: bool,
    pub super_key: bool,
    pub hyper: bool,
    pub meta: bool,
}

impl KeyModifiers {
    /// No modifier held.
    pub open spec fn spec_none() -> KeyModifiers {
        KeyModifiers {
            shift: false,
            control: false,
            alt: false,
            super_key: false,
            hyper: false,
            meta: false,
        }
    }

    /// No modifier held.
    pub fn none() -> (m: KeyModifiers)
        ensures
            m == Self::spec_none(),
    {
        KeyModifiers {
            shift: false,
            control: false,
            alt: false,
            super_key: false,
            hyper: false,
            meta: false,
        }
    }

    /// Shift alone.
    pub fn shift() -> (m: KeyModifiers)
        ensures
            m == (KeyModifiers { shift: true, ..Self::spec_none() }),
    {
        KeyModifiers { shift: true, ..Self::none() }
    }

    /// Control alone.
    pub fn control() -> (m: KeyModifiers)
        ensures
            m == (KeyModifiers { control: true, ..Self::spec_none() }),
    {
        KeyModifiers { control: true, ..Self::none() }
    }

    /// Whether exactly no modifier is held.
    pub open spec fn is_none(self) -> bool {
        self == Self::spec_none()
    }

    /// Whether Shift, and nothing else, is held.
    pub open spec fn is_shift_only(self) -> bool {
        self == (KeyModifiers { shift: true, ..Self::spec_none() })
    }

    /// Whether Control, and nothing else, is held.
    pub open spec fn is_control_only(self) -> bool {
        self == (KeyModifiers { control: true, ..Self::spec_none() })
    }
}

/// Whether a key went down, repeats or went up.
#[derive(Debug, Clone, Copy, PartialEq, Eq, Structural)]
pub enum KeyEventKind {
    Press,
    Repeat,
    Release,
}

/// A key event.
#[derive(Debug, Clone, Copy, PartialEq, Eq, Structural)]
pub struct KeyEvent {
    pub code: KeyCode,
    pub modifiers: KeyModifiers,
    pub kind: KeyEventKind,
}

impl KeyEvent {
    /// A key press with the given modifiers.
    pub fn new(code: KeyCode, modifiers: KeyModifiers) -> (k: KeyEvent)
        ensures
            k == (KeyEvent { code, modifiers, kind: KeyEventKind::Press }),
    {
        KeyEvent { code, modifiers, kind: KeyEventKind::Press }
    }
}

/// What the mouse did.
#[derive(Debug, Clone, Copy, PartialEq, Eq, Structural)]
pub enum MouseEventKind {
    ScrollDown,
    ScrollUp,
    /// Clicks, drags, moves and horizontal scrolling.
    Other,
}

/// An input event of the terminal.
#[derive(Debug, Clone, Copy, PartialEq, Eq, Structural)]
pub enum Event {
    Key(KeyEvent),
    Mouse(MouseEventKind),
    Resize(u16, u16),
    /// Focus changes and pasted text.
    Other,
}

impl Event {
    /// A key press of `code` with no modifier held.
    pub fn key(code: KeyCode) -> (e: Event)
        ensures
            e == Event::Key(KeyEvent { code, modifiers: KeyModifiers::spec_none(), kind: KeyEventKind::Press }),
    {
        Event::Key(KeyEvent::new(code, KeyModifiers::none()))
    }
}

} // verus!
