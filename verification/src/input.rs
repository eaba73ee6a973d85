//! Keyboard and mouse events as the state machine sees them.

use vstd::prelude::*;

verus! {

/// The key of a key event.
#[derive(Clone, Copy, Debug, PartialEq, Eq, Structural)]
pub enum KeyCode {
    Char(char),
    F(u8),
    Enter,
    Esc,
    Tab,
    BackTab,
    Backspace,
    Delete,
    Insert,
    Left,
    Right,
    Up,
    Down,
    Home,
    End,
    PageUp,
    PageDown,
    /// A key that nothing is bound to, such as a media key.
    Unbound,
}

/// The modifier keys held down during a key event, as far as bindings look at them.
#[derive(Clone, Copy, Debug, PartialEq, Eq, Structural)]
pub struct KeyModifiers {
    pub control: bool,
    pub alt: bool,
    pub shift: bool,
}

impl KeyModifiers {
    /// No modifier held.
    pub fn none() -> (modifiers: Self)
        ensures
            modifiers == (KeyModifiers { control: false, alt: false, shift: false }),
    {
        KeyModifiers { control: false, alt: false, shift: false }
    }

    /// Control alone.
    pub fn ctrl() -> (modifiers: Self)
        ensures
            modifiers == (KeyModifiers { control: true, alt: false, shift: false }),
    {
        KeyModifiers { control: true, alt: false, shift: false }
    }
}

/// What happened to the key.
#[derive(Clone, Copy, Debug, PartialEq, Eq, Structural)]
pub enum KeyEventKind {
    Press,
    Repeat,
    Release,
}

/// One key event.
#[derive(Clone, Copy, Debug, PartialEq, Eq, Structural)]
pub struct KeyEvent {
    pub code: KeyCode,
    pub modifiers: KeyModifiers,
    pub kind: KeyEventKind,
}

impl KeyEvent {
    /// The press of a key.
    pub fn new(code: KeyCode, modifiers: KeyModifiers) -> (event: Self)
        ensures
            event == (KeyEvent { code, modifiers, kind: KeyEventKind::Press }),
    {
        KeyEvent { code, modifiers, kind: KeyEventKind::Press }
    }

    /// The key types text: neither Control nor Alt is held.
    pub open spec fn is_plain_text(self) -> bool {
        !self.modifiers.control && !self.modifiers.alt
    }

    /// The event is the given character with Control held.
    pub open spec fn is_control(self, character: char) -> bool {
        self.modifiers.control && self.code == KeyCode::Char(character)
    }

    /// Whether the key types text.
    pub fn plain_text(self) -> (plain: bool)
        ensures
            plain == self.is_plain_text(),
    {
        !self.modifiers.control && !self.modifiers.alt
    }

    /// Whether the event is the given character with Control held.
    pub fn control_char(self, character: char) -> (found: bool)
        ensures
            found == self.is_control(character),
    {
        self.modifiers.control && self.code == KeyCode::Char(character)
    }
}

/// What a mouse event did.
#[derive(Clone, Copy, Debug, PartialEq, Eq, Structural)]
pub enum MouseEventKind {
    LeftDown,
    LeftDrag,
    LeftUp,
    /// Anything else: other buttons, scrolling, plain movement.
    Unbound,
}

/// One mouse event, in terminal cells.
#[derive(Clone, Copy, Debug, PartialEq, Eq, Structural)]
pub struct MouseEvent {
    pub kind: MouseEventKind,
    pub column: u16,
    pub row: u16,
}

} // verus!
