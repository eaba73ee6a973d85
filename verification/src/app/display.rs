//! The help screen, and the division of the main screen.

use crate::app::model::{Display, Focus, Screen};
use crate::input::{KeyCode, KeyEvent, MouseEventKind};
use vstd::prelude::*;

verus! {

/// What the mouse points at on the main screen.
#[derive(Clone, Copy, Debug, PartialEq, Eq, Structural)]
pub enum MouseTarget {
    ResizeHandle,
    Teams,
    Members,
    Room,
    Nowhere,
}

/// A number counted up without overflow.
pub open spec fn counted_up(value: u16, step: u16) -> u16 {
    if value + step > u16::MAX {
        u16::MAX
    } else {
        (value + step) as u16
    }
}

/// A number counted down to zero at most.
pub open spec fn counted_down(value: u16, step: u16) -> u16 {
    if value < step {
        0
    } else {
        (value - step) as u16
    }
}

impl Display {
    /// The help, to be left for `screen`.
    pub open spec fn helping(self, screen: Screen) -> Display {
        Display { help_return_screen: screen, help_scroll: 0, screen: Screen::Help, ..self }
    }

    /// Opens the help, to be left for `screen`.
    pub fn open_help(&mut self, screen: Screen)
        ensures
            *final(self) == old(self).helping(screen),
    {
        self.help_return_screen = screen;
        self.help_scroll = 0;
        self.screen = Screen::Help;
    }

    /// The display on another screen.
    pub open spec fn on(self, screen: Screen) -> Display {
        Display { screen, ..self }
    }

    /// What a key does to the help.
    pub open spec fn after_help_key(self, key: KeyEvent) -> Display {
        match key.code {
            KeyCode::Esc | KeyCode::Char('?') | KeyCode::Char('q') => Display {
                screen: self.help_return_screen,
                help_scroll: 0,
                ..self
            },
            KeyCode::Char('j') | KeyCode::Down => Display {
                help_scroll: counted_up(self.help_scroll, 1),
                ..self
            },
            KeyCode::Char('k') | KeyCode::Up => Display {
                help_scroll: counted_down(self.help_scroll, 1),
                ..self
            },
            KeyCode::PageDown => Display { help_scroll: counted_up(self.help_scroll, 10), ..self },
            KeyCode::PageUp => Display { help_scroll: counted_down(self.help_scroll, 10), ..self },
            _ => self,
        }
    }

    /// Applies a key to the help.
    pub fn help_key(&mut self, key: KeyEvent)
        ensures
            *final(self) == old(self).after_help_key(key),
    {
        match key.code {
            KeyCode::Esc | KeyCode::Char('?') | KeyCode::Char('q') => {
                self.screen = self.help_return_screen;
                self.help_scroll = 0;
            },
            KeyCode::Char('j') | KeyCode::Down => {
                self.help_scroll = self.help_scroll.saturating_add(1);
            },
            KeyCode::Char('k') | KeyCode::Up => {
                self.help_scroll = self.help_scroll.saturating_sub(1);
            },
            KeyCode::PageDown => {
                self.help_scroll = self.help_scroll.saturating_add(10);
            },
            KeyCode::PageUp => {
                self.help_scroll = self.help_scroll.saturating_sub(10);
            },
            _ => {},
        }
    }
}

/// The list that a click gives the focus to.
pub open spec fn clicked_focus(focus: Focus, kind: MouseEventKind, hit: MouseTarget) -> Focus {
    match (kind, hit) {
        (MouseEventKind::LeftDown, MouseTarget::Teams) => Focus::Teams,
        (MouseEventKind::LeftDown, MouseTarget::Members) => Focus::Members,
        (MouseEventKind::LeftDown, MouseTarget::Room) => Focus::Room,
        _ => focus,
    }
}

/// The list that a click gives the focus to.
pub fn focus_after_click(focus: Focus, kind: MouseEventKind, hit: MouseTarget) -> (after: Focus)
    ensures
        after == clicked_focus(focus, kind, hit),
{
    match (kind, hit) {
        (MouseEventKind::LeftDown, MouseTarget::Teams) => Focus::Teams,
        (MouseEventKind::LeftDown, MouseTarget::Members) => Focus::Members,
        (MouseEventKind::LeftDown, MouseTarget::Room) => Focus::Room,
        _ => focus,
    }
}

impl Display {
    /// What the mouse does to the division of the main screen: the handle is held from a click on
    /// it until the button is let go, and the sidebar follows the mouse as long.
    pub open spec fn after_mouse(
        self,
        kind: MouseEventKind,
        hit: MouseTarget,
        dragged_pct: u16,
    ) -> Display {
        match kind {
            MouseEventKind::LeftDown => if hit == MouseTarget::ResizeHandle {
                Display { resize_dragging: true, ..self }
            } else {
                self
            },
            MouseEventKind::LeftDrag => if self.resize_dragging {
                Display { sidebar_pct: dragged_pct, ..self }
            } else {
                self
            },
            MouseEventKind::LeftUp => Display { resize_dragging: false, ..self },
            MouseEventKind::Unbound => self,
        }
    }

    /// Applies the mouse to the division of the main screen.
    pub fn mouse(&mut self, kind: MouseEventKind, hit: MouseTarget, dragged_pct: u16)
        ensures
            *final(self) == old(self).after_mouse(kind, hit, dragged_pct),
    {
        match kind {
            MouseEventKind::LeftDown => {
                if hit == MouseTarget::ResizeHandle {
                    self.resize_dragging = true;
                }
            },
            MouseEventKind::LeftDrag => {
                if self.resize_dragging {
                    self.sidebar_pct = dragged_pct;
                }
            },
            MouseEventKind::LeftUp => {
                self.resize_dragging = false;
            },
            MouseEventKind::Unbound => {},
        }
    }
}

/// Leaving the help comes back to the screen it was opened from.
pub proof fn help_returns(display: Display, screen: Screen, key: KeyEvent)
    requires
        key.code == KeyCode::Esc || key.code == KeyCode::Char('?') || key.code == KeyCode::Char(
            'q',
        ),
    ensures
        display.helping(screen).after_help_key(key).screen == screen,
{
}

/// The sidebar keeps its width unless its handle is being dragged.
pub proof fn sidebar_moves_only_when_dragged(
    display: Display,
    kind: MouseEventKind,
    hit: MouseTarget,
    dragged_pct: u16,
)
    ensures
        display.after_mouse(kind, hit, dragged_pct).sidebar_pct != display.sidebar_pct ==> kind
            == MouseEventKind::LeftDrag && display.resize_dragging,
{
}

} // verus!
