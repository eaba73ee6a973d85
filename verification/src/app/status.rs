//! The status line and small helpers of the screens.

use crate::input::{KeyCode, KeyEvent};
use vstd::prelude::*;

verus! {

/// The line at the bottom of the screen.
#[derive(Debug)]
pub struct StatusLine {
    pub text: String,
    pub is_error: bool,
}

impl StatusLine {
    /// The line shows `text` as a plain notice.
    pub open spec fn is_info(self, text: Seq<char>) -> bool {
        self.text@ == text && !self.is_error
    }

    /// The line shows `text` as an error.
    pub open spec fn is_failure(self, text: Seq<char>) -> bool {
        self.text@ == text && self.is_error
    }
}

impl Clone for StatusLine {
    fn clone(&self) -> (copy: Self)
        ensures
            copy == *self,
    {
        StatusLine { text: self.text.clone(), is_error: self.is_error }
    }
}

impl Default for StatusLine {
    fn default() -> (line: Self)
        ensures
            line.is_info(Seq::empty()),
    {
        StatusLine { text: String::new(), is_error: false }
    }
}

/// A new status line is given, with the notice `text`.
pub open spec fn tells(line: Option<StatusLine>, text: Seq<char>) -> bool {
    match line {
        Some(line) => line.is_info(text),
        None => false,
    }
}

/// A new status line is given, with the error `text`.
pub open spec fn objects(line: Option<StatusLine>, text: Seq<char>) -> bool {
    match line {
        Some(line) => line.is_failure(text),
        None => false,
    }
}

/// A plain notice from a text that was made for it.
pub fn notice(text: String) -> (line: StatusLine)
    ensures
        line.is_info(text@),
{
    StatusLine { text, is_error: false }
}

/// A plain notice.
pub fn info_status(text: &str) -> (line: StatusLine)
    ensures
        line.is_info(text@),
{
    StatusLine { text: text.to_owned(), is_error: false }
}

/// A notice that some input was refused.
pub fn validation_status(text: String) -> (line: StatusLine)
    ensures
        line.is_failure(text@),
{
    StatusLine { text, is_error: true }
}

/// A notice that some input was refused, from a fixed text.
pub fn error_status(text: &str) -> (line: StatusLine)
    ensures
        line.is_failure(text@),
{
    StatusLine { text: text.to_owned(), is_error: true }
}

/// The position after moving a cursor by `step` in a list, kept within the list.
pub open spec fn bounded_move(current: int, length: int, step: int) -> int {
    if length == 0 || current + step < 0 {
        0
    } else if current + step > length - 1 {
        length - 1
    } else {
        current + step
    }
}

/// Moves a cursor by `step` in a list, kept within the list.
pub fn move_bounded(current: usize, length: usize, step: isize) -> (moved: usize)
    ensures
        moved == bounded_move(current as int, length as int, step as int),
{
    if length == 0 {
        return 0;
    }
    let target: i128 = current as i128 + step as i128;
    if target < 0 {
        0
    } else if target > (length - 1) as i128 {
        length - 1
    } else {
        target as usize
    }
}

/// The last position of a list; zero for an empty one.
pub open spec fn last_index(length: int) -> int {
    if length == 0 {
        0
    } else {
        length - 1
    }
}

/// The last position of a list; zero for an empty one.
pub fn last_position(length: usize) -> (last: usize)
    ensures
        last == last_index(length as int),
{
    if length == 0 {
        0
    } else {
        length - 1
    }
}

/// A position kept within a list.
pub open spec fn clamped_index(current: int, length: int) -> int {
    if current < last_index(length) {
        current
    } else {
        last_index(length)
    }
}

/// Keeps a position within a list.
pub fn clamp_index(current: usize, length: usize) -> (index: usize)
    ensures
        index == clamped_index(current as int, length as int),
{
    let last = last_position(length);
    if current < last {
        current
    } else {
        last
    }
}

/// The position one further down a list, or its last one.
pub open spec fn stepped_down(current: int, length: int) -> int {
    if current + 1 < last_index(length) {
        current + 1
    } else {
        last_index(length)
    }
}

/// The position one further down a list, or its last one.
pub fn step_down(current: usize, length: usize) -> (index: usize)
    ensures
        index == stepped_down(current as int, length as int),
{
    let last = last_position(length);
    if current < last {
        current + 1
    } else {
        last
    }
}

/// The position one further in a ring of the given length.
pub open spec fn ring_next(current: int, length: int) -> int {
    if length == 0 {
        0
    } else {
        (current + 1) % length
    }
}

/// The position one further in a ring of the given length.
pub fn next_index(current: usize, length: usize) -> (next: usize)
    ensures
        next == ring_next(current as int, length as int),
{
    if length == 0 {
        return 0;
    }
    let base: usize = current % length;
    proof {
        vstd::arithmetic::div_mod::lemma_add_mod_noop(current as int, 1, length as int);
        if length == 1 {
            vstd::arithmetic::div_mod::lemma_mod_self_0(1);
        } else {
            vstd::arithmetic::div_mod::lemma_small_mod(1, length as nat);
        }
        if base + 1 == length {
            vstd::arithmetic::div_mod::lemma_mod_self_0(length as int);
        } else {
            vstd::arithmetic::div_mod::lemma_small_mod((base + 1) as nat, length as nat);
        }
    }
    if base + 1 == length {
        0
    } else {
        base + 1
    }
}

/// What a text field holds after a key: Backspace takes the last character off, a plain character
/// is added, everything else leaves the field as it is.
pub open spec fn edited(text: Seq<char>, key: KeyEvent) -> Seq<char> {
    match key.code {
        KeyCode::Backspace => if text.len() > 0 {
            text.drop_last()
        } else {
            text
        },
        KeyCode::Char(character) => if key.is_plain_text() {
            text.push(character)
        } else {
            text
        },
        _ => text,
    }
}

} // verus!
