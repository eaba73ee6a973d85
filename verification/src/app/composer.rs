//! The composer: the message that is being written.

use crate::search;
use crate::strings;
use crate::strings::{char_is_whitespace, chars_of, string_from, string_of};
use vstd::prelude::*;

verus! {

/// The longest body, in bytes, that is sent without a warning.
pub const BODY_WARN_BYTES: usize = 2_048;

/// The longest body, in bytes, that is sent at all.
pub const BODY_BLOCK_BYTES: usize = 4_096;

/// The message that is being written: who may send and receive, who does, the body, and the
/// position of the cursor in it, in characters.
#[derive(Debug, PartialEq, Eq)]
pub struct ComposerState {
    pub roster: Vec<String>,
    pub from_index: usize,
    pub to_index: usize,
    pub body: String,
    pub cursor: usize,
}

/// How long a body is.
#[derive(Clone, Copy, Debug, PartialEq, Eq, Structural)]
pub enum BodySizeLevel {
    Normal,
    Warning,
    Blocked,
}

/// The length of a text in UTF-8.
pub open spec fn byte_length(text: Seq<char>) -> nat {
    vstd::utf8::encode_utf8(text).len()
}

/// How long a body of so many bytes is.
pub open spec fn size_level(bytes: nat) -> BodySizeLevel {
    if bytes <= BODY_WARN_BYTES {
        BodySizeLevel::Normal
    } else if bytes <= BODY_BLOCK_BYTES {
        BodySizeLevel::Warning
    } else {
        BodySizeLevel::Blocked
    }
}

/// Where the word before the cursor begins: past the white space before the cursor, and past the
/// word before that.
pub open spec fn word_start(body: Seq<char>, cursor: int) -> int {
    letters_start(body, blanks_start(body, cursor))
}

/// Where the white space before a position begins.
pub open spec fn blanks_start(body: Seq<char>, position: int) -> int
    decreases position,
{
    if 0 < position && strings::is_white_space(body[position - 1]) {
        blanks_start(body, position - 1)
    } else {
        position
    }
}

/// Where the run without white space before a position begins.
pub open spec fn letters_start(body: Seq<char>, position: int) -> int
    decreases position,
{
    if 0 < position && !strings::is_white_space(body[position - 1]) {
        letters_start(body, position - 1)
    } else {
        position
    }
}

/// The composer's values that contracts speak of.
#[verifier::ext_equal]
pub struct ComposerView {
    pub roster: Seq<Seq<char>>,
    pub from_index: int,
    pub to_index: int,
    pub body: Seq<char>,
    pub cursor: int,
}

impl View for ComposerState {
    type V = ComposerView;

    open spec fn view(&self) -> ComposerView {
        ComposerView {
            roster: search::texts(self.roster@),
            from_index: self.from_index as int,
            to_index: self.to_index as int,
            body: self.body@,
            cursor: self.cursor as int,
        }
    }
}

/// A copy of a list of texts.
pub fn clone_texts(strings: &Vec<String>) -> (copy: Vec<String>)
    ensures
        copy@ == strings@,
{
    let mut copy: Vec<String> = Vec::new();
    let mut index: usize = 0;
    while index < strings.len()
        invariant
            index <= strings@.len(),
            copy@ == strings@.take(index as int),
        decreases strings@.len() - index,
    {
        copy.push(strings[index].clone());
        index += 1;
        proof {
            assert(copy@ =~= strings@.take(index as int));
        }
    }
    proof {
        assert(strings@.take(index as int) =~= strings@);
    }
    copy
}

impl Clone for ComposerState {
    fn clone(&self) -> (copy: Self)
        ensures
            copy@ == self@,
    {
        ComposerState {
            roster: clone_texts(&self.roster),
            from_index: self.from_index,
            to_index: self.to_index,
            body: self.body.clone(),
            cursor: self.cursor,
        }
    }
}

impl ComposerState {
    /// The cursor stands in the body or at its end.
    pub open spec fn wf(self) -> bool {
        self.cursor <= self.body@.len()
    }

    /// The agent at a position of the roster.
    pub open spec fn agent_at(self, index: usize) -> Option<Seq<char>> {
        if index < self.roster@.len() {
            Some(self.roster@[index as int]@)
        } else {
            None
        }
    }

    /// The sender.
    pub fn from_agent(&self) -> (agent: Option<&str>)
        ensures
            match agent {
                Some(agent) => self.agent_at(self.from_index) == Some(agent@),
                None => self.agent_at(self.from_index) is None,
            },
    {
        if self.from_index < self.roster.len() {
            Some(self.roster[self.from_index].as_str())
        } else {
            None
        }
    }

    /// The recipient.
    pub fn to_agent(&self) -> (agent: Option<&str>)
        ensures
            match agent {
                Some(agent) => self.agent_at(self.to_index) == Some(agent@),
                None => self.agent_at(self.to_index) is None,
            },
    {
        if self.to_index < self.roster.len() {
            Some(self.roster[self.to_index].as_str())
        } else {
            None
        }
    }

    /// The length of the body in bytes.
    pub fn body_bytes(&self) -> (bytes: usize)
        ensures
            bytes == byte_length(self.body@),
    {
        self.body.as_str().as_bytes().len()
    }

    /// How long the body is.
    pub fn body_size_level(&self) -> (level: BodySizeLevel)
        ensures
            level == size_level(byte_length(self.body@)),
    {
        if self.body_bytes() <= BODY_WARN_BYTES {
            BodySizeLevel::Normal
        } else if self.body_bytes() <= BODY_BLOCK_BYTES {
            BodySizeLevel::Warning
        } else {
            BodySizeLevel::Blocked
        }
    }

    /// Types a character at the cursor.
    pub fn insert_char(&mut self, character: char)
        requires
            old(self).wf(),
        ensures
            final(self).wf(),
            *final(self) == (ComposerState {
                body: final(self).body,
                cursor: (old(self).cursor + 1) as usize,
                ..*old(self)
            }),
            final(self).body@ == old(self).body@.insert(old(self).cursor as int, character),
    {
        let mut characters = chars_of(self.body.as_str());
        characters.insert(self.cursor, character);
        let length: usize = characters.len();
        assert(self.cursor < length);
        self.cursor += 1;
        self.body = string_from(&characters);
    }

    /// Takes the character before the cursor away.
    pub fn backspace(&mut self)
        requires
            old(self).wf(),
        ensures
            final(self).wf(),
            old(self).cursor == 0 ==> *final(self) == *old(self),
            old(self).cursor > 0 ==> *final(self) == (ComposerState {
                body: final(self).body,
                cursor: (old(self).cursor - 1) as usize,
                ..*old(self)
            }) && final(self).body@ == old(self).body@.remove(old(self).cursor - 1),
    {
        if self.cursor == 0 {
            return;
        }
        let mut characters = chars_of(self.body.as_str());
        self.cursor -= 1;
        let _ = characters.remove(self.cursor);
        self.body = string_from(&characters);
    }

    /// Takes the character at the cursor away.
    pub fn delete(&mut self)
        requires
            old(self).wf(),
        ensures
            final(self).wf(),
            old(self).cursor == old(self).body@.len() ==> *final(self) == *old(self),
            old(self).cursor < old(self).body@.len() ==> *final(self) == (ComposerState {
                body: final(self).body,
                ..*old(self)
            }) && final(self).body@ == old(self).body@.remove(old(self).cursor as int),
    {
        let mut characters = chars_of(self.body.as_str());
        if self.cursor < characters.len() {
            let _ = characters.remove(self.cursor);
            self.body = string_from(&characters);
        }
    }

    /// Takes the word before the cursor away, with the white space after it.
    pub fn delete_previous_word(&mut self)
        requires
            old(self).wf(),
        ensures
            final(self).wf(),
            old(self).cursor == 0 ==> *final(self) == *old(self),
            old(self).cursor > 0 ==> ({
                let start = word_start(old(self).body@, old(self).cursor as int);
                &&& 0 <= start <= old(self).cursor
                &&& *final(self) == (ComposerState {
                    body: final(self).body,
                    cursor: start as usize,
                    ..*old(self)
                })
                &&& final(self).body@ == old(self).body@.take(start) + old(self).body@.skip(
                    old(self).cursor as int,
                )
            }),
    {
        if self.cursor == 0 {
            return;
        }
        let characters = chars_of(self.body.as_str());
        let mut start: usize = self.cursor;
        while start > 0 && char_is_whitespace(characters[start - 1])
            invariant
                start <= self.cursor <= characters@.len(),
                characters@ == self.body@,
                self.cursor > 0,
                blanks_start(characters@, start as int) == blanks_start(
                    characters@,
                    self.cursor as int,
                ),
            decreases start,
        {
            start -= 1;
        }
        let ghost blanks = start as int;
        while start > 0 && !char_is_whitespace(characters[start - 1])
            invariant
                start <= blanks <= self.cursor <= characters@.len(),
                blanks == blanks_start(characters@, self.cursor as int),
                letters_start(characters@, start as int) == letters_start(characters@, blanks),
            decreases start,
        {
            start -= 1;
        }
        let head = string_of(&characters, 0, start);
        let tail = string_of(&characters, self.cursor, characters.len());
        proof {
            assert(head@ =~= self.body@.take(start as int));
            assert(tail@ =~= self.body@.skip(self.cursor as int));
        }
        self.body = strings::concat2(head.as_str(), tail.as_str());
        self.cursor = start;
    }
}

/// Typing a character and taking it back restores the body and the cursor.
pub proof fn backspace_undoes_typing(body: Seq<char>, cursor: int, character: char)
    requires
        0 <= cursor <= body.len(),
    ensures
        body.insert(cursor, character).remove(cursor) == body,
{
    assert(body.insert(cursor, character).remove(cursor) =~= body);
}

/// A body is blocked exactly above the limit and warned of exactly between the two limits.
pub proof fn body_size_boundaries(bytes: nat)
    ensures
        size_level(bytes) == BodySizeLevel::Normal <==> bytes <= 2_048,
        size_level(bytes) == BodySizeLevel::Warning <==> 2_048 < bytes <= 4_096,
        size_level(bytes) == BodySizeLevel::Blocked <==> bytes > 4_096,
{
}

} // verus!
