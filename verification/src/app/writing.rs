//! Writing a message: what each key does in the composer.

use crate::app::composer;
use crate::app::composer::{BodySizeLevel, ComposerState, BODY_BLOCK_BYTES};
use crate::app::drafts;
use crate::app::drafts::{insert_draft, remove_draft};
use crate::app::model::{SendRequest, Writing};
use crate::app::status;
use crate::app::status::{error_status, info_status, next_index, validation_status, StatusLine};
use crate::input::{KeyCode, KeyEvent};
use crate::search;
use crate::search::{position_of, trim};
use crate::strings;
use crate::strings::{char_count, concat5, decimal_usize};
use vstd::prelude::*;

verus! {

/// What a key asks for beyond the composer.
#[derive(Debug)]
pub enum ComposerRequest {
    Nothing,
    LeaveScreen,
    /// Show what runs in the background.
    Spinner,
    Send(SendRequest),
}

/// What a refused body is answered.
pub open spec fn too_long_text(bytes: nat) -> Seq<char> {
    "body "@ + strings::decimal(bytes) + "B exceeds "@ + strings::decimal(BODY_BLOCK_BYTES as nat)
        + "B; share a file path instead"@
}

/// The agent at a position of the roster; empty if there is none.
pub open spec fn agent_or_empty(agent: Option<Seq<char>>) -> Seq<char> {
    match agent {
        Some(agent) => agent,
        None => Seq::empty(),
    }
}

impl ComposerState {
    /// Some position of the cursor, with everything else as it is.
    pub open spec fn with_cursor(self, cursor: int) -> ComposerState {
        ComposerState { cursor: cursor as usize, ..self }
    }

    /// What a key without Control does to the message.
    pub open spec fn key_post(self, key: KeyEvent, after: ComposerState) -> bool {
        let roster = self.roster@.len() as int;
        match key.code {
            KeyCode::Tab => after == (ComposerState {
                from_index: status::ring_next(self.from_index as int, roster) as usize,
                ..self
            }),
            KeyCode::BackTab => after == (ComposerState {
                to_index: status::ring_next(self.to_index as int, roster) as usize,
                ..self
            }),
            KeyCode::Left => after == self.with_cursor(
                if self.cursor == 0 {
                    0
                } else {
                    self.cursor - 1
                },
            ),
            KeyCode::Right => after == self.with_cursor(
                if self.cursor < self.body@.len() {
                    self.cursor + 1
                } else {
                    self.body@.len() as int
                },
            ),
            KeyCode::Home => after == self.with_cursor(0),
            KeyCode::End => after == self.with_cursor(self.body@.len() as int),
            KeyCode::Backspace => if self.cursor == 0 {
                after == self
            } else {
                &&& after == (ComposerState {
                    body: after.body,
                    ..self.with_cursor(self.cursor - 1)
                })
                &&& after.body@ == self.body@.remove(self.cursor - 1)
            },
            KeyCode::Delete => if self.cursor == self.body@.len() {
                after == self
            } else {
                &&& after == (ComposerState { body: after.body, ..self })
                &&& after.body@ == self.body@.remove(self.cursor as int)
            },
            KeyCode::Enter => self.types('\n', after),
            KeyCode::Char(character) => self.types(character, after),
            _ => after == self,
        }
    }

    /// A character was typed at the cursor.
    pub open spec fn types(self, character: char, after: ComposerState) -> bool {
        &&& after == (ComposerState { body: after.body, ..self.with_cursor(self.cursor + 1) })
        &&& after.body@ == self.body@.insert(self.cursor as int, character)
    }

    /// Applies a key without Control.
    pub fn key(&mut self, key: KeyEvent)
        requires
            old(self).wf(),
        ensures
            old(self).key_post(key, *final(self)),
            final(self).wf(),
    {
        match key.code {
            KeyCode::Tab => {
                self.from_index = next_index(self.from_index, self.roster.len());
            },
            KeyCode::BackTab => {
                self.to_index = next_index(self.to_index, self.roster.len());
            },
            KeyCode::Left => {
                if self.cursor > 0 {
                    self.cursor = self.cursor - 1;
                }
            },
            KeyCode::Right => {
                let length: usize = char_count(self.body.as_str());
                if self.cursor < length {
                    self.cursor = self.cursor + 1;
                }
            },
            KeyCode::Home => {
                self.cursor = 0;
            },
            KeyCode::End => {
                self.cursor = char_count(self.body.as_str());
            },
            KeyCode::Backspace => {
                self.backspace();
            },
            KeyCode::Delete => {
                self.delete();
            },
            KeyCode::Enter => {
                self.insert_char('\n');
            },
            KeyCode::Char(character) => {
                self.insert_char(character);
            },
            _ => {},
        }
    }

    /// What sending answers: an empty or a too long body is refused.
    pub open spec fn send_post(
        self,
        team: Seq<char>,
        line: Option<StatusLine>,
        request: ComposerRequest,
    ) -> bool {
        let bytes = composer::byte_length(self.body@);
        if search::trimmed(self.body@).len() == 0 {
            status::objects(line, "body is empty"@) && request is Nothing
        } else if composer::size_level(bytes) == BodySizeLevel::Blocked {
            status::objects(line, too_long_text(bytes)) && request is Nothing
        } else {
            &&& line is None
            &&& request matches ComposerRequest::Send(sent) && sent.team@ == team && sent.from@
                == agent_or_empty(self.agent_at(self.from_index)) && sent.to@ == agent_or_empty(
                self.agent_at(self.to_index),
            ) && sent.body@ == self.body@
        }
    }

    /// Asks for the message to be sent, unless its body is empty or too long.
    pub fn send(&self, team: &str) -> (result: (Option<StatusLine>, ComposerRequest))
        ensures
            self.send_post(team@, result.0, result.1),
    {
        if trim(self.body.as_str()).as_str().is_empty() {
            return (Some(error_status("body is empty")), ComposerRequest::Nothing);
        }
        if self.body_size_level() == BodySizeLevel::Blocked {
            let bytes = decimal_usize(self.body_bytes());
            let limit = decimal_usize(BODY_BLOCK_BYTES);
            return (
                Some(
                    validation_status(
                        concat5(
                            "body ",
                            bytes.as_str(),
                            "B exceeds ",
                            limit.as_str(),
                            "B; share a file path instead",
                        ),
                    ),
                ),
                ComposerRequest::Nothing,
            );
        }
        let from = match self.from_agent() {
            Some(agent) => agent.to_owned(),
            None => String::new(),
        };
        let to = match self.to_agent() {
            Some(agent) => agent.to_owned(),
            None => String::new(),
        };
        proof {
            assert(from@ =~= agent_or_empty(self.agent_at(self.from_index)));
            assert(to@ =~= agent_or_empty(self.agent_at(self.to_index)));
        }
        (
            None,
            ComposerRequest::Send(
                SendRequest { team: team.to_owned(), from, to, body: self.body.clone() },
            ),
        )
    }
}

/// The place of a name in the roster; `fallback` if it is not in it.
pub open spec fn place_in(
    roster: Seq<String>,
    name: Option<Seq<char>>,
    fallback: int,
    index: int,
) -> bool {
    if name matches Some(name) && search::lists(roster, name) {
        search::first_position(roster, name->Some_0, index)
    } else {
        index == fallback
    }
}

/// Finds the place of a name in the roster.
pub fn find_in(roster: &Vec<String>, name: &Option<String>, fallback: usize) -> (index: usize)
    ensures
        place_in(
            roster@,
            match *name {
                Some(name) => Some(name@),
                None => None,
            },
            fallback as int,
            index as int,
        ),
{
    match name {
        Some(name) => match position_of(roster, name.as_str()) {
            Some(index) => {
                assert(roster@[index as int]@ == name@);
                assert(search::lists(roster@, name@));
                index
            },
            None => fallback,
        },
        None => fallback,
    }
}

/// The second place of a roster, or the first one if there is no other.
pub open spec fn second_place(count: int) -> int {
    if count > 1 {
        1
    } else {
        0
    }
}

impl Writing {
    /// What Escape does: the message is kept as the team's draft.
    pub open spec fn leave_post(self, team: Option<String>, after: Writing) -> bool {
        &&& after.composer is None
        &&& match (team, self.composer) {
            (Some(team), Some(composer)) => drafts::draft_map(after.drafts@) == drafts::draft_map(
                self.drafts@,
            ).insert(team@, composer@),
            _ => after.drafts == self.drafts,
        }
    }

    /// Keeps the message as the team's draft.
    pub fn leave(&mut self, team: &Option<String>)
        requires
            old(self).wf(),
        ensures
            old(self).leave_post(*team, *final(self)),
            final(self).wf(),
    {
        let taken = self.composer.take();
        if let Some(team) = team {
            if let Some(composer) = taken {
                insert_draft(&mut self.drafts, team.as_str(), composer);
            }
        }
    }

    /// What clearing the message does: its team has no draft any more.
    pub open spec fn clear_post(
        self,
        composer: ComposerState,
        team: Option<String>,
        after: Writing,
    ) -> bool {
        &&& after.composer matches Some(cleared) && cleared == (ComposerState {
            body: cleared.body,
            cursor: 0,
            ..composer
        }) && cleared.body@.len() == 0
        &&& match team {
            Some(team) => drafts::draft_map(after.drafts@) == drafts::draft_map(
                self.drafts@,
            ).remove(team@),
            None => after.drafts == self.drafts,
        }
    }

    /// What a key with Control does to the message.
    pub open spec fn control_post(
        self,
        composer: ComposerState,
        key: KeyEvent,
        team: Option<String>,
        busy: bool,
        after: Writing,
        line: Option<StatusLine>,
        request: ComposerRequest,
    ) -> bool {
        match key.code {
            KeyCode::Char('s') => {
                &&& after == self
                &&& if busy {
                    line is None && request is Spinner
                } else {
                    match team {
                        Some(team) => composer.send_post(team@, line, request),
                        None => line is None && request is Nothing,
                    }
                }
            },
            KeyCode::Char('a') => {
                &&& after == (Writing { composer: Some(composer.with_cursor(0)), ..self })
                &&& line is None
                &&& request is Nothing
            },
            KeyCode::Char('e') => {
                &&& after == (Writing {
                    composer: Some(composer.with_cursor(composer.body@.len() as int)),
                    ..self
                })
                &&& line is None
                &&& request is Nothing
            },
            KeyCode::Char('w') => {
                &&& after == (Writing { composer: after.composer, ..self })
                &&& after.composer matches Some(new) && word_deleted(composer, new)
                &&& line is None
                &&& request is Nothing
            },
            KeyCode::Char('k') => {
                &&& self.clear_post(composer, team, after)
                &&& status::tells(line, "draft cleared"@)
                &&& request is Nothing
            },
            _ => after == self && line is None && request is Nothing,
        }
    }

    /// What a key does in the composer; `busy` tells whether some script runs.
    pub open spec fn key_post(
        self,
        key: KeyEvent,
        team: Option<String>,
        busy: bool,
        after: Writing,
        line: Option<StatusLine>,
        request: ComposerRequest,
    ) -> bool {
        if key.code == KeyCode::Esc {
            &&& self.leave_post(team, after)
            &&& status::tells(line, "draft saved"@)
            &&& request is LeaveScreen
        } else {
            match self.composer {
                None => after == self && line is None && request is LeaveScreen,
                Some(composer) => if key.modifiers.control {
                    self.control_post(composer, key, team, busy, after, line, request)
                } else {
                    &&& after == (Writing { composer: after.composer, ..self })
                    &&& after.composer matches Some(new) && composer.key_post(key, new)
                    &&& line is None
                    &&& request is Nothing
                },
            }
        }
    }

    fn control_key(
        &mut self,
        composer: ComposerState,
        key: KeyEvent,
        team: &Option<String>,
        busy: bool,
    ) -> (result: (Option<StatusLine>, ComposerRequest))
        requires
            old(self).wf(),
            old(self).composer is None,
            composer.wf(),
        ensures
            (Writing { composer: Some(composer), ..*old(self) }).control_post(
                composer,
                key,
                *team,
                busy,
                *final(self),
                result.0,
                result.1,
            ),
            final(self).wf(),
    {
        let mut composer = composer;
        match key.code {
            KeyCode::Char('s') => {
                let result = if busy {
                    (None, ComposerRequest::Spinner)
                } else {
                    match team {
                        Some(team) => composer.send(team.as_str()),
                        None => (None, ComposerRequest::Nothing),
                    }
                };
                self.composer = Some(composer);
                result
            },
            KeyCode::Char('a') => {
                composer.cursor = 0;
                self.composer = Some(composer);
                (None, ComposerRequest::Nothing)
            },
            KeyCode::Char('e') => {
                composer.cursor = char_count(composer.body.as_str());
                self.composer = Some(composer);
                (None, ComposerRequest::Nothing)
            },
            KeyCode::Char('w') => {
                composer.delete_previous_word();
                self.composer = Some(composer);
                (None, ComposerRequest::Nothing)
            },
            KeyCode::Char('k') => {
                composer.body.clear();
                composer.cursor = 0;
                if let Some(team) = team {
                    let _ = remove_draft(&mut self.drafts, team.as_str());
                }
                self.composer = Some(composer);
                (Some(info_status("draft cleared")), ComposerRequest::Nothing)
            },
            _ => {
                self.composer = Some(composer);
                (None, ComposerRequest::Nothing)
            },
        }
    }

    /// Applies a key to the composer; `busy` tells whether some script runs.
    pub fn key(&mut self, key: KeyEvent, team: &Option<String>, busy: bool) -> (result: (
        Option<StatusLine>,
        ComposerRequest,
    ))
        requires
            old(self).wf(),
        ensures
            old(self).key_post(key, *team, busy, *final(self), result.0, result.1),
            final(self).wf(),
    {
        if key.code == KeyCode::Esc {
            self.leave(team);
            return (Some(info_status("draft saved")), ComposerRequest::LeaveScreen);
        }
        match self.composer.take() {
            None => (None, ComposerRequest::LeaveScreen),
            Some(composer) => {
                if key.modifiers.control {
                    self.control_key(composer, key, team, busy)
                } else {
                    let mut composer = composer;
                    composer.key(key);
                    self.composer = Some(composer);
                    (None, ComposerRequest::Nothing)
                }
            },
        }
    }

    /// What opening the composer with an empty message does; an empty roster opens nothing.
    pub open spec fn open_post(
        self,
        identity: Option<String>,
        to: Option<String>,
        fallback: int,
        roster: Vec<String>,
        after: Writing,
    ) -> bool {
        &&& after == (Writing { composer: after.composer, ..self })
        &&& after.composer matches Some(new) && new.roster == roster && new.body@.len() == 0
            && new.cursor == 0 && place_in(
            roster@,
            match identity {
                Some(own) => Some(own@),
                None => None,
            },
            0,
            new.from_index as int,
        ) && place_in(
            roster@,
            match to {
                Some(to) => Some(to@),
                None => None,
            },
            fallback,
            new.to_index as int,
        )
    }

    /// Opens the composer with an empty message.
    pub fn open(
        &mut self,
        identity: &Option<String>,
        to: &Option<String>,
        fallback: usize,
        roster: Vec<String>,
    )
        requires
            old(self).wf(),
        ensures
            old(self).open_post(*identity, *to, fallback as int, roster, *final(self)),
            final(self).wf(),
    {
        let from_index = find_in(&roster, identity, 0);
        let to_index = find_in(&roster, to, fallback);
        self.composer = Some(
            ComposerState { roster, from_index, to_index, body: String::new(), cursor: 0 },
        );
    }

    /// What taking a draft up again does; a new roster that is not empty takes the place of the
    /// old one, with sender and recipient found again by name.
    pub open spec fn restore_post(
        self,
        team: Seq<char>,
        roster: Option<Vec<String>>,
        after: Writing,
    ) -> bool {
        let kept = drafts::draft_map(self.drafts@)[team];
        &&& drafts::draft_map(after.drafts@) == drafts::draft_map(self.drafts@).remove(team)
        &&& after.composer matches Some(new) && new@.body == kept.body && new@.cursor
            == kept.cursor && match roster {
            Some(roster) if roster@.len() > 0 => new.roster == roster && place_in(
                roster@,
                if 0 <= kept.from_index < kept.roster.len() {
                    Some(kept.roster[kept.from_index])
                } else {
                    None
                },
                0,
                new.from_index as int,
            ) && place_in(
                roster@,
                if 0 <= kept.to_index < kept.roster.len() {
                    Some(kept.roster[kept.to_index])
                } else {
                    None
                },
                second_place(roster@.len() as int),
                new.to_index as int,
            ),
            _ => new@ == kept,
        }
    }

    /// Takes the draft for a team up again.
    pub fn restore_draft(&mut self, team: &str, roster: Option<Vec<String>>) -> (restored: bool)
        requires
            old(self).wf(),
        ensures
            restored == drafts::has_draft(old(self).drafts@, team@),
            restored ==> old(self).restore_post(team@, roster, *final(self)),
            !restored ==> *final(self) == *old(self),
            final(self).wf(),
    {
        proof {
            drafts::draft_map_domain(self.drafts@, team@);
        }
        let draft = match remove_draft(&mut self.drafts, team) {
            Some(draft) => draft,
            None => {
                return false;
            },
        };
        let mut draft = draft;
        let ghost kept = draft@;
        let from = match draft.from_agent() {
            Some(agent) => Some(agent.to_owned()),
            None => None,
        };
        let to = match draft.to_agent() {
            Some(agent) => Some(agent.to_owned()),
            None => None,
        };
        if let Some(roster) = roster {
            if roster.len() > 0 {
                let second: usize = if roster.len() > 1 {
                    1
                } else {
                    0
                };
                draft.from_index = find_in(&roster, &from, 0);
                draft.to_index = find_in(&roster, &to, second);
                draft.roster = roster;
            }
        }
        self.composer = Some(draft);
        true
    }
}

/// The word before the cursor was taken away.
pub open spec fn word_deleted(before: ComposerState, after: ComposerState) -> bool {
    if before.cursor == 0 {
        after == before
    } else {
        let start = composer::word_start(before.body@, before.cursor as int);
        &&& 0 <= start <= before.cursor
        &&& after == (ComposerState { body: after.body, ..before.with_cursor(start) })
        &&& after.body@ == before.body@.take(start) + before.body@.skip(before.cursor as int)
    }
}

/// Leaving the composer and taking the draft up again gives the message back as it was.
pub proof fn drafts_come_back(before: Writing, team: String, left: Writing, after: Writing)
    requires
        before.composer is Some,
        before.leave_post(Some(team), left),
        left.restore_post(team@, None, after),
    ensures
        after.composer matches Some(new) && new@ == before.composer->Some_0@,
{
}

/// A message is sent exactly as it was written, and only if its body is neither empty nor too
/// long.
pub proof fn only_fit_bodies_are_sent(
    composer: ComposerState,
    team: Seq<char>,
    line: Option<StatusLine>,
    request: ComposerRequest,
)
    requires
        composer.send_post(team, line, request),
    ensures
        request is Send <==> search::trimmed(composer.body@).len() > 0 && composer::byte_length(
            composer.body@,
        ) <= 4_096,
        request matches ComposerRequest::Send(sent) ==> sent.body@ == composer.body@,
{
}

/// A message goes from the agent that the composer shows as the sender to the one that it shows as
/// the recipient, in the team that is shown.
pub proof fn messages_go_from_sender_to_recipient(
    composer: ComposerState,
    team: Seq<char>,
    line: Option<StatusLine>,
    request: ComposerRequest,
)
    requires
        composer.send_post(team, line, request),
    ensures
        request matches ComposerRequest::Send(sent) ==> {
            &&& sent.team@ == team
            &&& composer.from_index < composer.roster@.len() ==> sent.from@
                == composer.roster@[composer.from_index as int]@
            &&& composer.to_index < composer.roster@.len() ==> sent.to@
                == composer.roster@[composer.to_index as int]@
            &&& composer.from_index >= composer.roster@.len() ==> sent.from@.len() == 0
            &&& composer.to_index >= composer.roster@.len() ==> sent.to@.len() == 0
        },
        request is Send <==> line is None,
        !(request is Send) ==> request is Nothing,
{
}

} // verus!
