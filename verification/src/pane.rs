//! The two panes of a split main screen.
//!
//! The active pane is the room itself; the other pane keeps a copy of what it shows.

use crate::app::filters;
use crate::app::filters::message_holds;
use crate::app::model::{ExpandedMessage, Focus, FOLD_CHAR_THRESHOLD};
use crate::app::room;
use crate::app::room::find_expanded;
use crate::db::{MemberSummary, Message, TeamSummary};
use crate::strings;
use crate::strings::{same_text, to_lowercase};
use vstd::prelude::*;

verus! {

/// What the inactive pane shows.
#[derive(Debug)]
pub struct PaneState {
    pub selected_team: usize,
    pub active_team: Option<String>,
    pub active_team_host: String,
    pub members: Vec<MemberSummary>,
    pub selected_member: usize,
    pub messages: Vec<Message>,
    pub selected_message: usize,
    pub focus: Focus,
    pub has_more_history: bool,
}

/// The place of a pane.
#[derive(Clone, Copy, Debug, PartialEq, Eq, Structural)]
pub enum PaneIdx {
    First,
    Second,
}

impl PaneIdx {
    /// The other place.
    pub open spec fn opposite(self) -> PaneIdx {
        match self {
            PaneIdx::First => PaneIdx::Second,
            PaneIdx::Second => PaneIdx::First,
        }
    }

    /// The other place.
    #[must_use]
    pub fn other(self) -> (place: Self)
        ensures
            place == self.opposite(),
    {
        match self {
            PaneIdx::First => PaneIdx::Second,
            PaneIdx::Second => PaneIdx::First,
        }
    }
}

/// The other place of the other place is the place itself.
pub proof fn opposite_twice(place: PaneIdx)
    ensures
        place.opposite() != place,
        place.opposite().opposite() == place,
{
}

/// Whether the main screen is split.
#[derive(Debug)]
pub enum SplitMode {
    Off,
    Split { second: PaneState, active: PaneIdx },
}

impl Default for SplitMode {
    fn default() -> (mode: Self)
        ensures
            mode is Off,
    {
        SplitMode::Off
    }
}

/// What a pane shows, wherever it is kept. The filter and the search belong to the active pane
/// alone.
pub struct PaneView<'a> {
    pub teams: &'a Vec<TeamSummary>,
    pub selected_team: usize,
    pub active_team: Option<&'a str>,
    pub members: &'a Vec<MemberSummary>,
    pub selected_member: usize,
    pub messages: &'a Vec<Message>,
    pub selected_message: usize,
    pub focus: Focus,
    pub has_more_history: bool,
    pub member_filter: Option<&'a str>,
    pub search_query: Option<&'a str>,
    pub expanded_messages: &'a Vec<ExpandedMessage>,
    pub current_identity: Option<&'a str>,
}

/// The message was sent or received by the member; without a filter, every message passes.
pub open spec fn passes_member(filter: Option<&str>, message: Message) -> bool {
    match filter {
        Some(name) => message.from_agent@ == name@ || message.to_agent@ == name@,
        None => true,
    }
}

/// The message holds what is searched for, whatever the case; an empty search finds everything.
pub open spec fn passes_search(query: Option<&str>, message: Message) -> bool {
    match query {
        Some(query) => query@.len() == 0 || filters::holds_text(
            message,
            strings::lowercase(query@),
        ),
        None => true,
    }
}

impl<'a> PaneView<'a> {
    /// The name of the team that is shown.
    pub fn selected_team_name(&self) -> (name: Option<&str>)
        ensures
            name == self.active_team,
    {
        self.active_team
    }

    /// The selected message.
    pub fn selected_message(&self) -> (message: Option<&Message>)
        ensures
            match message {
                Some(message) => self.selected_message < self.messages@.len() && *message
                    == self.messages@[self.selected_message as int],
                None => self.selected_message >= self.messages@.len(),
            },
    {
        if self.selected_message < self.messages.len() {
            Some(&self.messages[self.selected_message])
        } else {
            None
        }
    }

    /// Whether a message passes the member filter.
    pub fn message_matches_filter(&self, message: &Message) -> (matches: bool)
        ensures
            matches == passes_member(self.member_filter, *message),
    {
        match self.member_filter {
            Some(name) => same_text(message.from_agent.as_str(), name) || same_text(
                message.to_agent.as_str(),
                name,
            ),
            None => true,
        }
    }

    /// Whether a message holds what is searched for.
    pub fn message_matches_search(&self, message: &Message) -> (matches: bool)
        ensures
            matches == passes_search(self.search_query, *message),
    {
        match self.search_query {
            Some(query) => {
                if query.is_empty() {
                    return true;
                }
                let wanted = to_lowercase(query);
                message_holds(message, wanted.as_str())
            },
            None => true,
        }
    }

    /// Whether a message is shown.
    pub fn message_matches_filters(&self, message: &Message) -> (matches: bool)
        ensures
            matches == (passes_member(self.member_filter, *message) && passes_search(
                self.search_query,
                *message,
            )),
    {
        self.message_matches_filter(message) && self.message_matches_search(message)
    }

    /// Whether a message is folded, given how many columns its body takes up.
    pub fn body_is_folded(&self, message: &Message, display_width: usize) -> (folded: bool)
        ensures
            folded == (display_width > FOLD_CHAR_THRESHOLD && !room::is_expanded(
                self.expanded_messages@,
                message.team@,
                message.id,
            )),
    {
        display_width > FOLD_CHAR_THRESHOLD && !find_expanded(
            self.expanded_messages,
            message.team.as_str(),
            message.id,
        )
    }

    /// Whether the reader wrote a message.
    pub fn is_own_message(&self, message: &Message) -> (own: bool)
        ensures
            own == match self.current_identity {
                Some(identity) => identity@ == message.from_agent@,
                None => false,
            },
    {
        match self.current_identity {
            Some(identity) => same_text(identity, message.from_agent.as_str()),
            None => false,
        }
    }
}

} // verus!
