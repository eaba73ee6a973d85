//! What the screens show of the state.

use crate::app::filters;
use crate::app::model::{App, AuditSelection, FOLD_CHAR_THRESHOLD, FOLD_PREVIEW_LINES};
use crate::app::room;
use crate::db::{
    AgentIdentitySummary, AgentTeamSummary, Message, PairMatrix,
};
use crate::health::TeamHealth;
use crate::notify::PendingNotification;
use crate::search;
use crate::search::{join, split};
use crate::strings::{char_count, option_is};
use vstd::prelude::*;

verus! {

impl App {
    /// The team that is shown.
    pub fn selected_team_name(&self) -> (name: Option<&str>)
        ensures
            match name {
                Some(name) => self.room.active_team matches Some(team) && team@ == name@,
                None => self.room.active_team is None,
            },
    {
        self.room.selected_team_name()
    }

    /// The names of the teams.
    pub fn team_names(&self) -> (names: Vec<String>)
        ensures
            search::texts(names@) == room::names_of(self.room.teams@),
    {
        self.room.team_names()
    }

    /// The unread messages of all teams.
    pub fn total_unread(&self) -> (total: usize)
        requires
            room::unread_sum(self.room.teams@) <= usize::MAX,
        ensures
            total == room::unread_sum(self.room.teams@),
    {
        self.room.total_unread()
    }

    /// The message under the cursor.
    pub fn selected_message(&self) -> (message: Option<&Message>)
        ensures
            match message {
                Some(message) => self.room.current_message() == Some(*message),
                None => self.room.current_message() is None,
            },
    {
        self.room.selected_message()
    }

    /// The body of the message under the cursor, never folded.
    pub fn selected_message_body(&self) -> (body: Option<&str>)
        ensures
            match body {
                Some(body) => self.room.current_message() matches Some(message) && message.body@
                    == body@,
                None => self.room.current_message() is None,
            },
    {
        self.room.selected_message_body()
    }

    /// The team under the cursor of the agents screen.
    pub fn selected_agent_team(&self) -> (team: Option<&AgentTeamSummary>)
        ensures
            match team {
                Some(team) => self.agents.team() == Some(*team),
                None => self.agents.team() is None,
            },
    {
        self.agents.selected_agent_team()
    }

    /// The identity under the cursor of the agents screen.
    pub fn selected_agent_identity(&self) -> (identity: Option<&AgentIdentitySummary>)
        ensures
            match identity {
                Some(identity) => self.agents.identity() == Some(*identity),
                None => self.agents.identity() is None,
            },
    {
        self.agents.selected_agent_identity()
    }

    /// Whether a body is shown folded: it is wide, and its message was not unfolded.
    pub fn body_is_folded(&self, message: &Message, display_width: usize) -> (folded: bool)
        ensures
            folded == (display_width > FOLD_CHAR_THRESHOLD && !room::is_expanded(
                self.room.expanded_messages@,
                message.team@,
                message.id,
            )),
    {
        self.room.body_is_folded(message, display_width)
    }

    /// Whether a message was sent under the own identity.
    pub fn is_own_message(&self, message: &Message) -> (own: bool)
        ensures
            own == (self.current_identity matches Some(identity) && identity@
                == message.from_agent@),
    {
        option_is(&self.current_identity, message.from_agent.as_str())
    }

    /// Whether a message passes the member filter.
    pub fn message_matches_filter(&self, message: &Message) -> (matches: bool)
        ensures
            matches == filters::matches_member(self.room.member_filter, *message),
    {
        self.room.message_matches_filter(message)
    }

    /// Whether a message passes the search.
    pub fn message_matches_search(&self, message: &Message) -> (matches: bool)
        ensures
            matches == filters::matches_search(self.room.search_query, *message),
    {
        self.room.message_matches_search(message)
    }

    /// Whether a message is shown.
    pub fn message_matches_filters(&self, message: &Message) -> (matches: bool)
        ensures
            matches == self.room.shows(*message),
    {
        self.room.message_matches_filters(message)
    }

    /// Whether the banner of a burst is still shown.
    pub fn is_burst_active(&self, now: u64) -> (active: bool)
        ensures
            active == self.notices.burst_active(now),
    {
        self.notices.is_burst_active(now)
    }

    /// Hands the notifications that wait to be given over.
    pub fn drain_pending_notifications(&mut self) -> (pending: Vec<PendingNotification>)
        ensures
            pending@ == old(self).notices.pending@,
            final(self).notices.pending@.len() == 0,
            *final(self) == (App {
                notices: crate::app::model::Notices {
                    pending: final(self).notices.pending,
                    ..old(self).notices
                },
                ..*old(self)
            }),
            old(self).wf() ==> final(self).wf(),
    {
        self.notices.drain_pending_notifications()
    }

    /// The team under the cursor of the health screen.
    pub fn current_health_team(&self) -> (team: Option<&TeamHealth>)
        ensures
            match team {
                Some(team) => self.health.team() == Some(*team),
                None => self.health.team() is None,
            },
    {
        self.health.current_health_team()
    }

    /// The matrix under the cursor of the audit screen.
    pub fn current_pair_matrix(&self) -> (matrix: Option<&PairMatrix>)
        ensures
            match matrix {
                Some(matrix) => self.audit.matrix() == Some(*matrix),
                None => self.audit.matrix() is None,
            },
    {
        self.audit.current_pair_matrix()
    }

    /// How many items the audit screen lists.
    pub fn audit_item_count(&self) -> (count: usize)
        ensures
            count == self.audit.item_count(),
    {
        self.audit.audit_item_count()
    }

    /// The item under the cursor of the audit screen.
    pub fn selected_audit_item(&self) -> (item: Option<AuditSelection<'_>>)
        ensures
            match item {
                Some(AuditSelection::Zombie(zombie)) => self.audit.zombie() == Some(*zombie),
                Some(AuditSelection::Stale(stale)) => self.audit.stale() == Some(*stale),
                None => self.audit.zombie() is None && self.audit.stale() is None,
            },
    {
        self.audit.selected_audit_item()
    }
}

/// The first lines of a body.
pub open spec fn folded_text(body: Seq<char>) -> Seq<char> {
    let lines = search::pieces(body, '\n');
    search::joined(
        if lines.len() > FOLD_PREVIEW_LINES {
            lines.take(FOLD_PREVIEW_LINES as int)
        } else {
            lines
        },
        "\n"@,
    )
}

/// How many characters the first lines of a body leave out.
pub open spec fn left_out(body: Seq<char>) -> int {
    if body.len() > folded_text(body).len() {
        body.len() - folded_text(body).len()
    } else {
        0
    }
}

/// The first lines of a folded body, and how many characters are left out.
pub fn fold_preview(body: &str) -> (preview: (String, usize))
    ensures
        preview.0@ == folded_text(body@),
        preview.1 == left_out(body@),
{
    let mut lines = split(body, '\n');
    let ghost all = lines@;
    if lines.len() > FOLD_PREVIEW_LINES {
        lines.truncate(FOLD_PREVIEW_LINES);
        proof {
            assert(lines@ =~= all.take(FOLD_PREVIEW_LINES as int));
            assert(search::texts(lines@) =~= search::texts(all).take(FOLD_PREVIEW_LINES as int));
        }
    }
    let preview = join(&lines, "\n");
    let total: usize = char_count(body);
    let shown: usize = char_count(preview.as_str());
    let left: usize = if total > shown {
        total - shown
    } else {
        0
    };
    (preview, left)
}

} // verus!
