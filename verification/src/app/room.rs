//! Moving through teams, members and messages on the main screen.

use crate::app::filters;
use crate::app::filters::{
    find_first_visible, find_next_visible, find_previous_visible, in_member_filter, in_search,
    visible,
};
use crate::app::model::{ExpandedMessage, Focus, Room, FOLD_CHAR_THRESHOLD, HALF_PAGE_MESSAGES};
use crate::app::status;
use crate::app::status::last_position;
use crate::db::{Message, TeamSummary};
use crate::strings::same_text;
use vstd::prelude::*;

verus! {

impl Focus {
    /// The list after this one.
    pub open spec fn following(self) -> Focus {
        match self {
            Focus::Teams => Focus::Members,
            Focus::Members => Focus::Room,
            Focus::Room => Focus::Teams,
        }
    }

    /// The list before this one.
    pub open spec fn preceding(self) -> Focus {
        match self {
            Focus::Teams => Focus::Room,
            Focus::Members => Focus::Teams,
            Focus::Room => Focus::Members,
        }
    }

    /// The list after this one.
    pub fn next(self) -> (focus: Focus)
        ensures
            focus == self.following(),
    {
        match self {
            Focus::Teams => Focus::Members,
            Focus::Members => Focus::Room,
            Focus::Room => Focus::Teams,
        }
    }

    /// The list before this one.
    pub fn previous(self) -> (focus: Focus)
        ensures
            focus == self.preceding(),
    {
        match self {
            Focus::Teams => Focus::Room,
            Focus::Members => Focus::Teams,
            Focus::Room => Focus::Members,
        }
    }
}

/// Tab and Shift-Tab undo each other, and three Tabs come back to the same list.
pub proof fn focus_cycle(focus: Focus)
    ensures
        focus.following().preceding() == focus,
        focus.preceding().following() == focus,
        focus.following().following().following() == focus,
{
}

/// The unread messages of all teams.
pub open spec fn unread_sum(teams: Seq<TeamSummary>) -> nat
    decreases teams.len(),
{
    if teams.len() == 0 {
        0
    } else {
        unread_sum(teams.drop_last()) + teams.last().unread_count as nat
    }
}

proof fn unread_sum_prefix(teams: Seq<TeamSummary>, index: int)
    requires
        0 <= index <= teams.len(),
    ensures
        unread_sum(teams.take(index)) <= unread_sum(teams),
    decreases teams.len(),
{
    if index == teams.len() {
        assert(teams.take(index) =~= teams);
    } else {
        unread_sum_prefix(teams.drop_last(), index);
        assert(teams.drop_last().take(index) =~= teams.take(index));
    }
}

/// The names of some teams.
pub open spec fn names_of(teams: Seq<TeamSummary>) -> Seq<Seq<char>> {
    Seq::new(teams.len(), |i: int| teams[i].name@)
}

/// A message of a team is shown in full.
pub open spec fn is_expanded(expanded: Seq<ExpandedMessage>, team: Seq<char>, id: i64) -> bool {
    exists|k: int|
        0 <= k < expanded.len() && #[trigger] expanded[k].team@ == team && expanded[k].id == id
}

pub(crate) fn find_expanded(expanded: &Vec<ExpandedMessage>, team: &str, id: i64) -> (found: bool)
    ensures
        found == is_expanded(expanded@, team@, id),
{
    let mut index: usize = 0;
    while index < expanded.len()
        invariant
            index <= expanded@.len(),
            forall|k: int|
                0 <= k < index ==> !(#[trigger] expanded@[k].team@ == team@ && expanded@[k].id
                    == id),
        decreases expanded@.len() - index,
    {
        if expanded[index].id == id && same_text(expanded[index].team.as_str(), team) {
            assert(expanded@[index as int].team@ == team@);
            return true;
        }
        index += 1;
    }
    false
}

/// Exactly one message changes whether it is shown in full.
pub open spec fn expansion_set(
    before: Seq<ExpandedMessage>,
    after: Seq<ExpandedMessage>,
    team: Seq<char>,
    id: i64,
    on: bool,
) -> bool {
    forall|t: Seq<char>, i: i64|
        #[trigger] is_expanded(after, t, i) == if t == team && i == id {
            on
        } else {
            is_expanded(before, t, i)
        }
}

pub(crate) fn set_expanded(expanded: &mut Vec<ExpandedMessage>, team: &str, id: i64, on: bool)
    ensures
        expansion_set(old(expanded)@, final(expanded)@, team@, id, on),
{
    if on {
        if find_expanded(expanded, team, id) {
            return;
        }
        let ghost before = expanded@;
        expanded.push(ExpandedMessage { team: team.to_owned(), id });
        proof {
            assert forall|t: Seq<char>, i: i64|
                #[trigger] is_expanded(expanded@, t, i) == if t == team@ && i == id {
                    on
                } else {
                    is_expanded(before, t, i)
                } by {
                if is_expanded(before, t, i) {
                    let k = choose|k: int|
                        0 <= k < before.len() && #[trigger] before[k].team@ == t && before[k].id
                            == i;
                    assert(expanded@[k].team@ == t);
                }
                assert(expanded@[before.len() as int].team@ == team@);
                if is_expanded(expanded@, t, i) {
                    let k = choose|k: int|
                        0 <= k < expanded@.len() && #[trigger] expanded@[k].team@ == t
                            && expanded@[k].id == i;
                    if k < before.len() {
                        assert(before[k].team@ == t);
                    }
                }
            }
        }
        return;
    }
    let ghost before = expanded@;
    let mut index: usize = 0;
    while index < expanded.len()
        invariant
            index <= expanded@.len(),
            forall|k: int|
                0 <= k < index ==> !(#[trigger] expanded@[k].team@ == team@ && expanded@[k].id
                    == id),
            forall|t: Seq<char>, i: i64|
                !(t == team@ && i == id) ==> #[trigger] is_expanded(expanded@, t, i)
                    == is_expanded(before, t, i),
        decreases expanded@.len() - index,
    {
        let ghost current = expanded@;
        let found = expanded[index].id == id && same_text(expanded[index].team.as_str(), team);
        assert(found == (current[index as int].team@ == team@ && current[index as int].id == id));
        if found {
            let _ = expanded.remove(index);
            proof {
                assert forall|k: int| 0 <= k < index implies !(#[trigger] expanded@[k].team@
                    == team@ && expanded@[k].id == id) by {
                    assert(expanded@[k] == current[k]);
                }
                assert forall|t: Seq<char>, i: i64| !(t == team@ && i == id) implies (
                #[trigger] is_expanded(expanded@, t, i)) == is_expanded(before, t, i) by {
                    assert(is_expanded(current, t, i) == is_expanded(before, t, i));
                    if is_expanded(current, t, i) {
                        let k = choose|k: int|
                            0 <= k < current.len() && #[trigger] current[k].team@ == t
                                && current[k].id == i;
                        if k < index {
                            assert(expanded@[k].team@ == t);
                        } else {
                            assert(k != index);
                            assert(expanded@[k - 1].team@ == t);
                        }
                    }
                    if is_expanded(expanded@, t, i) {
                        let k = choose|k: int|
                            0 <= k < expanded@.len() && #[trigger] expanded@[k].team@ == t
                                && expanded@[k].id == i;
                        if k < index {
                            assert(current[k].team@ == t);
                        } else {
                            assert(current[k + 1].team@ == t);
                        }
                    }
                }
            }
        } else {
            index += 1;
        }
    }
}

/// The message has more characters than are shown at once.
pub open spec fn is_long(message: Message) -> bool {
    message.body@.len() > FOLD_CHAR_THRESHOLD
}

/// The distance between two positions.
pub open spec fn distance(a: int, b: int) -> int {
    if a < b {
        b - a
    } else {
        a - b
    }
}

/// A message other than that at `current` is of the same sender.
pub open spec fn same_sender(messages: Seq<Message>, current: int, other: int) -> bool {
    &&& 0 <= other < messages.len()
    &&& other != current
    &&& messages[other].from_agent@ == messages[current].from_agent@
}

/// The nearest other message of the same sender; of two at the same distance, the later one.
pub open spec fn is_nearest(messages: Seq<Message>, current: int, nearest: int) -> bool {
    &&& same_sender(messages, current, nearest)
    &&& forall|other: int|
        #[trigger] same_sender(messages, current, other) ==> distance(nearest, current) < distance(
            other,
            current,
        ) || (distance(nearest, current) == distance(other, current) && (nearest >= current || other
            < current))
}

/// The positions of the unread messages that are shown, in order.
pub open spec fn unread_positions(
    messages: Seq<Message>,
    filter: Option<String>,
    query: Option<String>,
) -> Seq<usize>
    decreases messages.len(),
{
    if messages.len() == 0 {
        Seq::empty()
    } else {
        let before = unread_positions(messages.drop_last(), filter, query);
        if messages.last().read_at is None && filters::is_visible(filter, query, messages.last()) {
            before.push((messages.len() - 1) as usize)
        } else {
            before
        }
    }
}

/// The first value of a list that is above a limit; the first one of all if there is none.
pub open spec fn first_above(values: Seq<usize>, limit: usize) -> usize {
    let below = filters::count_below(values, (limit + 1) as usize);
    if limit < usize::MAX && below < values.len() {
        values[below]
    } else {
        values[0]
    }
}

/// Where half a page up or down leads among the shown messages: from the place of the selected
/// message, or from where it would stand.
pub open spec fn half_page_place(positions: Seq<usize>, selected: usize, forward: bool) -> int {
    let current = if positions.contains(selected) {
        filters::count_below(positions, selected)
    } else {
        let place = filters::count_below(positions, selected) - if forward {
            0int
        } else {
            1
        };
        if place < 0 {
            0
        } else if place > positions.len() - 1 {
            positions.len() - 1
        } else {
            place
        }
    };
    if forward {
        if current + HALF_PAGE_MESSAGES < positions.len() - 1 {
            current + HALF_PAGE_MESSAGES
        } else {
            positions.len() - 1
        }
    } else if current > HALF_PAGE_MESSAGES {
        current - HALF_PAGE_MESSAGES
    } else {
        0
    }
}

impl Room {
    /// The message is shown.
    pub open spec fn shows(self, message: Message) -> bool {
        filters::is_visible(self.member_filter, self.search_query, message)
    }

    /// The positions of the messages that are shown.
    pub open spec fn shown_positions(self) -> Seq<usize> {
        filters::visible_positions(self.messages@, self.member_filter, self.search_query)
    }

    /// The team whose messages are shown.
    pub fn selected_team_name(&self) -> (name: Option<&str>)
        ensures
            match name {
                Some(name) => self.active_team matches Some(team) && team@ == name@,
                None => self.active_team is None,
            },
    {
        match &self.active_team {
            Some(team) => Some(team.as_str()),
            None => None,
        }
    }

    /// The names of the teams.
    pub fn team_names(&self) -> (names: Vec<String>)
        ensures
            crate::search::texts(names@) == names_of(self.teams@),
    {
        let mut names: Vec<String> = Vec::new();
        let mut index: usize = 0;
        while index < self.teams.len()
            invariant
                index <= self.teams@.len(),
                names@.len() == index,
                forall|i: int| 0 <= i < index ==> #[trigger] names@[i]@ == self.teams@[i].name@,
            decreases self.teams@.len() - index,
        {
            names.push(self.teams[index].name.clone());
            index += 1;
        }
        proof {
            assert(crate::search::texts(names@) =~= names_of(self.teams@));
        }
        names
    }

    /// The unread messages of all teams.
    pub fn total_unread(&self) -> (total: usize)
        requires
            unread_sum(self.teams@) <= usize::MAX,
        ensures
            total == unread_sum(self.teams@),
    {
        let mut total: usize = 0;
        let mut index: usize = 0;
        proof {
            assert(self.teams@.take(0) =~= Seq::empty());
        }
        while index < self.teams.len()
            invariant
                index <= self.teams@.len(),
                total == unread_sum(self.teams@.take(index as int)),
                unread_sum(self.teams@) <= usize::MAX,
            decreases self.teams@.len() - index,
        {
            proof {
                assert(self.teams@.take(index + 1).drop_last() =~= self.teams@.take(index as int));
                unread_sum_prefix(self.teams@, index + 1);
            }
            total += self.teams[index].unread_count;
            index += 1;
        }
        proof {
            assert(self.teams@.take(index as int) =~= self.teams@);
        }
        total
    }

    /// The selected message.
    pub open spec fn current_message(self) -> Option<Message> {
        if self.selected_message < self.messages@.len() {
            Some(self.messages@[self.selected_message as int])
        } else {
            None
        }
    }

    /// The selected message.
    pub fn selected_message(&self) -> (message: Option<&Message>)
        ensures
            match message {
                Some(message) => self.current_message() == Some(*message),
                None => self.current_message() is None,
            },
    {
        if self.selected_message < self.messages.len() {
            Some(&self.messages[self.selected_message])
        } else {
            None
        }
    }

    /// The whole body of the selected message, however it is shown.
    pub fn selected_message_body(&self) -> (body: Option<&str>)
        ensures
            match body {
                Some(body) => self.current_message() matches Some(message) && message.body@ == body@,
                None => self.current_message() is None,
            },
    {
        match self.selected_message() {
            Some(message) => Some(message.body.as_str()),
            None => None,
        }
    }

    /// Whether a message is folded, given how many columns its body takes up: it is too wide, and
    /// was not unfolded.
    pub fn body_is_folded(&self, message: &Message, display_width: usize) -> (folded: bool)
        ensures
            folded == (display_width > FOLD_CHAR_THRESHOLD && !is_expanded(
                self.expanded_messages@,
                message.team@,
                message.id,
            )),
    {
        display_width > FOLD_CHAR_THRESHOLD && !find_expanded(
            &self.expanded_messages,
            message.team.as_str(),
            message.id,
        )
    }

    /// Whether a message passes the member filter.
    pub fn message_matches_filter(&self, message: &Message) -> (matches: bool)
        ensures
            matches == filters::matches_member(self.member_filter, *message),
    {
        in_member_filter(&self.member_filter, message)
    }

    /// Whether a message holds what is searched for.
    pub fn message_matches_search(&self, message: &Message) -> (matches: bool)
        ensures
            matches == filters::matches_search(self.search_query, *message),
    {
        in_search(&self.search_query, message)
    }

    /// Whether a message is shown.
    pub fn message_matches_filters(&self, message: &Message) -> (matches: bool)
        ensures
            matches == self.shows(*message),
    {
        visible(&self.member_filter, &self.search_query, message)
    }

    /// Moves the cursor of the focused list down.
    pub fn move_down(&mut self)
        ensures
            *final(self) == match old(self).focus {
                Focus::Teams => Room {
                    selected_team: status::stepped_down(
                        old(self).selected_team as int,
                        old(self).teams@.len() as int,
                    ) as usize,
                    ..*old(self)
                },
                Focus::Members => Room {
                    selected_member: status::stepped_down(
                        old(self).selected_member as int,
                        old(self).members@.len() as int,
                    ) as usize,
                    ..*old(self)
                },
                Focus::Room => Room {
                    selected_message: match filters::next_visible(
                        old(self).messages@,
                        old(self).member_filter,
                        old(self).search_query,
                        old(self).selected_message as int,
                    ) {
                        Some(next) => next as usize,
                        None => old(self).selected_message,
                    },
                    ..*old(self)
                },
            },
    {
        match self.focus {
            Focus::Teams => {
                self.selected_team = status::step_down(self.selected_team, self.teams.len());
            },
            Focus::Members => {
                self.selected_member = status::step_down(self.selected_member, self.members.len());
            },
            Focus::Room => {
                if let Some(next) = find_next_visible(
                    &self.messages,
                    &self.member_filter,
                    &self.search_query,
                    self.selected_message,
                ) {
                    self.selected_message = next;
                }
            },
        }
    }

    /// The state after the cursor of the focused list moved up within what is loaded.
    pub open spec fn moved_up(self) -> Room {
        match self.focus {
            Focus::Teams => Room {
                selected_team: if self.selected_team > 0 {
                    (self.selected_team - 1) as usize
                } else {
                    0
                },
                ..self
            },
            Focus::Members => Room {
                selected_member: if self.selected_member > 0 {
                    (self.selected_member - 1) as usize
                } else {
                    0
                },
                ..self
            },
            Focus::Room => Room {
                selected_message: match filters::previous_visible(
                    self.messages@,
                    self.member_filter,
                    self.search_query,
                    self.selected_message as int,
                ) {
                    Some(previous) => previous as usize,
                    None => self.selected_message,
                },
                ..self
            },
        }
    }

    /// Moves the cursor of the focused list up within what is loaded.
    pub fn move_up_loaded(&mut self)
        ensures
            *final(self) == old(self).moved_up(),
    {
        match self.focus {
            Focus::Teams => {
                self.selected_team = self.selected_team.saturating_sub(1);
            },
            Focus::Members => {
                self.selected_member = self.selected_member.saturating_sub(1);
            },
            Focus::Room => {
                if let Some(previous) = find_previous_visible(
                    &self.messages,
                    &self.member_filter,
                    &self.search_query,
                    self.selected_message,
                ) {
                    self.selected_message = previous;
                }
            },
        }
    }

    /// Moves the cursor of the focused list to its beginning.
    pub fn move_first(&mut self)
        ensures
            *final(self) == match old(self).focus {
                Focus::Teams => Room { selected_team: 0, ..*old(self) },
                Focus::Members => Room { selected_member: 0, ..*old(self) },
                Focus::Room => Room {
                    selected_message: match filters::next_visible(
                        old(self).messages@,
                        old(self).member_filter,
                        old(self).search_query,
                        -1,
                    ) {
                        Some(first) => first as usize,
                        None => old(self).selected_message,
                    },
                    ..*old(self)
                },
            },
    {
        match self.focus {
            Focus::Teams => {
                self.selected_team = 0;
            },
            Focus::Members => {
                self.selected_member = 0;
            },
            Focus::Room => {
                if let Some(first) = find_first_visible(
                    &self.messages,
                    &self.member_filter,
                    &self.search_query,
                ) {
                    self.selected_message = first;
                }
            },
        }
    }

    /// Moves the cursor of the focused list to its end.
    pub fn move_last(&mut self)
        ensures
            *final(self) == match old(self).focus {
                Focus::Teams => Room {
                    selected_team: status::last_index(old(self).teams@.len() as int) as usize,
                    ..*old(self)
                },
                Focus::Members => Room {
                    selected_member: status::last_index(old(self).members@.len() as int) as usize,
                    ..*old(self)
                },
                Focus::Room => Room {
                    selected_message: match filters::previous_visible(
                        old(self).messages@,
                        old(self).member_filter,
                        old(self).search_query,
                        old(self).messages@.len() as int,
                    ) {
                        Some(last) => last as usize,
                        None => old(self).selected_message,
                    },
                    ..*old(self)
                },
            },
    {
        match self.focus {
            Focus::Teams => {
                self.selected_team = last_position(self.teams.len());
            },
            Focus::Members => {
                self.selected_member = last_position(self.members.len());
            },
            Focus::Room => {
                if let Some(last) = find_previous_visible(
                    &self.messages,
                    &self.member_filter,
                    &self.search_query,
                    self.messages.len(),
                ) {
                    self.selected_message = last;
                }
            },
        }
    }
}

} // verus!
