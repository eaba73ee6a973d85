//! Taking what was read into the main screen.

use crate::app::filters;
use crate::app::filters::visible;
use crate::app::model::{Room, HALF_PAGE_MESSAGES};
use crate::app::status;
use crate::app::status::{clamp_index, last_position};
use crate::db::{HistoryPage, MemberSummary, Message, TeamSummary};
use crate::sorting;
use crate::sorting::sort;
use crate::strings::{option_is, same_text};
use vstd::prelude::*;

verus! {

/// Some team has the name.
pub open spec fn lists_team(teams: Seq<TeamSummary>, name: Seq<char>) -> bool {
    exists|i: int| 0 <= i < teams.len() && #[trigger] teams[i].name@ == name
}

/// The team stands at `index` first.
pub open spec fn first_listed(teams: Seq<TeamSummary>, name: Seq<char>, index: int) -> bool {
    &&& 0 <= index < teams.len()
    &&& teams[index].name@ == name
    &&& forall|i: int| 0 <= i < index ==> #[trigger] teams[i].name@ != name
}

/// Finds the first team with the name.
pub fn listed_position(teams: &Vec<TeamSummary>, name: &str) -> (found: Option<usize>)
    ensures
        match found {
            Some(index) => first_listed(teams@, name@, index as int),
            None => !lists_team(teams@, name@),
        },
{
    let mut index: usize = 0;
    while index < teams.len()
        invariant
            index <= teams@.len(),
            forall|i: int| 0 <= i < index ==> #[trigger] teams@[i].name@ != name@,
        decreases teams@.len() - index,
    {
        if same_text(teams[index].name.as_str(), name) {
            return Some(index);
        }
        index += 1;
    }
    None
}

/// Some message has the id.
pub open spec fn has_id(messages: Seq<Message>, id: i64) -> bool {
    exists|i: int| 0 <= i < messages.len() && #[trigger] messages[i].id == id
}

/// The message with the id stands at `index` first.
pub open spec fn first_with_id(messages: Seq<Message>, id: i64, index: int) -> bool {
    &&& 0 <= index < messages.len()
    &&& messages[index].id == id
    &&& forall|i: int| 0 <= i < index ==> #[trigger] messages[i].id != id
}

/// Finds the first message with the id.
pub fn id_position(messages: &Vec<Message>, id: i64) -> (found: Option<usize>)
    ensures
        match found {
            Some(index) => first_with_id(messages@, id, index as int),
            None => !has_id(messages@, id),
        },
{
    let mut index: usize = 0;
    while index < messages.len()
        invariant
            index <= messages@.len(),
            forall|i: int| 0 <= i < index ==> #[trigger] messages@[i].id != id,
        decreases messages@.len() - index,
    {
        if messages[index].id == id {
            return Some(index);
        }
        index += 1;
    }
    None
}

/// How many shown messages stand before the one with the id, from a position on.
pub open spec fn shown_before(
    messages: Seq<Message>,
    filter: Option<String>,
    query: Option<String>,
    id: Option<i64>,
    from: int,
) -> nat
    decreases messages.len() - from,
{
    if from >= messages.len() {
        0
    } else if !filters::is_visible(filter, query, messages[from]) {
        shown_before(messages, filter, query, id, from + 1)
    } else if id == Some(messages[from].id) {
        0
    } else {
        1 + shown_before(messages, filter, query, id, from + 1)
    }
}

/// The new messages of a team that are not there yet, in their order.
pub open spec fn appended(
    messages: Seq<Message>,
    arrivals: Seq<Message>,
    team: Option<String>,
) -> Seq<Message>
    decreases arrivals.len(),
{
    if arrivals.len() == 0 {
        messages
    } else {
        let before = appended(messages, arrivals.drop_last(), team);
        if is_for(team, arrivals.last()) && !has_id(before, arrivals.last().id) {
            before.push(arrivals.last())
        } else {
            before
        }
    }
}

/// The message belongs to the team.
pub open spec fn is_for(team: Option<String>, message: Message) -> bool {
    team matches Some(name) && name@ == message.team@
}

/// The message is unread and belongs to the team.
pub open spec fn is_relevant(team: Option<String>, message: Message) -> bool {
    is_for(team, message) && message.read_at is None
}

/// How many of the messages are unread and belong to the team.
pub open spec fn relevant_count(arrivals: Seq<Message>, team: Option<String>) -> nat
    decreases arrivals.len(),
{
    if arrivals.len() == 0 {
        0
    } else {
        relevant_count(arrivals.drop_last(), team) + if is_relevant(team, arrivals.last()) {
            1nat
        } else {
            0
        }
    }
}

/// The last of the messages that is unread and belongs to the team.
pub open spec fn latest_relevant(arrivals: Seq<Message>, team: Option<String>) -> Option<Message>
    decreases arrivals.len(),
{
    if arrivals.len() == 0 {
        None
    } else if is_relevant(team, arrivals.last()) {
        Some(arrivals.last())
    } else {
        latest_relevant(arrivals.drop_last(), team)
    }
}

/// There are no more relevant messages than messages.
pub proof fn relevant_count_bounded(arrivals: Seq<Message>, team: Option<String>)
    ensures
        relevant_count(arrivals, team) <= arrivals.len(),
    decreases arrivals.len(),
{
    if arrivals.len() > 0 {
        relevant_count_bounded(arrivals.drop_last(), team);
    }
}

impl Room {
    /// What a new list of teams does: the cursor stays on its team if that is still there.
    pub open spec fn teams_post(self, teams: Vec<TeamSummary>, after: Room) -> bool {
        &&& after == (Room { teams, selected_team: after.selected_team, ..self })
        &&& if self.selected_team < self.teams@.len() && lists_team(
            teams@,
            self.teams@[self.selected_team as int].name@,
        ) {
            first_listed(
                teams@,
                self.teams@[self.selected_team as int].name@,
                after.selected_team as int,
            )
        } else {
            after.selected_team == status::clamped_index(
                self.selected_team as int,
                teams@.len() as int,
            )
        }
    }

    /// Takes a new list of teams.
    pub fn take_teams(&mut self, teams: Vec<TeamSummary>)
        ensures
            old(self).teams_post(teams, *final(self)),
    {
        let fallback = clamp_index(self.selected_team, teams.len());
        let index: usize = if self.selected_team < self.teams.len() {
            match listed_position(&teams, self.teams[self.selected_team].name.as_str()) {
                Some(index) => {
                    assert(teams@[index as int].name@
                        == self.teams@[self.selected_team as int].name@);
                    index
                },
                None => fallback,
            }
        } else {
            fallback
        };
        self.teams = teams;
        self.selected_team = index;
    }

    /// The team under the cursor is the one that is shown.
    pub open spec fn activated(self, after: Room) -> bool {
        &&& after == (Room { active_team: after.active_team, ..self })
        &&& if self.selected_team < self.teams@.len() {
            after.active_team == Some(self.teams@[self.selected_team as int].name)
        } else {
            after.active_team is None
        }
    }

    /// Shows the team under the cursor.
    pub fn activate_team(&mut self)
        ensures
            old(self).activated(*final(self)),
    {
        self.active_team = if self.selected_team < self.teams.len() {
            Some(self.teams[self.selected_team].name.clone())
        } else {
            None
        };
    }

    /// The screen with other members.
    pub open spec fn with_members(self, members: Vec<MemberSummary>) -> Room {
        Room {
            members,
            selected_member: status::clamped_index(
                self.selected_member as int,
                members@.len() as int,
            ) as usize,
            ..self
        }
    }

    /// Takes the members of the team.
    pub fn take_members(&mut self, members: Vec<MemberSummary>)
        ensures
            *final(self) == old(self).with_members(members),
    {
        self.selected_member = clamp_index(self.selected_member, members.len());
        self.members = members;
    }

    /// The screen without members.
    pub open spec fn without_members(self, after: Room) -> bool {
        &&& after == (Room { members: after.members, selected_member: 0, ..self })
        &&& after.members@.len() == 0
    }

    /// Takes the members away.
    pub fn clear_members(&mut self)
        ensures
            old(self).without_members(*final(self)),
    {
        self.members = Vec::new();
        self.selected_member = 0;
    }

    /// The screen with the latest page of another history.
    pub open spec fn with_history(self, page: HistoryPage) -> Room {
        Room {
            messages: page.messages,
            has_more_history: page.has_more,
            selected_message: status::last_index(page.messages@.len() as int) as usize,
            ..self
        }
    }

    /// Takes the latest page of the team's history.
    pub fn take_history(&mut self, page: HistoryPage)
        ensures
            *final(self) == old(self).with_history(page),
    {
        self.selected_message = last_position(page.messages.len());
        self.messages = page.messages;
        self.has_more_history = page.has_more;
    }

    /// The screen without messages.
    pub open spec fn without_history(self, after: Room) -> bool {
        &&& after == (Room {
            messages: after.messages,
            selected_message: 0,
            has_more_history: false,
            ..self
        })
        &&& after.messages@.len() == 0
    }

    /// Takes the messages away.
    pub fn clear_history(&mut self)
        ensures
            old(self).without_history(*final(self)),
    {
        self.messages = Vec::new();
        self.selected_message = 0;
        self.has_more_history = false;
    }

    /// What an older page does: it comes before what is there, and the cursor stands on its last
    /// message.
    pub open spec fn older_post(self, page: HistoryPage, after: Room) -> bool {
        let inserted = page.messages@.len();
        &&& after == (Room {
            messages: after.messages,
            selected_message: if inserted > 0 {
                (inserted - 1) as usize
            } else {
                self.selected_message
            },
            has_more_history: page.has_more,
            ..self
        })
        &&& after.messages@ == page.messages@ + self.messages@
    }

    /// Takes an older page.
    pub fn take_older(&mut self, page: HistoryPage)
        ensures
            old(self).older_post(page, *final(self)),
    {
        let inserted: usize = page.messages.len();
        let mut messages = page.messages;
        messages.append(&mut self.messages);
        self.messages = messages;
        if inserted > 0 {
            self.selected_message = inserted - 1;
        }
        self.has_more_history = page.has_more;
    }

    /// What an older page does while the cursor goes up half a page: the cursor goes back to the
    /// message that it was on.
    pub open spec fn older_kept_post(
        self,
        page: HistoryPage,
        selected_id: Option<i64>,
        after: Room,
    ) -> bool {
        let inserted = page.messages@.len();
        let messages = page.messages@ + self.messages@;
        &&& after == (Room {
            messages: after.messages,
            selected_message: after.selected_message,
            has_more_history: page.has_more,
            ..self
        })
        &&& after.messages@ == messages
        &&& if selected_id is Some && has_id(messages, selected_id->Some_0) {
            first_with_id(messages, selected_id->Some_0, after.selected_message as int)
        } else if inserted > 0 {
            after.selected_message == inserted - 1
        } else {
            after.selected_message == self.selected_message
        }
    }

    /// Takes an older page and goes back to a message.
    pub fn take_older_keeping(&mut self, page: HistoryPage, selected_id: Option<i64>)
        ensures
            old(self).older_kept_post(page, selected_id, *final(self)),
    {
        let ghost joined = page.messages@ + self.messages@;
        let inserted: usize = page.messages.len();
        self.take_older(page);
        let found = match selected_id {
            Some(id) => id_position(&self.messages, id),
            None => None,
        };
        match found {
            Some(index) => {
                assert(joined[index as int].id == selected_id->Some_0);
                assert(has_id(joined, selected_id->Some_0));
                self.selected_message = index;
            },
            None => {
                assert(inserted > 0 ==> self.selected_message == inserted - 1);
            },
        }
    }

    /// The id of the oldest message that is there.
    pub open spec fn oldest_id(self) -> Option<i64> {
        if self.messages@.len() > 0 {
            Some(self.messages@[0].id)
        } else {
            None
        }
    }

    /// The id of the oldest message that is there.
    pub fn find_oldest_id(&self) -> (id: Option<i64>)
        ensures
            id == self.oldest_id(),
    {
        if self.messages.len() > 0 {
            Some(self.messages[0].id)
        } else {
            None
        }
    }

    /// The id of the message under the cursor.
    pub open spec fn selected_id(self) -> Option<i64> {
        match self.current_message() {
            Some(message) => Some(message.id),
            None => None,
        }
    }

    /// The id of the message under the cursor.
    pub fn find_selected_id(&self) -> (id: Option<i64>)
        ensures
            id == self.selected_id(),
    {
        match self.selected_message() {
            Some(message) => Some(message.id),
            None => None,
        }
    }

    /// Going up half a page needs an older page.
    pub open spec fn half_page_needs_older(self, selected_id: Option<i64>) -> bool {
        &&& self.has_more_history
        &&& shown_before(
            self.messages@,
            self.member_filter,
            self.search_query,
            selected_id,
            0,
        ) < HALF_PAGE_MESSAGES
    }

    /// Whether going up half a page needs an older page.
    pub fn needs_older_for_half_page(&self, selected_id: Option<i64>) -> (needed: bool)
        ensures
            needed == self.half_page_needs_older(selected_id),
    {
        let mut count: usize = 0;
        let mut index: usize = 0;
        while index < self.messages.len()
            invariant
                index <= self.messages@.len(),
                count <= index,
                count + shown_before(
                    self.messages@,
                    self.member_filter,
                    self.search_query,
                    selected_id,
                    index as int,
                ) == shown_before(
                    self.messages@,
                    self.member_filter,
                    self.search_query,
                    selected_id,
                    0,
                ),
            ensures
                count == shown_before(
                    self.messages@,
                    self.member_filter,
                    self.search_query,
                    selected_id,
                    0,
                ),
            decreases self.messages@.len() - index,
        {
            if visible(&self.member_filter, &self.search_query, &self.messages[index]) {
                if let Some(id) = selected_id {
                    if self.messages[index].id == id {
                        break;
                    }
                }
                count += 1;
            }
            index += 1;
        }
        self.has_more_history && count < HALF_PAGE_MESSAGES
    }

    /// A message that was found needs an older page to be there.
    pub open spec fn match_needs_older(self, id: i64) -> bool {
        self.has_more_history && !has_id(self.messages@, id)
    }

    /// Whether a message that was found needs an older page to be there.
    pub fn needs_older_for_match(&self, id: i64) -> (needed: bool)
        ensures
            needed == self.match_needs_older(id),
    {
        let found = id_position(&self.messages, id);
        proof {
            if let Some(index) = found {
                assert(self.messages@[index as int].id == id);
            }
        }
        self.has_more_history && found.is_none()
    }

    /// The cursor follows the latest message.
    pub open spec fn following(self) -> bool {
        self.messages@.len() == 0 || self.selected_message == self.messages@.len() - 1
    }

    /// What arrivals do: those of the team that are not there yet are sorted in, and a cursor that
    /// follows the latest message goes on following.
    pub open spec fn arrivals_post(self, arrivals: Seq<Message>, after: Room) -> bool {
        &&& after == (Room {
            messages: after.messages,
            selected_message: if self.following() {
                status::last_index(after.messages@.len() as int) as usize
            } else {
                self.selected_message
            },
            ..self
        })
        &&& after.messages@ == sorting::sorted(
            appended(self.messages@, arrivals, self.active_team),
        )
    }

    /// Takes arrivals, and tells how many are relevant and which one is the latest of these.
    pub fn take_arrivals(&mut self, arrivals: &Vec<Message>) -> (relevant: (usize, Option<Message>))
        ensures
            old(self).arrivals_post(arrivals@, *final(self)),
            relevant.0 == relevant_count(arrivals@, old(self).active_team),
            relevant.1 == latest_relevant(arrivals@, old(self).active_team),
    {
        let following = self.messages.len() == 0 || self.selected_message == self.messages.len()
            - 1;
        let ghost before = self.messages@;
        let ghost team = self.active_team;
        let mut messages: Vec<Message> = Vec::new();
        std::mem::swap(&mut messages, &mut self.messages);
        let mut count: usize = 0;
        let mut latest: Option<Message> = None;
        let mut index: usize = 0;
        proof {
            assert(arrivals@.take(0) =~= Seq::empty());
        }
        while index < arrivals.len()
            invariant
                index <= arrivals@.len(),
                self.active_team == team,
                count <= index,
                messages@ == appended(before, arrivals@.take(index as int), team),
                count == relevant_count(arrivals@.take(index as int), team),
                latest == latest_relevant(arrivals@.take(index as int), team),
                *self == (Room { messages: self.messages, ..*old(self) }),
            decreases arrivals@.len() - index,
        {
            let arrival = &arrivals[index];
            proof {
                assert(arrivals@.take(index + 1).drop_last() =~= arrivals@.take(index as int));
                assert(arrivals@.take(index + 1).last() == *arrival);
            }
            let ours = option_is(&self.active_team, arrival.team.as_str());
            if ours {
                let known = id_position(&messages, arrival.id);
                proof {
                    if let Some(place) = known {
                        assert(messages@[place as int].id == arrival.id);
                    }
                }
                if known.is_none() {
                    messages.push(arrival.clone());
                }
            }
            if ours && arrival.read_at.is_none() {
                count += 1;
                latest = Some(arrival.clone());
            }
            index += 1;
        }
        proof {
            assert(arrivals@.take(index as int) =~= arrivals@);
        }
        self.messages = sort(messages);
        if following {
            self.selected_message = last_position(self.messages.len());
        }
        (count, latest)
    }
}

/// Arrivals never take a message away: what was there is still there, and every message of the
/// team that arrived is there.
pub proof fn arrivals_are_kept(
    messages: Seq<Message>,
    arrivals: Seq<Message>,
    team: Option<String>,
    id: i64,
)
    ensures
        has_id(messages, id) ==> has_id(appended(messages, arrivals, team), id),
        forall|i: int|
            0 <= i < arrivals.len() && is_for(team, #[trigger] arrivals[i]) && arrivals[i].id == id
                ==> has_id(appended(messages, arrivals, team), id),
    decreases arrivals.len(),
{
    if arrivals.len() > 0 {
        let shorter = arrivals.drop_last();
        arrivals_are_kept(messages, shorter, team, id);
        let before = appended(messages, shorter, team);
        let after = appended(messages, arrivals, team);
        if has_id(before, id) {
            let k = choose|k: int| 0 <= k < before.len() && #[trigger] before[k].id == id;
            assert(after[k].id == id);
        }
        assert forall|i: int|
            0 <= i < arrivals.len() && is_for(team, #[trigger] arrivals[i]) && arrivals[i].id
                == id implies has_id(after, id) by {
            if i < shorter.len() {
                assert(shorter[i] == arrivals[i]);
            } else if !has_id(before, id) {
                assert(after[after.len() - 1].id == id);
            }
        }
    }
}

/// No id appears twice because of arrivals.
pub proof fn arrivals_keep_ids_apart(
    messages: Seq<Message>,
    arrivals: Seq<Message>,
    team: Option<String>,
)
    requires
        forall|i: int, j: int|
            0 <= i < j < messages.len() ==> #[trigger] messages[i].id != #[trigger] messages[j].id,
    ensures
        forall|i: int, j: int|
            0 <= i < j < appended(messages, arrivals, team).len()
                ==> #[trigger] appended(messages, arrivals, team)[i].id
                != #[trigger] appended(messages, arrivals, team)[j].id,
    decreases arrivals.len(),
{
    if arrivals.len() > 0 {
        let before = appended(messages, arrivals.drop_last(), team);
        let after = appended(messages, arrivals, team);
        arrivals_keep_ids_apart(messages, arrivals.drop_last(), team);
        assert forall|i: int, j: int| 0 <= i < j < after.len() implies #[trigger] after[i].id
            != #[trigger] after[j].id by {
            if j < before.len() {
                assert(before[i].id != before[j].id);
            } else if i < before.len() {
                assert(before[i].id == after[i].id);
            }
        }
    }
}

/// Live tail: a cursor on the latest message stands on the latest message after arrivals too, a
/// cursor on an earlier message keeps its place in the list, and the first messages of an empty
/// room are shown from their end.
pub proof fn live_tail_is_followed(before: Room, arrivals: Seq<Message>, after: Room)
    requires
        before.arrivals_post(arrivals, after),
    ensures
        before.messages@.len() > 0 && before.selected_message + 1 == before.messages@.len()
            ==> after.selected_message + 1 == after.messages@.len(),
        before.messages@.len() > 0 && before.selected_message + 1 != before.messages@.len()
            ==> after.selected_message == before.selected_message,
        before.messages@.len() == 0 && after.messages@.len() > 0 ==> after.selected_message + 1
            == after.messages@.len(),
        before.messages@.len() <= after.messages@.len(),
{
    let all = appended(before.messages@, arrivals, before.active_team);
    appending_grows(before.messages@, arrivals, before.active_team);
    sorting::sorting_is_a_permutation(all);
    assert(after.messages@.len() == after.messages.len());
}

proof fn appending_grows(messages: Seq<Message>, arrivals: Seq<Message>, team: Option<String>)
    ensures
        appended(messages, arrivals, team).len() >= messages.len(),
    decreases arrivals.len(),
{
    if arrivals.len() > 0 {
        appending_grows(messages, arrivals.drop_last(), team);
    }
}

} // verus!
