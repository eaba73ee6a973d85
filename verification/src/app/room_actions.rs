//! Folding, jumping, filtering and searching in the room.

use crate::app::filters;
use crate::app::filters::{list_visible, partition_below};
use crate::app::model::{Room, FOLD_CHAR_THRESHOLD, HALF_PAGE_MESSAGES};
use crate::app::room;
use crate::app::room::{find_expanded, set_expanded};
use crate::app::status;
use crate::app::status::{error_status, info_status, notice, StatusLine};
use crate::db::Message;
use crate::strings;
use crate::strings::{char_count, concat2, concat3, decimal_usize, option_is, same_text};
use vstd::prelude::*;

verus! {

/// In an ascending list a value is found behind all the smaller ones.
pub proof fn ascending_place(positions: Seq<usize>, value: usize)
    requires
        forall|k: int, l: int|
            0 <= k < l < positions.len() ==> (#[trigger] positions[k]) < (#[trigger] positions[l]),
    ensures
        0 <= filters::count_below(positions, value) <= positions.len(),
        positions.contains(value) <==> filters::count_below(positions, value) < positions.len()
            && positions[filters::count_below(positions, value)] == value,
    decreases positions.len(),
{
    if positions.len() > 0 && positions[0] < value {
        let rest = positions.skip(1);
        assert forall|k: int, l: int| 0 <= k < l < rest.len() implies (#[trigger] rest[k]) < (
        #[trigger] rest[l]) by {
            assert(positions[k + 1] < positions[l + 1]);
        }
        ascending_place(rest, value);
        let below = filters::count_below(rest, value);
        if below < rest.len() {
            assert(rest[below] == positions[below + 1]);
        }
        if positions.contains(value) {
            let i = choose|i: int| 0 <= i < positions.len() && positions[i] == value;
            assert(i > 0);
            assert(rest[i - 1] == value);
            assert(rest.contains(value));
        }
        if rest.contains(value) {
            let i = choose|i: int| 0 <= i < rest.len() && rest[i] == value;
            assert(positions[i + 1] == value);
        }
    } else if positions.len() > 0 {
        if positions.contains(value) {
            let i = choose|i: int| 0 <= i < positions.len() && positions[i] == value;
            if i > 0 {
                assert(positions[0] < positions[i]);
            }
        }
    }
}

fn list_unread(
    messages: &Vec<Message>,
    filter: &Option<String>,
    query: &Option<String>,
) -> (positions: Vec<usize>)
    ensures
        positions@ == room::unread_positions(messages@, *filter, *query),
{
    let mut positions: Vec<usize> = Vec::new();
    let mut index: usize = 0;
    proof {
        assert(messages@.take(0) =~= Seq::empty());
        assert(positions@ =~= room::unread_positions(messages@.take(0), *filter, *query));
    }
    while index < messages.len()
        invariant
            index <= messages@.len(),
            positions@ == room::unread_positions(messages@.take(index as int), *filter, *query),
        decreases messages@.len() - index,
    {
        proof {
            assert(messages@.take(index + 1).drop_last() =~= messages@.take(index as int));
        }
        if messages[index].read_at.is_none() && filters::visible(filter, query, &messages[index]) {
            positions.push(index);
        }
        index += 1;
    }
    proof {
        assert(messages@.take(index as int) =~= messages@);
    }
    positions
}

/// The numbers of the long messages, in order.
pub open spec fn long_ids(messages: Seq<Message>) -> Seq<i64>
    decreases messages.len(),
{
    if messages.len() == 0 {
        Seq::empty()
    } else if room::is_long(messages.last()) {
        long_ids(messages.drop_last()).push(messages.last().id)
    } else {
        long_ids(messages.drop_last())
    }
}

fn list_long(messages: &Vec<Message>) -> (ids: Vec<i64>)
    ensures
        ids@ == long_ids(messages@),
{
    let mut ids: Vec<i64> = Vec::new();
    let mut index: usize = 0;
    proof {
        assert(messages@.take(0) =~= Seq::empty());
        assert(ids@ =~= long_ids(messages@.take(0)));
    }
    while index < messages.len()
        invariant
            index <= messages@.len(),
            ids@ == long_ids(messages@.take(index as int)),
        decreases messages@.len() - index,
    {
        proof {
            assert(messages@.take(index + 1).drop_last() =~= messages@.take(index as int));
        }
        if char_count(messages[index].body.as_str()) > FOLD_CHAR_THRESHOLD {
            ids.push(messages[index].id);
        }
        index += 1;
    }
    proof {
        assert(messages@.take(index as int) =~= messages@);
    }
    ids
}

fn find_nearest(messages: &Vec<Message>, current: usize) -> (nearest: Option<usize>)
    requires
        current < messages@.len(),
    ensures
        match nearest {
            Some(index) => room::is_nearest(messages@, current as int, index as int),
            None => forall|other: int| !#[trigger] room::same_sender(
                messages@,
                current as int,
                other,
            ),
        },
{
    let mut best: Option<usize> = None;
    let mut index: usize = 0;
    while index < messages.len()
        invariant
            index <= messages@.len(),
            current < messages@.len(),
            match best {
                Some(found) => found < index && room::same_sender(
                    messages@,
                    current as int,
                    found as int,
                ) && forall|other: int|
                    other < index && #[trigger] room::same_sender(messages@, current as int, other)
                        ==> room::distance(found as int, current as int) < room::distance(
                        other,
                        current as int,
                    ) || (room::distance(found as int, current as int) == room::distance(
                        other,
                        current as int,
                    ) && (found >= current || other < current)),
                None => forall|other: int|
                    other < index ==> !#[trigger] room::same_sender(
                        messages@,
                        current as int,
                        other,
                    ),
            },
        decreases messages@.len() - index,
    {
        if index != current && same_text(
            messages[index].from_agent.as_str(),
            messages[current].from_agent.as_str(),
        ) {
            assert(room::same_sender(messages@, current as int, index as int));
            let gap: usize = if index < current {
                current - index
            } else {
                index - current
            };
            match best {
                None => {
                    best = Some(index);
                },
                Some(found) => {
                    let best_gap: usize = if found < current {
                        current - found
                    } else {
                        found - current
                    };
                    if gap < best_gap || (gap == best_gap && found < current && index > current) {
                        best = Some(index);
                    }
                },
            }
        }
        index += 1;
    }
    best
}

/// The room is limited to the member.
pub open spec fn filtered_by(filter: Option<String>, name: Seq<char>) -> bool {
    match filter {
        Some(current) => current@ == name,
        None => false,
    }
}

impl Room {
    /// The state after half a page, once everything that is needed is loaded.
    pub open spec fn half_page(self, forward: bool) -> Room {
        let positions = self.shown_positions();
        if positions.len() == 0 {
            self
        } else {
            Room {
                selected_message: positions[room::half_page_place(
                    positions,
                    self.selected_message,
                    forward,
                )],
                ..self
            }
        }
    }

    /// Moves the selection half a page among the messages that are shown.
    pub fn move_half_page_loaded(&mut self, forward: bool)
        ensures
            *final(self) == old(self).half_page(forward),
    {
        let positions = list_visible(&self.messages, &self.member_filter, &self.search_query);
        let total: usize = positions.len();
        if total == 0 {
            return;
        }
        let count: usize = self.messages.len();
        proof {
            filters::visible_positions_are_sound(
                self.messages@,
                self.member_filter,
                self.search_query,
            );
            ascending_place(positions@, self.selected_message);
        }
        let below: usize = partition_below(&positions, self.selected_message);
        let current: usize = if below < total && positions[below] == self.selected_message {
            below
        } else {
            let place: usize = if forward {
                below
            } else {
                below.saturating_sub(1)
            };
            if place > total - 1 {
                total - 1
            } else {
                place
            }
        };
        let target: usize = if forward {
            if total - 1 - current > HALF_PAGE_MESSAGES {
                current + HALF_PAGE_MESSAGES
            } else {
                total - 1
            }
        } else {
            current.saturating_sub(HALF_PAGE_MESSAGES)
        };
        self.selected_message = positions[target];
    }

    /// What selecting the next unread message does, from the end on the first one.
    pub open spec fn next_unread_post(self, after: Room, line: Option<StatusLine>) -> bool {
        let unread = room::unread_positions(self.messages@, self.member_filter, self.search_query);
        if self.messages@.len() == 0 {
            after == self && line is None
        } else if unread.len() == 0 {
            after == self && status::tells(line, "no unread messages"@)
        } else {
            &&& after == (Room {
                selected_message: room::first_above(unread, self.selected_message),
                ..self
            })
            &&& line is None
        }
    }

    /// Selects the next unread message, from the end on the first one.
    pub fn move_to_next_unread(&mut self) -> (line: Option<StatusLine>)
        ensures
            old(self).next_unread_post(*final(self), line),
    {
        if self.messages.len() == 0 {
            return None;
        }
        let unread = list_unread(&self.messages, &self.member_filter, &self.search_query);
        if unread.len() == 0 {
            return Some(info_status("no unread messages"));
        }
        if self.selected_message == usize::MAX {
            self.selected_message = unread[0];
            return None;
        }
        let below: usize = partition_below(&unread, self.selected_message + 1);
        self.selected_message = if below < unread.len() {
            unread[below]
        } else {
            unread[0]
        };
        None
    }

    /// What folding or unfolding the selected message does.
    pub open spec fn fold_post(self, after: Room, line: Option<StatusLine>) -> bool {
        match self.current_message() {
            None => after == self && status::objects(line, "no message selected"@),
            Some(message) => if !room::is_long(message) {
                after == self && status::tells(line, "message too short to fold"@)
            } else {
                &&& after == (Room { expanded_messages: after.expanded_messages, ..self })
                &&& room::expansion_set(
                    self.expanded_messages@,
                    after.expanded_messages@,
                    message.team@,
                    message.id,
                    !room::is_expanded(self.expanded_messages@, message.team@, message.id),
                )
                &&& line is None
            },
        }
    }

    /// Folds or unfolds the selected message.
    pub fn toggle_message_fold(&mut self) -> (line: Option<StatusLine>)
        ensures
            old(self).fold_post(*final(self), line),
    {
        if self.selected_message >= self.messages.len() {
            return Some(error_status("no message selected"));
        }
        let index: usize = self.selected_message;
        if char_count(self.messages[index].body.as_str()) <= FOLD_CHAR_THRESHOLD {
            return Some(info_status("message too short to fold"));
        }
        let team = self.messages[index].team.clone();
        let id: i64 = self.messages[index].id;
        let on = !find_expanded(&self.expanded_messages, team.as_str(), id);
        set_expanded(&mut self.expanded_messages, team.as_str(), id, on);
        None
    }

    /// Some long message of the team is folded.
    pub open spec fn any_folded(self, team: Seq<char>) -> bool {
        let ids = long_ids(self.messages@);
        exists|k: int|
            0 <= k < ids.len() && !room::is_expanded(
                self.expanded_messages@,
                team,
                #[trigger] ids[k],
            )
    }

    /// What folding or unfolding all messages of the team does: if any long message is folded, all
    /// are unfolded, else all are folded.
    pub open spec fn fold_all_post(self, after: Room, line: Option<StatusLine>) -> bool {
        let ids = long_ids(self.messages@);
        match self.active_team {
            None => after == self && status::objects(line, "no team selected"@),
            Some(team) => if ids.len() == 0 {
                after == self && status::tells(line, "no foldable messages in this team"@)
            } else {
                &&& after == (Room { expanded_messages: after.expanded_messages, ..self })
                &&& forall|t: Seq<char>, i: i64|
                    #[trigger] room::is_expanded(after.expanded_messages@, t, i) == if t == team@
                        && ids.contains(i) {
                        self.any_folded(team@)
                    } else {
                        room::is_expanded(self.expanded_messages@, t, i)
                    }
                &&& status::tells(
                    line,
                    (if self.any_folded(team@) {
                        "unfolded "@
                    } else {
                        "folded "@
                    }) + strings::decimal(ids.len()) + " messages"@,
                )
            },
        }
    }

    /// Folds or unfolds all long messages of the team at once.
    pub fn toggle_fold_all(&mut self) -> (line: Option<StatusLine>)
        ensures
            old(self).fold_all_post(*final(self), line),
    {
        let team = match &self.active_team {
            Some(team) => team.clone(),
            None => {
                return Some(error_status("no team selected"));
            },
        };
        let ids = list_long(&self.messages);
        if ids.len() == 0 {
            return Some(info_status("no foldable messages in this team"));
        }
        let ghost before = self.expanded_messages@;
        let mut unfold = false;
        let mut index: usize = 0;
        while index < ids.len()
            invariant
                index <= ids@.len(),
                *self == *old(self),
                before == self.expanded_messages@,
                unfold == exists|k: int|
                    0 <= k < index && !room::is_expanded(before, team@, #[trigger] ids@[k]),
            decreases ids@.len() - index,
        {
            if !find_expanded(&self.expanded_messages, team.as_str(), ids[index]) {
                unfold = true;
                assert(!room::is_expanded(before, team@, ids@[index as int]));
            }
            index += 1;
        }
        assert(unfold == self.any_folded(team@));
        index = 0;
        while index < ids.len()
            invariant
                index <= ids@.len(),
                *self == (Room { expanded_messages: self.expanded_messages, ..*old(self) }),
                forall|t: Seq<char>, i: i64|
                    #[trigger] room::is_expanded(self.expanded_messages@, t, i) == if t == team@
                        && ids@.take(index as int).contains(i) {
                        unfold
                    } else {
                        room::is_expanded(before, t, i)
                    },
            decreases ids@.len() - index,
        {
            let ghost current = self.expanded_messages@;
            set_expanded(&mut self.expanded_messages, team.as_str(), ids[index], unfold);
            proof {
                let id = ids@[index as int];
                let done = ids@.take(index as int);
                let more = ids@.take(index + 1);
                assert(more =~= done.push(id));
                assert forall|t: Seq<char>, i: i64|
                    #[trigger] room::is_expanded(self.expanded_messages@, t, i) == if t == team@
                        && more.contains(i) {
                        unfold
                    } else {
                        room::is_expanded(before, t, i)
                    } by {
                    assert(room::is_expanded(current, t, i) == if t == team@ && done.contains(i) {
                        unfold
                    } else {
                        room::is_expanded(before, t, i)
                    });
                    if i == id {
                        assert(more[index as int] == id);
                        assert(more.contains(i));
                    } else {
                        assert(more.contains(i) == done.contains(i)) by {
                            if more.contains(i) {
                                let k = choose|k: int| 0 <= k < more.len() && more[k] == i;
                                assert(done[k] == i);
                            }
                            if done.contains(i) {
                                let k = choose|k: int| 0 <= k < done.len() && done[k] == i;
                                assert(more[k] == i);
                            }
                        }
                    }
                }
            }
            index += 1;
        }
        proof {
            assert(ids@.take(index as int) =~= ids@);
        }
        let count = decimal_usize(ids.len());
        let verb = if unfold {
            "unfolded "
        } else {
            "folded "
        };
        Some(notice(concat3(verb, count.as_str(), " messages")))
    }

    /// What jumping to the nearest other message of the same sender does.
    pub open spec fn jump_post(self, after: Room, line: Option<StatusLine>) -> bool {
        match self.current_message() {
            None => after == self && status::objects(line, "no message selected"@),
            Some(message) => {
                let current = self.selected_message as int;
                if exists|other: int| room::same_sender(self.messages@, current, other) {
                    &&& after == (Room { selected_message: after.selected_message, ..self })
                    &&& room::is_nearest(self.messages@, current, after.selected_message as int)
                    &&& status::tells(line, "jumped to "@ + message.from_agent@)
                } else {
                    &&& after == self
                    &&& status::tells(line, "no other message from "@ + message.from_agent@)
                }
            },
        }
    }

    /// Jumps to the nearest other message of the same sender.
    pub fn jump_to_sender(&mut self) -> (line: Option<StatusLine>)
        ensures
            old(self).jump_post(*final(self), line),
    {
        if self.selected_message >= self.messages.len() {
            return Some(error_status("no message selected"));
        }
        let current: usize = self.selected_message;
        let sender = self.messages[current].from_agent.clone();
        match find_nearest(&self.messages, current) {
            Some(index) => {
                assert(room::same_sender(self.messages@, current as int, index as int));
                self.selected_message = index;
                Some(notice(concat2("jumped to ", sender.as_str())))
            },
            None => Some(notice(concat2("no other message from ", sender.as_str()))),
        }
    }

    /// What limiting the room to the selected member does; doing it again lifts the limit.
    pub open spec fn member_filter_post(self, after: Room, line: Option<StatusLine>) -> bool {
        if self.selected_member >= self.members@.len() {
            after == self && line is None
        } else {
            let name = self.members@[self.selected_member as int].name@;
            &&& after == (Room { member_filter: after.member_filter, ..self })
            &&& if filtered_by(self.member_filter, name) {
                after.member_filter is None && status::tells(line, "filter cleared"@)
            } else {
                filtered_by(after.member_filter, name) && status::tells(line, "filter: "@ + name)
            }
        }
    }

    /// Limits the room to the selected member, or lifts the limit.
    pub fn toggle_member_filter(&mut self) -> (line: Option<StatusLine>)
        ensures
            old(self).member_filter_post(*final(self), line),
    {
        if self.selected_member >= self.members.len() {
            return None;
        }
        let name = self.members[self.selected_member].name.clone();
        if option_is(&self.member_filter, name.as_str()) {
            self.member_filter = None;
            Some(info_status("filter cleared"))
        } else {
            let text = concat2("filter: ", name.as_str());
            self.member_filter = Some(name);
            Some(notice(text))
        }
    }
}

/// Filtering by a member twice in a row shows everything again.
pub proof fn member_filter_is_a_toggle(
    before: Room,
    once: Room,
    twice: Room,
    first: Option<StatusLine>,
    second: Option<StatusLine>,
)
    requires
        before.selected_member < before.members@.len(),
        before.member_filter is None,
        before.member_filter_post(once, first),
        once.member_filter_post(twice, second),
    ensures
        twice.member_filter is None,
{
}

/// Folding a message twice in a row leaves every message as it was.
pub proof fn fold_is_a_toggle(
    before: Room,
    once: Room,
    twice: Room,
    first: Option<StatusLine>,
    second: Option<StatusLine>,
    team: Seq<char>,
    id: i64,
)
    requires
        before.fold_post(once, first),
        once.fold_post(twice, second),
    ensures
        room::is_expanded(twice.expanded_messages@, team, id) == room::is_expanded(
            before.expanded_messages@,
            team,
            id,
        ),
{
    assert(once.current_message() == before.current_message());
    if let Some(message) = before.current_message() {
        if room::is_long(message) {
            let a = room::is_expanded(once.expanded_messages@, message.team@, message.id);
            let b = room::is_expanded(twice.expanded_messages@, message.team@, message.id);
            let c = room::is_expanded(once.expanded_messages@, team, id);
            let d = room::is_expanded(twice.expanded_messages@, team, id);
        }
    }
}

} // verus!
