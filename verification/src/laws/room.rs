//! The room: what arrives, what is shown, and where the cursor goes.

use crate::app::filters;
use crate::app::model::{Focus, Room};
use crate::app::room;
use crate::app::room_keys::MainRequest;
use crate::app::room_load;
use crate::app::room_search;
use crate::app::status::StatusLine;
use crate::db::{HistoryPage, Message, TeamSummary};
use crate::input::{KeyCode, KeyEvent};
use crate::search;
use crate::sorting;
use crate::strings;
use vstd::prelude::*;

verus! {

/// Taking arrivals in keeps every message that was there and adds those of the team whose number is
/// new, and nothing else; the list is in the order of the numbers.
pub proof fn arrivals_join_the_room(before: Room, arrivals: Seq<Message>, after: Room)
    requires
        before.arrivals_post(arrivals, after),
    ensures
        forall|m: Message| before.messages@.contains(m) ==> #[trigger] after.messages@.contains(m),
        forall|k: int|
            0 <= k < arrivals.len() && (before.active_team matches Some(team) && team@
                == (#[trigger] arrivals[k]).team@) ==> exists|j: int|
                0 <= j < after.messages@.len() && (#[trigger] after.messages@[j]).id
                    == arrivals[k].id,
        forall|j: int|
            0 <= j < after.messages@.len() ==> before.messages@.contains(
                #[trigger] after.messages@[j],
            ) || (arrivals.contains(after.messages@[j]) && (before.active_team matches Some(team)
                && team@ == after.messages@[j].team@)),
        forall|i: int, j: int|
            0 <= i < j < after.messages@.len() ==> (#[trigger] after.messages@[i]).id <= (
            #[trigger] after.messages@[j]).id,
        after.teams == before.teams,
        after.active_team == before.active_team,
        after.members == before.members,
        after.focus == before.focus,
        after.member_filter == before.member_filter,
        after.search_query == before.search_query,
{
    broadcast use vstd::seq_lib::group_to_multiset_ensures;

    let all = room_load::appended(before.messages@, arrivals, before.active_team);
    sorting::sorting_is_a_permutation(all);
    assert forall|m: Message| #[trigger] after.messages@.contains(m) <==> all.contains(m) by {
        assert(after.messages@.to_multiset().contains(m) == all.to_multiset().contains(m));
    }
    appended_members(before.messages@, arrivals, before.active_team);
    assert forall|k: int|
        0 <= k < arrivals.len() && (before.active_team matches Some(team) && team@ == (
        #[trigger] arrivals[k]).team@) implies exists|j: int|
        0 <= j < after.messages@.len() && (#[trigger] after.messages@[j]).id == arrivals[k].id by {
        room_load::arrivals_are_kept(
            before.messages@,
            arrivals,
            before.active_team,
            arrivals[k].id,
        );
        assert(room_load::is_for(before.active_team, arrivals[k]));
        let place = choose|place: int|
            0 <= place < all.len() && #[trigger] all[place].id == arrivals[k].id;
        assert(all.contains(all[place]));
        assert(after.messages@.contains(all[place]));
    }
    assert forall|j: int| 0 <= j < after.messages@.len() implies before.messages@.contains(
        #[trigger] after.messages@[j],
    ) || (arrivals.contains(after.messages@[j]) && (before.active_team matches Some(team) && team@
        == after.messages@[j].team@)) by {
        assert(after.messages@.contains(after.messages@[j]));
        assert(all.contains(after.messages@[j]));
    }
    assert forall|i: int, j: int| 0 <= i < j < after.messages@.len() implies (
    #[trigger] after.messages@[i]).id <= (#[trigger] after.messages@[j]).id by {
        assert(sorting::Ranked::at_most(after.messages@[i], after.messages@[j]));
    }
}

proof fn appended_members(messages: Seq<Message>, arrivals: Seq<Message>, team: Option<String>)
    ensures
        forall|m: Message|
            messages.contains(m) ==> #[trigger] room_load::appended(
                messages,
                arrivals,
                team,
            ).contains(m),
        forall|m: Message| #[trigger]
            room_load::appended(messages, arrivals, team).contains(m) ==> messages.contains(m) || (
            arrivals.contains(m) && (team matches Some(name) && name@ == m.team@)),
    decreases arrivals.len(),
{
    if arrivals.len() > 0 {
        let shorter = arrivals.drop_last();
        let earlier = room_load::appended(messages, shorter, team);
        let all = room_load::appended(messages, arrivals, team);
        appended_members(messages, shorter, team);
        assert forall|m: Message| messages.contains(m) implies #[trigger] all.contains(m) by {
            assert(earlier.contains(m));
            let k = choose|k: int| 0 <= k < earlier.len() && earlier[k] == m;
            assert(all[k] == m);
        }
        assert forall|m: Message| #[trigger] all.contains(m) implies messages.contains(m) || (
        arrivals.contains(m) && (team matches Some(name) && name@ == m.team@)) by {
            let k = choose|k: int| 0 <= k < all.len() && all[k] == m;
            if k < earlier.len() {
                assert(earlier[k] == m);
                assert(earlier.contains(m));
                if shorter.contains(m) {
                    let s = choose|s: int| 0 <= s < shorter.len() && shorter[s] == m;
                    assert(arrivals[s] == m);
                }
            } else {
                assert(arrivals[arrivals.len() - 1] == m);
            }
        }
    }
}

/// The arrivals that one is told of are those of the team that are unread, all of them, and the one
/// that is announced is the last of them.
pub proof fn unread_arrivals_are_told(arrivals: Seq<Message>, team: Option<String>)
    ensures
        room_load::relevant_count(arrivals, team) == arrivals.filter(
            |m: Message| (team matches Some(name) && name@ == m.team@) && m.read_at is None,
        ).len(),
        room_load::latest_relevant(arrivals, team) matches Some(latest) ==> (team matches Some(name)
            && name@ == latest.team@) && latest.read_at is None && exists|k: int|
            0 <= k < arrivals.len() && #[trigger] arrivals[k] == latest && forall|j: int|
                k < j < arrivals.len() ==> !((team matches Some(name) && name@ == (
                #[trigger] arrivals[j]).team@) && arrivals[j].read_at is None),
        room_load::latest_relevant(arrivals, team) is None <==> room_load::relevant_count(
            arrivals,
            team,
        ) == 0,
    decreases arrivals.len(),
{
    let told = |m: Message| (team matches Some(name) && name@ == m.team@) && m.read_at is None;
    reveal(Seq::filter);
    if arrivals.len() > 0 {
        let shorter = arrivals.drop_last();
        unread_arrivals_are_told(shorter, team);
        assert(arrivals[arrivals.len() - 1] == arrivals.last());
        if !told(arrivals.last()) && room_load::latest_relevant(shorter, team) is Some {
            let latest = room_load::latest_relevant(shorter, team)->Some_0;
            let k = choose|k: int|
                0 <= k < shorter.len() && #[trigger] shorter[k] == latest && forall|j: int|
                    k < j < shorter.len() ==> !((team matches Some(name) && name@ == (
                    #[trigger] shorter[j]).team@) && shorter[j].read_at is None);
            assert(arrivals[k] == latest);
            assert forall|j: int| k < j < arrivals.len() implies !((team matches Some(name) && name@
                == (#[trigger] arrivals[j]).team@) && arrivals[j].read_at is None) by {
                if j < shorter.len() {
                    assert(shorter[j] == arrivals[j]);
                }
            }
        }
    }
}

/// A message is shown if it is from or to the member that is picked out, and if the text that is
/// looked for occurs in its body, its sender or its recipient, whether in capitals or not. Without
/// a member or a text, that condition does not count.
pub proof fn shown_messages_pass_both_filters(
    filter: Option<String>,
    query: Option<String>,
    message: Message,
)
    ensures
        filters::is_visible(filter, query, message) <==> {
            &&& filter matches Some(member) ==> message.from_agent@ == member@ || message.to_agent@
                == member@
            &&& query matches Some(text) ==> text@.len() == 0 || (exists|at: int|
                search::occurs_at(
                    strings::lowercase(message.body@),
                    strings::lowercase(text@),
                    at,
                )) || (exists|at: int|
                search::occurs_at(
                    strings::lowercase(message.from_agent@),
                    strings::lowercase(text@),
                    at,
                )) || exists|at: int|
                search::occurs_at(
                    strings::lowercase(message.to_agent@),
                    strings::lowercase(text@),
                    at,
                )
        },
{
}

proof fn next_shown(messages: Seq<Message>, filter: Option<String>, query: Option<String>, from: int)
    requires
        from >= -1,
    ensures
        match filters::next_visible(messages, filter, query, from) {
            Some(k) => from < k < messages.len() && filters::is_visible(filter, query, messages[k])
                && forall|j: int|
                from < j < k ==> !filters::is_visible(filter, query, #[trigger] messages[j]),
            None => forall|j: int|
                from < j < messages.len() ==> !filters::is_visible(
                    filter,
                    query,
                    #[trigger] messages[j],
                ),
        },
    decreases messages.len() - from,
{
    if from + 1 < messages.len() && !filters::is_visible(filter, query, messages[from + 1]) {
        next_shown(messages, filter, query, from + 1);
    }
}

proof fn previous_shown(
    messages: Seq<Message>,
    filter: Option<String>,
    query: Option<String>,
    from: int,
)
    requires
        from <= messages.len(),
    ensures
        match filters::previous_visible(messages, filter, query, from) {
            Some(k) => 0 <= k < from && filters::is_visible(filter, query, messages[k]) && forall|
                j: int,
            |
                k < j < from ==> !filters::is_visible(filter, query, #[trigger] messages[j]),
            None => forall|j: int|
                0 <= j < from ==> !filters::is_visible(filter, query, #[trigger] messages[j]),
        },
    decreases from,
{
    if from > 0 && !filters::is_visible(filter, query, messages[from - 1]) {
        previous_shown(messages, filter, query, from - 1);
    }
}

/// In the list of messages the cursor goes from one shown message to the next one, or to the one
/// before, and passes over none that is shown; at the end of the list it stays.
pub proof fn cursor_goes_through_the_shown(before: Room)
    requires
        before.focus == Focus::Room,
        before.selected_message < before.messages@.len(),
    ensures
        ({
            let down = before.moved_down().selected_message as int;
            let up = before.moved_up().selected_message as int;
            let here = before.selected_message as int;
            &&& here <= down < before.messages@.len()
            &&& up <= here
            &&& down > here ==> before.shows(before.messages@[down])
            &&& up < here ==> before.shows(before.messages@[up])
            &&& forall|j: int|
                here < j < before.messages@.len() && (j < down || down == here) ==> !before.shows(
                    #[trigger] before.messages@[j],
                )
            &&& forall|j: int|
                0 <= j < here && (j > up || up == here) ==> !before.shows(
                    #[trigger] before.messages@[j],
                )
        }),
        ({
            let first = before.moved_first().selected_message as int;
            let last = before.moved_last().selected_message as int;
            &&& forall|j: int|
                0 <= j < before.messages@.len() && before.shows(#[trigger] before.messages@[j])
                    ==> first <= j <= last && before.shows(before.messages@[first])
                    && before.shows(before.messages@[last])
        }),
        before.moved_down().messages == before.messages,
        before.moved_up().messages == before.messages,
{
    let messages = before.messages@;
    assert(messages.len() == before.messages.len());
    next_shown(messages, before.member_filter, before.search_query, before.selected_message as int);
    next_shown(messages, before.member_filter, before.search_query, -1);
    previous_shown(
        messages,
        before.member_filter,
        before.search_query,
        before.selected_message as int,
    );
    previous_shown(
        messages,
        before.member_filter,
        before.search_query,
        messages.len() as int,
    );
}

/// In the lists of teams and of members the cursor goes one entry down or up and stays in the list.
pub proof fn cursor_goes_through_the_lists(before: Room)
    requires
        before.selected_team < before.teams@.len(),
        before.selected_member < before.members@.len(),
    ensures
        before.focus == Focus::Teams ==> {
            &&& before.selected_team + 1 < before.teams@.len()
                ==> before.moved_down().selected_team == before.selected_team + 1
            &&& before.selected_team + 1 == before.teams@.len()
                ==> before.moved_down().selected_team == before.selected_team
            &&& before.selected_team > 0 ==> before.moved_up().selected_team == before.selected_team
                - 1
            &&& before.selected_team == 0 ==> before.moved_up().selected_team == 0
            &&& before.moved_first().selected_team == 0
            &&& before.moved_last().selected_team + 1 == before.teams@.len()
        },
        before.focus == Focus::Members ==> {
            &&& before.selected_member + 1 < before.members@.len()
                ==> before.moved_down().selected_member == before.selected_member + 1
            &&& before.selected_member + 1 == before.members@.len()
                ==> before.moved_down().selected_member == before.selected_member
            &&& before.selected_member > 0 ==> before.moved_up().selected_member
                == before.selected_member - 1
            &&& before.selected_member == 0 ==> before.moved_up().selected_member == 0
            &&& before.moved_first().selected_member == 0
            &&& before.moved_last().selected_member + 1 == before.members@.len()
        },
        before.focus != Focus::Room ==> before.moved_down().selected_message
            == before.selected_message && before.moved_up().selected_message
            == before.selected_message,
{
    assert(before.teams@.len() == before.teams.len());
    assert(before.members@.len() == before.members.len());
}

/// Going round the teams comes by each of them: forwards and then backwards leads back.
pub proof fn teams_are_a_ring(
    before: Room,
    middle: Room,
    after: Room,
    forward: bool,
    first: MainRequest,
    second: MainRequest,
)
    requires
        before.selected_team < before.teams@.len(),
        before.cycle_team_post(forward, middle, first),
        middle.cycle_team_post(!forward, after, second),
    ensures
        after == before,
        middle.selected_team < before.teams@.len(),
        before.teams@.len() > 1 ==> middle.selected_team != before.selected_team,
        forward && before.selected_team + 1 < before.teams@.len() ==> middle.selected_team
            == before.selected_team + 1,
        forward && before.selected_team + 1 == before.teams@.len() ==> middle.selected_team == 0,
        first is ReloadTeam,
{
    let count = before.teams@.len() as int;
    assert(count == before.teams.len());
    if before.selected_team + 1 < count {
        vstd::arithmetic::div_mod::lemma_small_mod(
            (before.selected_team + 1) as nat,
            count as nat,
        );
    } else {
        vstd::arithmetic::div_mod::lemma_mod_self_0(count);
    }
    if middle.selected_team + 1 < count {
        vstd::arithmetic::div_mod::lemma_small_mod(
            (middle.selected_team + 1) as nat,
            count as nat,
        );
    } else {
        vstd::arithmetic::div_mod::lemma_mod_self_0(count);
    }
}

proof fn unread_positions_are_exact(
    messages: Seq<Message>,
    filter: Option<String>,
    query: Option<String>,
)
    requires
        messages.len() <= usize::MAX,
    ensures
        ({
            let unread = room::unread_positions(messages, filter, query);
            &&& forall|k: int|
                0 <= k < unread.len() ==> (#[trigger] unread[k]) < messages.len()
                    && messages[unread[k] as int].read_at is None && filters::is_visible(
                    filter,
                    query,
                    messages[unread[k] as int],
                )
            &&& forall|k: int, l: int|
                0 <= k < l < unread.len() ==> (#[trigger] unread[k]) < (#[trigger] unread[l])
            &&& forall|i: int|
                0 <= i < messages.len() && (#[trigger] messages[i]).read_at is None
                    && filters::is_visible(filter, query, messages[i]) ==> unread.contains(
                    i as usize,
                )
        }),
    decreases messages.len(),
{
    if messages.len() > 0 {
        let shorter = messages.drop_last();
        let before = room::unread_positions(shorter, filter, query);
        let unread = room::unread_positions(messages, filter, query);
        unread_positions_are_exact(shorter, filter, query);
        assert forall|k: int| 0 <= k < unread.len() implies (#[trigger] unread[k]) < messages.len()
            && messages[unread[k] as int].read_at is None && filters::is_visible(
            filter,
            query,
            messages[unread[k] as int],
        ) by {
            if k < before.len() {
                assert(before[k] == unread[k]);
                assert(shorter[before[k] as int] == messages[before[k] as int]);
            }
        }
        assert forall|k: int, l: int| 0 <= k < l < unread.len() implies (#[trigger] unread[k]) < (
        #[trigger] unread[l]) by {
            assert(before[k] == unread[k]);
            if l < before.len() {
                assert(before[l] == unread[l]);
            }
        }
        assert forall|i: int|
            0 <= i < messages.len() && (#[trigger] messages[i]).read_at is None
                && filters::is_visible(filter, query, messages[i]) implies unread.contains(
            i as usize,
        ) by {
            if i < shorter.len() {
                assert(shorter[i] == messages[i]);
                let k = choose|k: int| 0 <= k < before.len() && before[k] == i as usize;
                assert(unread[k] == i as usize);
            } else {
                assert(unread[before.len() as int] == i as usize);
            }
        }
    }
}

proof fn below_and_above(values: Seq<usize>, limit: usize)
    requires
        forall|k: int, l: int|
            0 <= k < l < values.len() ==> (#[trigger] values[k]) < (#[trigger] values[l]),
    ensures
        0 <= filters::count_below(values, limit) <= values.len(),
        forall|k: int|
            0 <= k < filters::count_below(values, limit) ==> (#[trigger] values[k]) < limit,
        forall|k: int|
            filters::count_below(values, limit) <= k < values.len() ==> (#[trigger] values[k])
                >= limit,
    decreases values.len(),
{
    if values.len() > 0 && values[0] < limit {
        let rest = values.skip(1);
        below_and_above(rest, limit);
        assert forall|k: int|
            0 <= k < filters::count_below(values, limit) implies (#[trigger] values[k]) < limit by {
            if k > 0 {
                assert(rest[k - 1] == values[k]);
            }
        }
        assert forall|k: int|
            filters::count_below(values, limit) <= k < values.len() implies (#[trigger] values[k])
            >= limit by {
            assert(rest[k - 1] == values[k]);
        }
    }
}

/// Going to the next unread message goes to the first one behind the cursor that is shown and
/// unread, or to the first one of all if there is none behind it.
pub proof fn next_unread_is_found(before: Room, after: Room, line: Option<StatusLine>)
    requires
        before.next_unread_post(after, line),
        before.messages@.len() <= usize::MAX,
        exists|i: int|
            0 <= i < before.messages@.len() && (#[trigger] before.messages@[i]).read_at is None
                && before.shows(before.messages@[i]),
    ensures
        after.selected_message < before.messages@.len(),
        before.messages@[after.selected_message as int].read_at is None,
        before.shows(before.messages@[after.selected_message as int]),
        after.selected_message > before.selected_message ==> forall|i: int|
            before.selected_message < i < after.selected_message ==> !((
            #[trigger] before.messages@[i]).read_at is None && before.shows(before.messages@[i])),
        after.selected_message <= before.selected_message ==> forall|i: int|
            0 <= i < before.messages@.len() && (#[trigger] before.messages@[i]).read_at is None
                && before.shows(before.messages@[i]) ==> after.selected_message <= i
                <= before.selected_message,
        line is None,
        after.messages == before.messages,
{
    let messages = before.messages@;
    let unread = room::unread_positions(messages, before.member_filter, before.search_query);
    unread_positions_are_exact(messages, before.member_filter, before.search_query);
    let some = choose|i: int|
        0 <= i < messages.len() && (#[trigger] messages[i]).read_at is None && before.shows(
            messages[i],
        );
    assert(unread.contains(some as usize));
    let limit = (before.selected_message + 1) as usize;
    below_and_above(unread, limit);
    assert forall|i: int|
        0 <= i < messages.len() && (#[trigger] messages[i]).read_at is None && before.shows(
            messages[i],
        ) implies exists|k: int| 0 <= k < unread.len() && #[trigger] unread[k] == i by {
        assert(unread.contains(i as usize));
        let k = choose|k: int| 0 <= k < unread.len() && unread[k] == i as usize;
        assert(unread[k] == i);
    }
}

/// Going to a search match goes to a message that is shown: forwards to the first one behind the
/// cursor, or the first of all if there is none, and backwards to the last one before it, or the
/// last of all.
pub proof fn matches_are_gone_through(
    before: Room,
    forward: bool,
    after: Room,
    line: Option<StatusLine>,
)
    requires
        before.cycle_match_post(forward, after, line),
        before.search_query matches Some(query) && query@.len() > 0,
        before.selected_message < before.messages@.len(),
        before.shows(before.messages@[before.selected_message as int]),
    ensures
        after.selected_message < before.messages@.len(),
        before.shows(before.messages@[after.selected_message as int]),
        forward && after.selected_message > before.selected_message ==> forall|i: int|
            before.selected_message < i < after.selected_message ==> !before.shows(
                #[trigger] before.messages@[i],
            ),
        forward && after.selected_message <= before.selected_message ==> forall|i: int|
            0 <= i < before.messages@.len() && before.shows(#[trigger] before.messages@[i])
                ==> after.selected_message <= i <= before.selected_message,
        !forward && after.selected_message < before.selected_message ==> forall|i: int|
            after.selected_message < i < before.selected_message ==> !before.shows(
                #[trigger] before.messages@[i],
            ),
        !forward && after.selected_message >= before.selected_message ==> forall|i: int|
            0 <= i < before.messages@.len() && before.shows(#[trigger] before.messages@[i])
                ==> before.selected_message <= i <= after.selected_message,
{
    let messages = before.messages@;
    let here = before.selected_message;
    let positions = before.shown_positions();
    assert(messages.len() == before.messages.len());
    filters::visible_positions_are_sound(messages, before.member_filter, before.search_query);
    shown_positions_are_all(messages, before.member_filter, before.search_query);
    below_and_above(positions, here);
    assert(positions.contains(here));
    let found = choose|k: int| 0 <= k < positions.len() && positions[k] == here;
    let place = filters::count_below(positions, here);
    assert(positions[found] == here);
    assert(place <= found) by {
        if found < place {
            assert(positions[found] < here);
        }
    }
    assert(found == place) by {
        if place < found {
            assert(positions[place] < positions[found]);
            assert(positions[place] >= here);
        }
    }
    let goal = room_search::cycled_place(positions, here, forward);
    if forward {
        if place + 1 < positions.len() {
            vstd::arithmetic::div_mod::lemma_small_mod(
                (place + 1) as nat,
                positions.len(),
            );
        } else {
            vstd::arithmetic::div_mod::lemma_mod_self_0(positions.len() as int);
        }
    }
    assert(0 <= goal < positions.len());
    assert(after.selected_message == positions[goal]);
    assert forall|i: int| 0 <= i < messages.len() && before.shows(#[trigger] messages[i]) implies exists|
        k: int,
    |
        0 <= k < positions.len() && #[trigger] positions[k] == i by {
        assert(positions.contains(i as usize));
        let k = choose|k: int| 0 <= k < positions.len() && positions[k] == i as usize;
        assert(positions[k] == i);
    }
}

proof fn shown_positions_are_all(
    messages: Seq<Message>,
    filter: Option<String>,
    query: Option<String>,
)
    requires
        messages.len() <= usize::MAX,
    ensures
        forall|i: int|
            0 <= i < messages.len() && filters::is_visible(filter, query, #[trigger] messages[i])
                ==> filters::visible_positions(messages, filter, query).contains(i as usize),
    decreases messages.len(),
{
    if messages.len() > 0 {
        let shorter = messages.drop_last();
        let before = filters::visible_positions(shorter, filter, query);
        let all = filters::visible_positions(messages, filter, query);
        shown_positions_are_all(shorter, filter, query);
        assert forall|i: int|
            0 <= i < messages.len() && filters::is_visible(
                filter,
                query,
                #[trigger] messages[i],
            ) implies all.contains(i as usize) by {
            if i < shorter.len() {
                assert(shorter[i] == messages[i]);
                let k = choose|k: int| 0 <= k < before.len() && before[k] == i as usize;
                assert(all[k] == i as usize);
            } else {
                assert(all[before.len() as int] == i as usize);
            }
        }
    }
}

/// Jumping to the sender goes to another message of the sender of the one under the cursor, and
/// none of that sender's other messages is nearer.
pub proof fn jumps_stay_with_the_sender(before: Room, after: Room, line: Option<StatusLine>)
    requires
        before.jump_post(after, line),
        before.selected_message < before.messages@.len(),
    ensures
        after.selected_message != before.selected_message ==> {
            let here = before.selected_message as int;
            let there = after.selected_message as int;
            &&& there < before.messages@.len()
            &&& before.messages@[there].from_agent@ == before.messages@[here].from_agent@
            &&& forall|i: int|
                0 <= i < before.messages@.len() && i != here && (
                #[trigger] before.messages@[i]).from_agent@ == before.messages@[here].from_agent@
                    ==> (if i < here {
                    here - i
                } else {
                    i - here
                }) >= (if there < here {
                    here - there
                } else {
                    there - here
                })
        },
        after.selected_message == before.selected_message ==> forall|i: int|
            0 <= i < before.messages@.len() && i != before.selected_message ==> (
            #[trigger] before.messages@[i]).from_agent@
                != before.messages@[before.selected_message as int].from_agent@,
{
    let messages = before.messages@;
    let here = before.selected_message as int;
    assert forall|i: int|
        0 <= i < messages.len() && i != here && (#[trigger] messages[i]).from_agent@
            == messages[here].from_agent@ implies room::same_sender(messages, here, i) by {
    }
}

/// An older page comes before what is there, message for message, and the cursor stands on the last
/// message of the page; while half a page is gone up, it goes back to the message that it was on.
pub proof fn older_pages_come_before(before: Room, page: HistoryPage, after: Room)
    requires
        before.older_post(page, after),
    ensures
        after.messages@.len() == page.messages@.len() + before.messages@.len(),
        forall|i: int|
            0 <= i < page.messages@.len() ==> #[trigger] after.messages@[i] == page.messages@[i],
        forall|i: int|
            0 <= i < before.messages@.len() ==> #[trigger] before.messages@[i]
                == after.messages@[i + page.messages@.len()],
        page.messages@.len() > 0 ==> after.selected_message + 1 == page.messages@.len(),
        page.messages@.len() == 0 ==> after.selected_message == before.selected_message,
        after.has_more_history == page.has_more,
{
    assert(page.messages@.len() == page.messages.len());
}

/// While half a page is gone up, the cursor is on the message that it was on before the older page
/// came.
pub proof fn older_pages_keep_the_place(before: Room, page: HistoryPage, after: Room)
    requires
        before.selected_message < before.messages@.len(),
        before.older_kept_post(
            page,
            Some(before.messages@[before.selected_message as int].id),
            after,
        ),
        forall|i: int, j: int|
            0 <= i < j < after.messages@.len() ==> (#[trigger] after.messages@[i]).id != (
            #[trigger] after.messages@[j]).id,
    ensures
        after.selected_message == before.selected_message + page.messages@.len(),
        after.messages@[after.selected_message as int]
            == before.messages@[before.selected_message as int],
        after.has_more_history == page.has_more,
{
    let joined = page.messages@ + before.messages@;
    let place = before.selected_message + page.messages@.len();
    assert(joined[place] == before.messages@[before.selected_message as int]);
    assert(room_load::has_id(joined, joined[place].id));
    let found = after.selected_message as int;
    assert(after.messages@[found].id == after.messages@[place].id);
    if found < place {
        assert(after.messages@[found].id != after.messages@[place].id);
    }
    if place < found {
        assert(after.messages@[place].id != after.messages@[found].id);
    }
}

/// When the list of teams is read again, the cursor stays on the team that it was on.
pub proof fn cursor_stays_on_its_team(before: Room, teams: Vec<TeamSummary>, after: Room, k: int)
    requires
        before.teams_post(teams, after),
        before.selected_team < before.teams@.len(),
        0 <= k < teams@.len(),
        teams@[k].name@ == before.teams@[before.selected_team as int].name@,
    ensures
        after.teams == teams,
        after.selected_team < teams@.len(),
        after.teams@[after.selected_team as int].name@
            == before.teams@[before.selected_team as int].name@,
        after.selected_team <= k,
        after.messages == before.messages,
        after.active_team == before.active_team,
{
    assert(room_load::lists_team(teams@, before.teams@[before.selected_team as int].name@));
    if k < after.selected_team {
        assert(teams@[k].name@ != teams@[after.selected_team as int].name@);
    }
}

/// The team that is shown is the one under the cursor, and a history is shown from its end.
pub proof fn histories_are_shown_from_the_end(before: Room, page: HistoryPage, shown: Room)
    requires
        before.activated(shown),
    ensures
        before.selected_team < before.teams@.len() ==> (shown.active_team matches Some(team)
            && team@ == before.teams@[before.selected_team as int].name@),
        before.selected_team >= before.teams@.len() ==> shown.active_team is None,
        shown.with_history(page).messages == page.messages,
        shown.with_history(page).has_more_history == page.has_more,
        page.messages@.len() > 0 ==> shown.with_history(page).selected_message + 1
            == page.messages@.len(),
        shown.with_history(page).active_team == shown.active_team,
{
    assert(page.messages@.len() == page.messages.len());
}

/// Picking out a member shows only what is from or to the member under the cursor; picking the same
/// one out again shows everything.
pub proof fn members_are_picked_out(before: Room, after: Room, line: Option<StatusLine>, message: Message)
    requires
        before.member_filter_post(after, line),
        before.selected_member < before.members@.len(),
        before.search_query is None,
    ensures
        ({
            let member = before.members@[before.selected_member as int].name@;
            &&& !(before.member_filter matches Some(name) && name@ == member) ==> (after.shows(
                message,
            ) <==> message.from_agent@ == member || message.to_agent@ == member)
            &&& (before.member_filter matches Some(name) && name@ == member) ==> after.shows(message)
        }),
        after.messages == before.messages,
        after.selected_message == before.selected_message,
{
}

/// What is copied is the body of the message under the cursor, letter for letter.
pub proof fn the_message_under_the_cursor_is_copied(
    before: Room,
    key: KeyEvent,
    after: Room,
    line: Option<StatusLine>,
    request: MainRequest,
)
    requires
        before.command_post(key, after, line, request),
    ensures
        request matches MainRequest::Yank(body) ==> before.selected_message < before.messages@.len()
            && body@ == before.messages@[before.selected_message as int].body@ && after == before,
        key.code == KeyCode::Char('y') && !key.modifiers.control && before.selected_message
            < before.messages@.len() ==> request is Yank,
        request is OlderHistory ==> before.focus == Focus::Room && before.selected_message == 0
            && before.has_more_history,
        request is Quit ==> key.code == KeyCode::Char('q'),
        request is MarkSelected ==> key.code == KeyCode::Char('r'),
        request is MarkTeam ==> key.code == KeyCode::Char('R') && before.focus != Focus::Members,
        request is MarkMember ==> key.code == KeyCode::Char('M'),
        request is RenameFromMembers ==> key.code == KeyCode::Char('R') && before.focus
            == Focus::Members,
        request is SpawnFromMembers ==> key.code == KeyCode::Char('n') && before.focus
            == Focus::Members,
        request is OpenComposer ==> key.code == KeyCode::Char('c'),
        request is OpenMemberComposer ==> key.code == KeyCode::Enter && before.focus
            == Focus::Members,
        request is ReloadTeam ==> (key.code == KeyCode::Enter && before.focus == Focus::Teams)
            || key.code == KeyCode::Char('[') || key.code == KeyCode::Char(']'),
        request is OpenAudit ==> key.code == KeyCode::Char('a'),
        request is OpenAgents ==> key.code == KeyCode::Char('A'),
        request is OpenHealth ==> key.code == KeyCode::Char('H'),
        !key.modifiers.control ==> {
            &&& key.code == KeyCode::Char('q') ==> request is Quit
            &&& key.code == KeyCode::Char('r') ==> request is MarkSelected
            &&& key.code == KeyCode::Char('c') ==> request is OpenComposer
            &&& key.code == KeyCode::Char('M') ==> request is MarkMember
            &&& key.code == KeyCode::Char('H') ==> request is OpenHealth
            &&& key.code == KeyCode::Char('A') ==> request is OpenAgents
            &&& key.code == KeyCode::Char('a') ==> request is OpenAudit
            &&& key.code == KeyCode::Char('?') ==> request is Help
        },
        key.code == KeyCode::Esc && before.search_query is Some ==> after.search_query is None
            && after.member_filter == before.member_filter,
        key.code == KeyCode::Esc && before.search_query is None ==> after.member_filter is None,
{
}

/// A second pane shows the messages that the room would show: those from or to the member that is
/// picked out, and those that hold the words that are looked for.
pub proof fn panes_show_what_the_room_shows(
    member: Option<String>,
    query: Option<String>,
    pane_member: Option<&str>,
    pane_query: Option<&str>,
    message: Message,
)
    requires
        pane_member is Some <==> member is Some,
        pane_member is Some ==> pane_member->Some_0@ == member->Some_0@,
        pane_query is Some <==> query is Some,
        pane_query is Some ==> pane_query->Some_0@ == query->Some_0@,
    ensures
        crate::pane::passes_member(pane_member, message) <==> filters::matches_member(
            member,
            message,
        ),
        crate::pane::passes_search(pane_query, message) <==> filters::matches_search(query, message),
        crate::pane::passes_member(pane_member, message) <==> member is None
            || message.from_agent@ == member->Some_0@ || message.to_agent@ == member->Some_0@,
{
}

} // verus!
