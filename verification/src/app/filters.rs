//! Which messages of the room are shown, and finding the way among them.

use crate::db::Message;
use crate::search;
use crate::search::contains;
use crate::strings;
use crate::strings::{same_text, to_lowercase};
use vstd::prelude::*;

verus! {

/// The message was sent or received by the member that the room is limited to.
pub open spec fn matches_member(filter: Option<String>, message: Message) -> bool {
    match filter {
        None => true,
        Some(name) => message.from_agent@ == name@ || message.to_agent@ == name@,
    }
}

/// The body, the sender or the recipient holds the text that is searched for, letters compared in
/// lowercase.
pub open spec fn matches_search(query: Option<String>, message: Message) -> bool {
    match query {
        None => true,
        Some(query) => query@.len() == 0 || holds_text(message, strings::lowercase(query@)),
    }
}

/// The body, the sender or the recipient of the message holds a text, whatever the case.
pub open spec fn holds_text(message: Message, wanted: Seq<char>) -> bool {
    ||| search::contains_text(strings::lowercase(message.body@), wanted)
    ||| search::contains_text(strings::lowercase(message.from_agent@), wanted)
    ||| search::contains_text(strings::lowercase(message.to_agent@), wanted)
}

/// Whether the body, the sender or the recipient of a message holds a text, whatever the case.
pub fn message_holds(message: &Message, wanted: &str) -> (result: bool)
    ensures
        result == holds_text(*message, wanted@),
{
    contains(to_lowercase(message.body.as_str()).as_str(), wanted) || contains(
        to_lowercase(message.from_agent.as_str()).as_str(),
        wanted,
    ) || contains(to_lowercase(message.to_agent.as_str()).as_str(), wanted)
}

/// The message is shown.
pub open spec fn is_visible(
    filter: Option<String>,
    query: Option<String>,
    message: Message,
) -> bool {
    matches_member(filter, message) && matches_search(query, message)
}

/// Whether a message was sent or received by the member that the room is limited to.
pub fn in_member_filter(filter: &Option<String>, message: &Message) -> (result: bool)
    ensures
        result == matches_member(*filter, *message),
{
    match filter {
        None => true,
        Some(name) => same_text(message.from_agent.as_str(), name.as_str()) || same_text(
            message.to_agent.as_str(),
            name.as_str(),
        ),
    }
}

/// Whether a message holds the text that is searched for.
pub fn in_search(query: &Option<String>, message: &Message) -> (result: bool)
    ensures
        result == matches_search(*query, *message),
{
    match query {
        None => true,
        Some(query) => {
            if query.as_str().is_empty() {
                return true;
            }
            let wanted = to_lowercase(query.as_str());
            message_holds(message, wanted.as_str())
        },
    }
}

/// Whether a message is shown.
pub fn visible(filter: &Option<String>, query: &Option<String>, message: &Message) -> (result: bool)
    ensures
        result == is_visible(*filter, *query, *message),
{
    in_member_filter(filter, message) && in_search(query, message)
}

/// The first position after `from` whose message is shown.
pub open spec fn next_visible(
    messages: Seq<Message>,
    filter: Option<String>,
    query: Option<String>,
    from: int,
) -> Option<int>
    decreases messages.len() - from,
{
    if from + 1 >= messages.len() {
        None
    } else if is_visible(filter, query, messages[from + 1]) {
        Some(from + 1)
    } else {
        next_visible(messages, filter, query, from + 1)
    }
}

/// The last position before `from` whose message is shown.
pub open spec fn previous_visible(
    messages: Seq<Message>,
    filter: Option<String>,
    query: Option<String>,
    from: int,
) -> Option<int>
    decreases from,
{
    if from <= 0 || from - 1 >= messages.len() {
        None
    } else if is_visible(filter, query, messages[from - 1]) {
        Some(from - 1)
    } else {
        previous_visible(messages, filter, query, from - 1)
    }
}

/// Finds the first position after `from` whose message is shown.
pub fn find_next_visible(
    messages: &Vec<Message>,
    filter: &Option<String>,
    query: &Option<String>,
    from: usize,
) -> (found: Option<usize>)
    ensures
        match found {
            Some(index) => next_visible(messages@, *filter, *query, from as int) == Some(
                index as int,
            ),
            None => next_visible(messages@, *filter, *query, from as int) is None,
        },
{
    let total: usize = messages.len();
    let mut index: usize = from;
    while index < total && index + 1 < total
        invariant
            total == messages@.len(),
            next_visible(messages@, *filter, *query, from as int) == next_visible(
                messages@,
                *filter,
                *query,
                index as int,
            ),
        decreases total - index,
    {
        if visible(filter, query, &messages[index + 1]) {
            return Some(index + 1);
        }
        index += 1;
    }
    None
}

/// Finds the last position before `from` whose message is shown.
pub fn find_previous_visible(
    messages: &Vec<Message>,
    filter: &Option<String>,
    query: &Option<String>,
    from: usize,
) -> (found: Option<usize>)
    ensures
        match found {
            Some(index) => previous_visible(messages@, *filter, *query, from as int) == Some(
                index as int,
            ),
            None => previous_visible(messages@, *filter, *query, from as int) is None,
        },
{
    let mut index: usize = from;
    while index > 0 && index - 1 < messages.len()
        invariant
            previous_visible(messages@, *filter, *query, from as int) == previous_visible(
                messages@,
                *filter,
                *query,
                index as int,
            ),
        decreases index,
    {
        if visible(filter, query, &messages[index - 1]) {
            return Some(index - 1);
        }
        index -= 1;
    }
    None
}

/// The first position whose message is shown.
pub fn find_first_visible(
    messages: &Vec<Message>,
    filter: &Option<String>,
    query: &Option<String>,
) -> (found: Option<usize>)
    ensures
        match found {
            Some(index) => next_visible(messages@, *filter, *query, -1) == Some(index as int),
            None => next_visible(messages@, *filter, *query, -1) is None,
        },
{
    if messages.len() == 0 {
        return None;
    }
    if visible(filter, query, &messages[0]) {
        return Some(0);
    }
    find_next_visible(messages, filter, query, 0)
}

/// The positions whose messages are shown, in order.
pub open spec fn visible_positions(
    messages: Seq<Message>,
    filter: Option<String>,
    query: Option<String>,
) -> Seq<usize>
    decreases messages.len(),
{
    if messages.len() == 0 {
        Seq::empty()
    } else {
        let before = visible_positions(messages.drop_last(), filter, query);
        if is_visible(filter, query, messages.last()) {
            before.push((messages.len() - 1) as usize)
        } else {
            before
        }
    }
}

/// The positions whose messages are shown, in order.
pub fn list_visible(
    messages: &Vec<Message>,
    filter: &Option<String>,
    query: &Option<String>,
) -> (positions: Vec<usize>)
    ensures
        positions@ == visible_positions(messages@, *filter, *query),
{
    let mut positions: Vec<usize> = Vec::new();
    let mut index: usize = 0;
    proof {
        assert(messages@.take(0) =~= Seq::empty());
        assert(positions@ =~= visible_positions(messages@.take(0), *filter, *query));
    }
    while index < messages.len()
        invariant
            index <= messages@.len(),
            positions@ == visible_positions(messages@.take(index as int), *filter, *query),
        decreases messages@.len() - index,
    {
        proof {
            assert(messages@.take(index + 1).drop_last() =~= messages@.take(index as int));
        }
        if visible(filter, query, &messages[index]) {
            positions.push(index);
        }
        index += 1;
    }
    proof {
        assert(messages@.take(index as int) =~= messages@);
    }
    positions
}

/// The positions are those of shown messages, in ascending order.
pub proof fn visible_positions_are_sound(
    messages: Seq<Message>,
    filter: Option<String>,
    query: Option<String>,
)
    requires
        messages.len() <= usize::MAX,
    ensures
        visible_positions(messages, filter, query).len() <= messages.len(),
        forall|k: int|
            #![trigger visible_positions(messages, filter, query)[k]]
            0 <= k < visible_positions(messages, filter, query).len() ==> visible_positions(
                messages,
                filter,
                query,
            )[k] < messages.len() && is_visible(
                filter,
                query,
                messages[visible_positions(messages, filter, query)[k] as int],
            ),
        forall|k: int, l: int|
            0 <= k < l < visible_positions(messages, filter, query).len() ==> (
            #[trigger] visible_positions(messages, filter, query)[k]) < (
            #[trigger] visible_positions(messages, filter, query)[l]),
    decreases messages.len(),
{
    if messages.len() > 0 {
        let shorter = messages.drop_last();
        let before = visible_positions(shorter, filter, query);
        let all = visible_positions(messages, filter, query);
        visible_positions_are_sound(shorter, filter, query);
        assert forall|k: int| 0 <= k < all.len() implies #[trigger] all[k] < messages.len()
            && is_visible(filter, query, messages[all[k] as int]) by {
            if k < before.len() {
                assert(all[k] == before[k]);
                assert(shorter[before[k] as int] == messages[before[k] as int]);
            }
        }
        assert forall|k: int, l: int| 0 <= k < l < all.len() implies #[trigger] all[k]
            < #[trigger] all[l] by {
            assert(all[k] == before[k]);
            if l < before.len() {
                assert(all[l] == before[l]);
            }
        }
    }
}

/// How many values are below a limit, counted from the front up to the first one that is not.
pub open spec fn count_below(values: Seq<usize>, limit: usize) -> int
    decreases values.len(),
{
    if values.len() == 0 || values[0] >= limit {
        0
    } else {
        1 + count_below(values.skip(1), limit)
    }
}

/// Counts the values at the front that are below a limit.
pub fn partition_below(values: &Vec<usize>, limit: usize) -> (count: usize)
    ensures
        count == count_below(values@, limit),
        count <= values@.len(),
{
    let mut count: usize = 0;
    proof {
        assert(values@.skip(0) =~= values@);
    }
    while count < values.len() && values[count] < limit
        invariant
            count <= values@.len(),
            count_below(values@, limit) == count + count_below(values@.skip(count as int), limit),
        decreases values@.len() - count,
    {
        proof {
            assert(values@.skip(count as int)[0] == values@[count as int]);
            assert(values@.skip(count as int).skip(1) =~= values@.skip(count + 1));
        }
        count += 1;
    }
    proof {
        if count < values@.len() {
            assert(values@.skip(count as int)[0] == values@[count as int]);
        }
    }
    count
}

} // verus!
