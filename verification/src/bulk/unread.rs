//! The recipients whose unread messages a bulk operation can mark read.

use crate::bulk::target;
use crate::bulk::target::{BulkTarget, MarkReadTarget};
use crate::db::Message;
use crate::order;
use crate::order::{compare_text, Order};
use vstd::prelude::*;

verus! {

/// A message is unread and addressed to a recipient of a team.
pub open spec fn unread_for(message: Message, team: Seq<char>, recipient: Seq<char>) -> bool {
    message.read_at is None && message.team@ == team && message.to_agent@ == recipient
}

/// How many unread messages are addressed to a recipient of a team.
pub open spec fn unread_count(messages: Seq<Message>, team: Seq<char>, recipient: Seq<char>) -> nat
    decreases messages.len(),
{
    if messages.len() == 0 {
        0
    } else {
        unread_count(messages.drop_last(), team, recipient) + if unread_for(
            messages.last(),
            team,
            recipient,
        ) {
            1nat
        } else {
            0
        }
    }
}

/// How many messages are unread.
pub open spec fn unread_total(messages: Seq<Message>) -> nat
    decreases messages.len(),
{
    if messages.len() == 0 {
        0
    } else {
        unread_total(messages.drop_last()) + if messages.last().read_at is None {
            1nat
        } else {
            0
        }
    }
}

proof fn unread_count_bounded(messages: Seq<Message>, team: Seq<char>, recipient: Seq<char>)
    ensures
        unread_count(messages, team, recipient) <= messages.len(),
    decreases messages.len(),
{
    if messages.len() > 0 {
        unread_count_bounded(messages.drop_last(), team, recipient);
    }
}

/// There are no more unread messages than messages.
pub proof fn unread_total_bounded(messages: Seq<Message>)
    ensures
        unread_total(messages) <= messages.len(),
    decreases messages.len(),
{
    if messages.len() > 0 {
        unread_total_bounded(messages.drop_last());
    }
}

/// The order of the targets: by team, then by recipient.
pub open spec fn key_less(left: MarkReadTarget, right: MarkReadTarget) -> bool {
    order::text_less(left.team@, right.team@) || (left.team@ == right.team@ && order::text_less(
        left.recipient@,
        right.recipient@,
    ))
}

proof fn key_less_transitive(a: MarkReadTarget, b: MarkReadTarget, c: MarkReadTarget)
    requires
        key_less(a, b),
        key_less(b, c),
    ensures
        key_less(a, c),
{
    if order::text_less(a.team@, b.team@) && order::text_less(b.team@, c.team@) {
        order::text_less_transitive(a.team@, b.team@, c.team@);
    }
    order::text_less_irreflexive(a.team@);
    if a.team@ == b.team@ && b.team@ == c.team@ {
        order::text_less_transitive(a.recipient@, b.recipient@, c.recipient@);
    }
}

/// The targets are in order and no two are for the same recipient of a team.
pub open spec fn keys_sorted(groups: Seq<MarkReadTarget>) -> bool {
    forall|i: int, j: int|
        0 <= i < j < groups.len() ==> key_less(#[trigger] groups[i], #[trigger] groups[j])
}

/// Some target is for the recipient of the team.
pub open spec fn has_key(groups: Seq<MarkReadTarget>, team: Seq<char>, recipient: Seq<char>) -> bool {
    exists|k: int|
        0 <= k < groups.len() && #[trigger] groups[k].team@ == team && groups[k].recipient@
            == recipient
}

/// Every target counts the unread messages of its recipient, at least one, and every unread
/// message is counted.
pub open spec fn groups_count(groups: Seq<MarkReadTarget>, messages: Seq<Message>) -> bool {
    &&& keys_sorted(groups)
    &&& forall|k: int|
        0 <= k < groups.len() ==> (#[trigger] groups[k]).message_count == unread_count(
            messages,
            groups[k].team@,
            groups[k].recipient@,
        ) && groups[k].message_count > 0
    &&& forall|i: int|
        0 <= i < messages.len() && (#[trigger] messages[i]).read_at is None ==> has_key(
            groups,
            messages[i].team@,
            messages[i].to_agent@,
        )
}

/// The counts of some targets together.
pub open spec fn count_sum(groups: Seq<MarkReadTarget>) -> nat
    decreases groups.len(),
{
    if groups.len() == 0 {
        0
    } else {
        count_sum(groups.drop_last()) + groups.last().message_count as nat
    }
}

proof fn count_sum_update(groups: Seq<MarkReadTarget>, index: int, group: MarkReadTarget)
    requires
        0 <= index < groups.len(),
    ensures
        count_sum(groups.update(index, group)) + groups[index].message_count == count_sum(groups)
            + group.message_count,
    decreases groups.len(),
{
    let updated = groups.update(index, group);
    if index == groups.len() - 1 {
        assert(updated.drop_last() =~= groups.drop_last());
    } else {
        assert(updated.drop_last() =~= groups.drop_last().update(index, group));
        count_sum_update(groups.drop_last(), index, group);
    }
}

proof fn count_sum_insert(groups: Seq<MarkReadTarget>, index: int, group: MarkReadTarget)
    requires
        0 <= index <= groups.len(),
    ensures
        count_sum(groups.insert(index, group)) == count_sum(groups) + group.message_count,
    decreases groups.len(),
{
    let inserted = groups.insert(index, group);
    if index == groups.len() {
        assert(inserted.drop_last() =~= groups);
    } else {
        assert(inserted.drop_last() =~= groups.drop_last().insert(index, group));
        count_sum_insert(groups.drop_last(), index, group);
    }
}

fn compare_key(group: &MarkReadTarget, team: &str, recipient: &str) -> (order: Order)
    ensures
        match order {
            Order::Before => order::text_less(group.team@, team@) || (group.team@ == team@
                && order::text_less(group.recipient@, recipient@)),
            Order::Same => group.team@ == team@ && group.recipient@ == recipient@,
            Order::After => order::text_less(team@, group.team@) || (group.team@ == team@
                && order::text_less(recipient@, group.recipient@)),
        },
{
    match compare_text(group.team.as_str(), team) {
        Order::Same => compare_text(group.recipient.as_str(), recipient),
        different => different,
    }
}

fn count_message(groups: &mut Vec<MarkReadTarget>, message: &Message, Ghost(seen): Ghost<Seq<Message>>)
    requires
        groups_count(old(groups)@, seen),
        message.read_at is None,
        count_sum(old(groups)@) == unread_total(seen),
        seen.len() < usize::MAX,
    ensures
        groups_count(final(groups)@, seen.push(*message)),
        count_sum(final(groups)@) == unread_total(seen.push(*message)),
{
    let ghost now = seen.push(*message);
    let ghost before = groups@;
    proof {
        assert(now.drop_last() =~= seen);
    }
    let mut index: usize = 0;
    while index < groups.len()
        invariant
            index <= groups@.len(),
            groups@ == before,
            groups_count(before, seen),
            count_sum(before) == unread_total(seen),
            message.read_at is None,
            now == seen.push(*message),
            now.drop_last() == seen,
            seen.len() < usize::MAX,
            before == old(groups)@,
            forall|k: int|
                0 <= k < index ==> order::text_less(#[trigger] before[k].team@, message.team@) || (
                before[k].team@ == message.team@ && order::text_less(
                    before[k].recipient@,
                    message.to_agent@,
                )),
        ensures
            index < groups@.len() ==> order::text_less(message.team@, before[index as int].team@)
                || (before[index as int].team@ == message.team@ && order::text_less(
                message.to_agent@,
                before[index as int].recipient@,
            )),
        decreases groups@.len() - index,
    {
        match compare_key(&groups[index], message.team.as_str(), message.to_agent.as_str()) {
            Order::Before => {},
            Order::Same => {
                let old_group = &groups[index];
                proof {
                    unread_count_bounded(seen, message.team@, message.to_agent@);
                }
                let group = MarkReadTarget {
                    team: old_group.team.clone(),
                    recipient: old_group.recipient.clone(),
                    message_count: old_group.message_count + 1,
                };
                let ghost new_group = group;
                groups.set(index, group);
                proof {
                    count_sum_update(before, index as int, new_group);
                    assert(groups@ =~= before.update(index as int, new_group));
                    assert forall|i: int, j: int| 0 <= i < j < groups@.len() implies key_less(
                        #[trigger] groups@[i],
                        #[trigger] groups@[j],
                    ) by {
                        assert(key_less(before[i], before[j]));
                    }
                    assert forall|k: int| 0 <= k < groups@.len() implies (
                    #[trigger] groups@[k]).message_count == unread_count(
                        now,
                        groups@[k].team@,
                        groups@[k].recipient@,
                    ) && groups@[k].message_count > 0 by {
                        if k != index {
                            same_key_same_position(before, k, index as int);
                        }
                    }
                    keys_kept(before, groups@, seen, *message, index as int);
                }
                return;
            },
            Order::After => {
                break;
            },
        }
        index += 1;
    }
    let group = MarkReadTarget {
        team: message.team.clone(),
        recipient: message.to_agent.clone(),
        message_count: 1,
    };
    let ghost new_group = group;
    groups.insert(index, group);
    proof {
        count_sum_insert(before, index as int, new_group);
        assert forall|i: int, j: int| 0 <= i < j < groups@.len() implies key_less(
            #[trigger] groups@[i],
            #[trigger] groups@[j],
        ) by {
            if i == index {
                assert(groups@[j] == before[j - 1]);
                if j - 1 > index {
                    key_less_transitive(new_group, before[index as int], before[j - 1]);
                }
            } else if j == index {
                assert(groups@[i] == before[i]);
            } else {
                let bi = if i < index {
                    i
                } else {
                    i - 1
                };
                let bj = if j < index {
                    j
                } else {
                    j - 1
                };
                assert(key_less(before[bi], before[bj]));
            }
        }
        assert(!has_key(before, message.team@, message.to_agent@)) by {
            if has_key(before, message.team@, message.to_agent@) {
                let k = choose|k: int|
                    0 <= k < before.len() && #[trigger] before[k].team@ == message.team@
                        && before[k].recipient@ == message.to_agent@;
                order::text_less_irreflexive(message.team@);
                order::text_less_irreflexive(message.to_agent@);
                if k > index {
                    key_less_transitive(new_group, before[index as int], before[k]);
                }
            }
        }
        absent_key_counts_none(before, seen, message.team@, message.to_agent@);
        assert forall|k: int| 0 <= k < groups@.len() implies (
        #[trigger] groups@[k]).message_count == unread_count(
            now,
            groups@[k].team@,
            groups@[k].recipient@,
        ) && groups@[k].message_count > 0 by {
            if k != index {
                let b = if k < index {
                    k
                } else {
                    k - 1
                };
                assert(groups@[k] == before[b]);
                assert(!(before[b].team@ == message.team@ && before[b].recipient@
                    == message.to_agent@));
            }
        }
        keys_kept(before, groups@, seen, *message, index as int);
    }
}

proof fn same_key_same_position(groups: Seq<MarkReadTarget>, i: int, j: int)
    requires
        keys_sorted(groups),
        0 <= i < groups.len(),
        0 <= j < groups.len(),
        i != j,
    ensures
        !(groups[i].team@ == groups[j].team@ && groups[i].recipient@ == groups[j].recipient@),
{
    order::text_less_irreflexive(groups[i].team@);
    order::text_less_irreflexive(groups[i].recipient@);
    if i < j {
        assert(key_less(groups[i], groups[j]));
    } else {
        assert(key_less(groups[j], groups[i]));
    }
}

proof fn keys_kept(
    before: Seq<MarkReadTarget>,
    after: Seq<MarkReadTarget>,
    seen: Seq<Message>,
    message: Message,
    index: int,
)
    requires
        0 <= index < after.len(),
        after[index].team@ == message.team@,
        after[index].recipient@ == message.to_agent@,
        forall|i: int|
            0 <= i < seen.len() && (#[trigger] seen[i]).read_at is None ==> has_key(
                before,
                seen[i].team@,
                seen[i].to_agent@,
            ),
        after.len() == before.len() ==> forall|k: int|
            0 <= k < before.len() ==> (#[trigger] after[k]).team@ == before[k].team@
                && after[k].recipient@ == before[k].recipient@,
        after.len() != before.len() ==> after == before.insert(index, after[index]) && index
            <= before.len(),
    ensures
        forall|i: int|
            0 <= i < seen.push(message).len() && (#[trigger] seen.push(message)[i]).read_at is None
                ==> has_key(after, seen.push(message)[i].team@, seen.push(message)[i].to_agent@),
{
    let now = seen.push(message);
    assert forall|i: int|
        0 <= i < now.len() && (#[trigger] now[i]).read_at is None implies has_key(
        after,
        now[i].team@,
        now[i].to_agent@,
    ) by {
        if i < seen.len() {
            assert(now[i] == seen[i]);
            let k = choose|k: int|
                0 <= k < before.len() && #[trigger] before[k].team@ == seen[i].team@
                    && before[k].recipient@ == seen[i].to_agent@;
            if after.len() == before.len() {
                assert(after[k].team@ == now[i].team@);
            } else if k < index {
                assert(after[k] == before[k]);
                assert(after[k].team@ == now[i].team@);
            } else {
                assert(after[k + 1] == before[k]);
                assert(after[k + 1].team@ == now[i].team@);
            }
        } else {
            assert(after[index].team@ == now[i].team@);
        }
    }
}

proof fn absent_key_counts_none(
    groups: Seq<MarkReadTarget>,
    seen: Seq<Message>,
    team: Seq<char>,
    recipient: Seq<char>,
)
    requires
        forall|i: int|
            0 <= i < seen.len() && (#[trigger] seen[i]).read_at is None ==> has_key(
                groups,
                seen[i].team@,
                seen[i].to_agent@,
            ),
        !has_key(groups, team, recipient),
    ensures
        unread_count(seen, team, recipient) == 0,
    decreases seen.len(),
{
    if seen.len() > 0 {
        assert forall|i: int|
            0 <= i < seen.drop_last().len() && (
            #[trigger] seen.drop_last()[i]).read_at is None implies has_key(
            groups,
            seen.drop_last()[i].team@,
            seen.drop_last()[i].to_agent@,
        ) by {
            assert(seen.drop_last()[i] == seen[i]);
        }
        absent_key_counts_none(groups, seen.drop_last(), team, recipient);
        assert(seen.last() == seen[seen.len() - 1]);
    }
}

/// The targets stand for the groups.
pub open spec fn wraps_groups(targets: Seq<BulkTarget>, groups: Seq<MarkReadTarget>) -> bool {
    &&& targets.len() == groups.len()
    &&& forall|k: int| 0 <= k < groups.len() ==> targets[k] == BulkTarget::MarkRead(#[trigger] groups[k])
}

proof fn wrapped_sum(targets: Seq<BulkTarget>, groups: Seq<MarkReadTarget>)
    requires
        wraps_groups(targets, groups),
    ensures
        target::units_sum(targets) == count_sum(groups),
    decreases groups.len(),
{
    if groups.len() > 0 {
        assert(groups[groups.len() - 1] == groups.last());
        assert forall|k: int| 0 <= k < groups.drop_last().len() implies targets.drop_last()[k]
            == BulkTarget::MarkRead(#[trigger] groups.drop_last()[k]) by {
            assert(groups.drop_last()[k] == groups[k]);
        }
        wrapped_sum(targets.drop_last(), groups.drop_last());
    }
}

/// One target for each recipient of each team that has unread messages among `messages`, in order
/// of team and recipient, each with the number of those messages.
pub fn mark_read_targets(messages: &Vec<Message>) -> (targets: Vec<BulkTarget>)
    ensures
        exists|groups: Seq<MarkReadTarget>|
            #![trigger wraps_groups(targets@, groups)]
            wraps_groups(targets@, groups) && groups_count(groups, messages@),
        target::units_sum(targets@) == unread_total(messages@),
        target::units_sum(targets@) <= usize::MAX,
{
    let mut groups: Vec<MarkReadTarget> = Vec::new();
    let total: usize = messages.len();
    let mut index: usize = 0;
    proof {
        assert(messages@.take(0) =~= Seq::empty());
    }
    while index < total
        invariant
            index <= total,
            total == messages@.len(),
            groups_count(groups@, messages@.take(index as int)),
            count_sum(groups@) == unread_total(messages@.take(index as int)),
        decreases total - index,
    {
        let ghost seen = messages@.take(index as int);
        proof {
            assert(messages@.take(index + 1) =~= seen.push(messages@[index as int]));
            assert(messages@.take(index + 1).drop_last() =~= seen);
        }
        if messages[index].read_at.is_none() {
            count_message(&mut groups, &messages[index], Ghost(seen));
        } else {
            proof {
                let now = messages@.take(index + 1);
                assert forall|k: int| 0 <= k < groups@.len() implies (
                #[trigger] groups@[k]).message_count == unread_count(
                    now,
                    groups@[k].team@,
                    groups@[k].recipient@,
                ) && groups@[k].message_count > 0 by {}
                assert forall|i: int|
                    0 <= i < now.len() && (#[trigger] now[i]).read_at is None implies has_key(
                    groups@,
                    now[i].team@,
                    now[i].to_agent@,
                ) by {
                    assert(now[i] == seen[i]);
                }
            }
        }
        index += 1;
    }
    proof {
        assert(messages@.take(index as int) =~= messages@);
        unread_total_bounded(messages@);
    }
    let mut targets: Vec<BulkTarget> = Vec::new();
    let mut position: usize = 0;
    while position < groups.len()
        invariant
            position <= groups@.len(),
            wraps_groups(targets@, groups@.take(position as int)),
        decreases groups@.len() - position,
    {
        let group = &groups[position];
        let copy = MarkReadTarget {
            team: group.team.clone(),
            recipient: group.recipient.clone(),
            message_count: group.message_count,
        };
        targets.push(BulkTarget::MarkRead(copy));
        position += 1;
        proof {
            assert forall|k: int| 0 <= k < position implies targets@[k] == BulkTarget::MarkRead(
                #[trigger] groups@.take(position as int)[k],
            ) by {
                if k < position - 1 {
                    assert(groups@.take(position - 1)[k] == groups@[k]);
                }
            }
        }
    }
    proof {
        assert(groups@.take(position as int) =~= groups@);
        wrapped_sum(targets@, groups@);
    }
    targets
}

} // verus!
