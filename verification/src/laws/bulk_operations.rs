//! Working through many targets: what is offered, what runs, and what is counted.

use crate::app::bulk_dialog;
use crate::app::bulk_dialog::{BulkChoice, BulkDialogStep};
use crate::app::bulk_screen;
use crate::app::bulk_screen::BulkStep;
use crate::app::filter_screen;
use crate::app::filter_screen::FilterRequest;
use crate::app::reset_targets;
use crate::app::status::StatusLine;
use crate::bulk::filter;
use crate::bulk::filter::{BulkFilterFocus, BulkFilterState, FilterPeriod};
use crate::bulk::run::{BulkOperation, BulkRunState};
use crate::bulk::unread;
use crate::bulk::{BulkKind, BulkModal, BulkTarget, ExportFormat, MarkReadTarget};
use crate::clock;
use crate::clock::Timestamp;
use crate::db::{AgentIdentitySummary, AgentTeamSummary, Message, StaleUnread, ZombieIdentity};
use crate::exec::CommandResult;
use crate::input::{KeyCode, KeyEvent};
use crate::search;
use crate::strings;
use vstd::prelude::*;

verus! {

/// A bulk operation begins with exactly the targets that its preview shows, and only once `YES` was
/// typed; an export is of the format that is selected.
pub proof fn bulk_operations_begin_as_shown(
    modal: BulkModal,
    key: KeyEvent,
    teams: Seq<AgentTeamSummary>,
    step: BulkDialogStep,
)
    requires
        bulk_dialog::bulk_dialog_post(modal, key, teams, step),
    ensures
        step.choice matches BulkChoice::Begin { kind, targets } ==> key.code == KeyCode::Enter
            && step.modal is None && ((modal matches BulkModal::Preview {
            kind: shown,
            targets: listed,
            confirm,
            ..
        } && confirm@ == "YES"@ && kind == shown && targets == listed) || (
        modal matches BulkModal::RenameConfirm { targets: listed, confirm, .. } && confirm@
            == "YES"@ && kind == BulkKind::Rename && targets@.len() == listed@.len() && forall|
            i: int,
        |
            0 <= i < listed@.len() ==> #[trigger] targets@[i] == BulkTarget::Rename(listed@[i]))),
        (modal matches BulkModal::Preview { confirm, .. } && confirm@ == "YES"@) && key.code
            == KeyCode::Enter ==> step.choice is Begin,
        (modal matches BulkModal::RenameConfirm { confirm, .. } && confirm@ == "YES"@) && key.code
            == KeyCode::Enter ==> step.choice is Begin,
        step.choice matches BulkChoice::Export(format) ==> key.code == KeyCode::Enter && (
        modal matches BulkModal::ExportFormat { selected } && selected == format),
        modal matches BulkModal::ExportFormat { selected } ==> key.code == KeyCode::Enter
            ==> step.choice is Export,
        modal matches BulkModal::ExportFormat { selected } ==> key.code == KeyCode::Right ==> (
        step.modal matches Some(BulkModal::ExportFormat { selected: other }) && other != selected),
        key.code == KeyCode::Esc ==> step.modal is None && step.choice is Nothing,
        modal matches BulkModal::RenameEdit { targets, .. } ==> (step.modal matches Some(
            BulkModal::RenameEdit { targets: kept, .. },
        ) ==> kept@.len() == targets@.len() && forall|i: int|
            0 <= i < targets@.len() ==> (#[trigger] kept@[i]).team@ == targets@[i].team@
                && kept@[i].old@ == targets@[i].old@),
{
}

/// Renames are accepted exactly if every new name is a proper one, differs from the old one, is given
/// once in its team, and is free in its team or becomes free because its bearer is renamed too.
pub proof fn renames_are_accepted_if_sound(
    targets: Seq<crate::bulk::RenameTarget>,
    teams: Seq<AgentTeamSummary>,
)
    ensures
        bulk_dialog::first_rename_error(targets, teams, targets.len() as int) is None
            <==> forall|i: int|
            0 <= i < targets.len() ==> crate::agents::agent_name_error(
                (#[trigger] targets[i]).new@,
                targets[i].agent_type@,
            ) is None && targets[i].new@ != targets[i].old@ && (forall|j: int|
                0 <= j < i ==> !((#[trigger] targets[j]).team@ == targets[i].team@
                    && targets[j].new@ == targets[i].new@)) && ((exists|t: int, n: int|
                #![trigger teams[t].identities@[n]]
                0 <= t < teams.len() && teams[t].name@ == targets[i].team@ && 0 <= n
                    < teams[t].identities@.len() && teams[t].identities@[n].name@
                    == targets[i].new@) ==> exists|j: int|
                0 <= j < targets.len() && (#[trigger] targets[j]).team@ == targets[i].team@
                    && targets[j].old@ == targets[i].new@),
{
    no_rename_error_up_to(targets, teams, targets.len() as int);
    assert forall|i: int| 0 <= i < targets.len() implies (bulk_dialog::registered_in(
        teams,
        (#[trigger] targets[i]).team@,
        targets[i].new@,
    ) <==> exists|t: int, n: int|
        #![trigger teams[t].identities@[n]]
        0 <= t < teams.len() && teams[t].name@ == targets[i].team@ && 0 <= n
            < teams[t].identities@.len() && teams[t].identities@[n].name@ == targets[i].new@) by {
        if bulk_dialog::registered_in(teams, targets[i].team@, targets[i].new@) {
            let t = choose|t: int|
                0 <= t < teams.len() && (#[trigger] teams[t]).name@ == targets[i].team@
                    && crate::db::has_identity(teams[t].identities@, targets[i].new@);
            let n = choose|n: int|
                0 <= n < teams[t].identities@.len() && #[trigger] teams[t].identities@[n].name@
                    == targets[i].new@;
            assert(teams[t].identities@[n].name@ == targets[i].new@);
        }
        if exists|t: int, n: int|
            #![trigger teams[t].identities@[n]]
            0 <= t < teams.len() && teams[t].name@ == targets[i].team@ && 0 <= n
                < teams[t].identities@.len() && teams[t].identities@[n].name@ == targets[i].new@ {
            let (t, n) = choose|t: int, n: int|
                #![trigger teams[t].identities@[n]]
                0 <= t < teams.len() && teams[t].name@ == targets[i].team@ && 0 <= n
                    < teams[t].identities@.len() && teams[t].identities@[n].name@
                    == targets[i].new@;
            assert(crate::db::has_identity(teams[t].identities@, targets[i].new@));
        }
    }
}

proof fn no_rename_error_up_to(
    targets: Seq<crate::bulk::RenameTarget>,
    teams: Seq<AgentTeamSummary>,
    count: int,
)
    requires
        0 <= count <= targets.len(),
    ensures
        bulk_dialog::first_rename_error(targets, teams, count) is None <==> forall|i: int|
            0 <= i < count ==> bulk_dialog::rename_error(targets, teams, i) is None && (
            #[trigger] targets[i]) == targets[i],
    decreases count,
{
    if count > 0 {
        no_rename_error_up_to(targets, teams, count - 1);
        assert(targets[count - 1] == targets[count - 1]);
    }
}

/// When the command for a target has succeeded, the target counts as done with all its units, and the
/// next target runs; after the last one the operation ends and is summed up.
pub proof fn done_targets_make_way(
    before: BulkOperation,
    target: BulkTarget,
    result: CommandResult,
    after: BulkOperation,
    line: Option<StatusLine>,
    step: BulkStep,
)
    requires
        bulk_screen::target_completed(before, target, Ok(result), after, line, step),
        result.success,
        !before.cancel_requested,
        before.wf(),
        before.state is Running,
        before.next_index < before.targets@.len(),
        before.targets@[before.next_index as int] == target,
    ensures
        after.targets == before.targets,
        after.kind == before.kind,
        after.next_index == before.next_index + 1,
        after.failed_units == before.failed_units,
        after.completed_units == before.completed_units + (match target {
            BulkTarget::MarkRead(unread) => unread.message_count as nat,
            _ => 1,
        }),
        after.results@.len() == before.results@.len() + 1,
        after.results@.last().target == target,
        after.results@.last().success,
        before.next_index + 1 < before.targets@.len() ==> (step matches BulkStep::Run {
            target: next,
            force_despawn,
        } && next == before.targets@[before.next_index + 1] && !force_despawn) && after.state
            is Running && line is None,
        before.next_index + 1 == before.targets@.len() ==> (step matches BulkStep::Finished { kind }
            && kind == before.kind) && (after.state matches BulkRunState::Complete { aborted }
            && !aborted) && line is Some,
{
    crate::bulk::target::units_of_prefix(before.targets@, before.next_index as int);
    assert(before.targets@.len() == before.targets.len());
}

/// When the command for a target has failed, nothing runs until one decides: an agent that could not
/// be shut down may be forced, once; anything else is passed over or ends the operation.
pub proof fn failed_targets_wait_for_a_decision(
    before: BulkOperation,
    target: BulkTarget,
    result: Result<CommandResult, String>,
    after: BulkOperation,
    line: Option<StatusLine>,
    step: BulkStep,
)
    requires
        bulk_screen::target_completed(before, target, result, after, line, step),
        !(result matches Ok(outcome) && outcome.success),
        !before.cancel_requested,
    ensures
        step is Wait,
        after.state is AwaitForce <==> before.kind == BulkKind::Despawn && !before.force_despawn,
        after.state is AwaitDecision <==> !(before.kind == BulkKind::Despawn
            && !before.force_despawn),
        after.next_index == before.next_index,
        after.completed_units == before.completed_units,
        after.failed_units == before.failed_units,
        after.results@.len() == before.results@.len() + 1,
        after.results@.last().target == target,
        !after.results@.last().success,
        line matches Some(shown) && shown.is_error,
        result matches Err(error) ==> (line matches Some(shown) && shown.text@ == error@),
        result matches Ok(outcome) ==> (outcome.stderr@.len() > 0 ==> (line matches Some(shown)
            && shown.text@ == outcome.stderr@)) && (outcome.stderr@.len() == 0
            && outcome.stdout@.len() > 0 ==> (line matches Some(shown) && shown.text@
            == outcome.stdout@)),
{
}

/// A cancelled operation ends with the command that runs: no other target is touched.
pub proof fn cancelled_operations_end(
    before: BulkOperation,
    target: BulkTarget,
    result: Result<CommandResult, String>,
    after: BulkOperation,
    line: Option<StatusLine>,
    step: BulkStep,
)
    requires
        bulk_screen::target_completed(before, target, result, after, line, step),
        before.cancel_requested,
    ensures
        step matches BulkStep::Finished { kind } && kind == before.kind,
        after.state matches BulkRunState::Complete { aborted } && aborted,
        after.results@.len() == before.results@.len() + 1,
        after.results@.last().success <==> (result matches Ok(outcome) && outcome.success),
        !(result matches Ok(outcome) && outcome.success) ==> after.completed_units
            == before.completed_units && after.next_index == before.next_index,
        after.failed_units == before.failed_units,
{
}

/// What one decides about a failed target: `c` passes it over and goes on with the next one, `y`
/// forces the very same one, and `a`, `n` and Escape end the operation. A target that is passed
/// over counts as failed with all its units.
pub proof fn decisions_are_followed(
    before: BulkOperation,
    key: KeyEvent,
    after: BulkOperation,
    line: Option<StatusLine>,
    step: BulkStep,
)
    requires
        bulk_screen::operation_key_post(before, key, after, line, step),
        before.wf(),
    ensures
        before.state is AwaitDecision && key.code == KeyCode::Char('c') ==> {
            &&& after.next_index == before.next_index + 1
            &&& after.completed_units == before.completed_units
            &&& after.failed_units == before.failed_units + (
            match before.targets@[before.next_index as int] {
                BulkTarget::MarkRead(unread) => unread.message_count as nat,
                _ => 1,
            })
            &&& before.next_index + 1 < before.targets@.len() ==> (step matches BulkStep::Run {
                target,
                force_despawn,
            } && target == before.targets@[before.next_index + 1] && !force_despawn) && after.state
                is Running
            &&& before.next_index + 1 == before.targets@.len() ==> step is Finished && (
            after.state matches BulkRunState::Complete { aborted } && !aborted)
        },
        before.state is AwaitDecision && (key.code == KeyCode::Char('a') || key.code
            == KeyCode::Esc) ==> step is Finished && (after.state matches BulkRunState::Complete {
            aborted,
        } && aborted),
        before.state is AwaitForce && key.code == KeyCode::Char('y') ==> after.next_index
            == before.next_index && after.state is Running && (step matches BulkStep::Run {
            target,
            force_despawn,
        } && target == before.targets@[before.next_index as int] && force_despawn),
        before.state is AwaitForce && (key.code == KeyCode::Char('n') || key.code == KeyCode::Esc)
            ==> step is Finished && (after.state matches BulkRunState::Complete { aborted }
            && aborted),
        before.state is Running ==> !(step is Run) && !(step is Finished) && after.next_index
            == before.next_index && after.state is Running,
        before.state is Running && key.code == KeyCode::Esc ==> after.cancel_requested,
        before.state is Running && key.code != KeyCode::Esc && key.code != KeyCode::Char('q')
            ==> after == before,
        before.state is Complete ==> step is Wait && after.state == before.state && after.results
            == before.results,
        after.targets == before.targets,
        after.kind == before.kind,
        after.results == before.results,
        step is Finished ==> (line matches Some(shown) && (shown.is_error <==> after.failed_units
            > 0)),
{
    assert(before.targets@.len() == before.targets.len());
    if before.state is AwaitDecision || before.state is AwaitForce {
        crate::bulk::target::units_of_prefix(before.targets@, before.next_index as int);
    }
}

/// The summary of an operation names what was done, and how much of it and how much failed.
pub proof fn summaries_count_what_was_done(kind: BulkKind, completed: nat, failed: nat)
    ensures
        bulk_screen::summary_text(kind, completed, failed) == (match kind {
            BulkKind::MarkRead => "marked "@,
            BulkKind::Reset => "reset "@,
            BulkKind::Rename => "renamed "@,
            BulkKind::Despawn => "despawned "@,
        }) + strings::decimal(completed) + (match kind {
            BulkKind::MarkRead => " msgs as read ("@,
            BulkKind::Despawn => " agents ("@,
            _ => " identities ("@,
        }) + strings::decimal(failed) + " failed)"@,
{
}

/// What is marked read is what is unread: every unread message is covered by a target for its team
/// and recipient, and a target counts exactly the unread messages of its team and recipient, of
/// which there is at least one. No team and recipient are listed twice.
pub proof fn targets_cover_what_is_unread(targets: Seq<BulkTarget>, messages: Seq<Message>)
    requires
        filter_screen::marks_unread(targets, messages),
    ensures
        forall|k: int|
            0 <= k < targets.len() ==> (#[trigger] targets[k] matches BulkTarget::MarkRead(target)
                && target.message_count > 0 && target.message_count == messages.filter(
                |m: Message|
                    m.read_at is None && m.team@ == target.team@ && m.to_agent@
                        == target.recipient@,
            ).len()),
        forall|i: int|
            0 <= i < messages.len() && (#[trigger] messages[i]).read_at is None ==> exists|k: int|
                0 <= k < targets.len() && (#[trigger] targets[k] matches BulkTarget::MarkRead(
                    target,
                ) && target.team@ == messages[i].team@ && target.recipient@
                    == messages[i].to_agent@),
        forall|k: int, l: int|
            0 <= k < l < targets.len() ==> (#[trigger] targets[k])->MarkRead_0.team@ != (
            #[trigger] targets[l])->MarkRead_0.team@ || targets[k]->MarkRead_0.recipient@
                != targets[l]->MarkRead_0.recipient@,
{
    let groups = choose|groups: Seq<MarkReadTarget>|
        #![trigger unread::wraps_groups(targets, groups)]
        unread::wraps_groups(targets, groups) && unread::groups_count(groups, messages);
    assert forall|k: int| 0 <= k < targets.len() implies (#[trigger] targets[k]
        matches BulkTarget::MarkRead(target) && target.message_count > 0 && target.message_count
        == messages.filter(
        |m: Message|
            m.read_at is None && m.team@ == target.team@ && m.to_agent@ == target.recipient@,
    ).len()) by {
        assert(targets[k] == BulkTarget::MarkRead(groups[k]));
        let target = groups[k];
        let team = target.team@;
        let recipient = target.recipient@;
        unread_are_counted(messages, team, recipient);
        assert((|m: Message| m.read_at is None && m.team@ == team && m.to_agent@ == recipient)
            =~= (|m: Message|
            m.read_at is None && m.team@ == target.team@ && m.to_agent@ == target.recipient@));
    }
    assert forall|i: int|
        0 <= i < messages.len() && (#[trigger] messages[i]).read_at is None implies exists|k: int|
        0 <= k < targets.len() && (#[trigger] targets[k] matches BulkTarget::MarkRead(target)
            && target.team@ == messages[i].team@ && target.recipient@ == messages[i].to_agent@) by {
        let k = choose|k: int|
            0 <= k < groups.len() && #[trigger] groups[k].team@ == messages[i].team@
                && groups[k].recipient@ == messages[i].to_agent@;
        assert(targets[k] == BulkTarget::MarkRead(groups[k]));
    }
    assert forall|k: int, l: int| 0 <= k < l < targets.len() implies (
    #[trigger] targets[k])->MarkRead_0.team@ != (#[trigger] targets[l])->MarkRead_0.team@
        || targets[k]->MarkRead_0.recipient@ != targets[l]->MarkRead_0.recipient@ by {
        assert(targets[k] == BulkTarget::MarkRead(groups[k]));
        assert(targets[l] == BulkTarget::MarkRead(groups[l]));
        assert(unread::key_less(groups[k], groups[l]));
        crate::order::text_less_irreflexive(groups[k].team@);
        crate::order::text_less_irreflexive(groups[k].recipient@);
    }
}

proof fn unread_are_counted(messages: Seq<Message>, team: Seq<char>, recipient: Seq<char>)
    ensures
        unread::unread_count(messages, team, recipient) == messages.filter(
            |m: Message| m.read_at is None && m.team@ == team && m.to_agent@ == recipient,
        ).len(),
    decreases messages.len(),
{
    reveal(Seq::filter);
    if messages.len() > 0 {
        unread_are_counted(messages.drop_last(), team, recipient);
    }
}

/// A message is found if the agent that is looked for is part of its sender or recipient, the text is
/// part of its body, whether in capitals or not, and it is no older than the chosen period: seven
/// days, thirty, or any age.
pub proof fn found_messages_pass_every_condition(
    state: BulkFilterState,
    now: Timestamp,
    message: Message,
)
    ensures
        filter::passes_filter(message, state.agent@, state.body@, state.period.earliest(now)) <==> {
            &&& state.agent@.len() > 0 ==> search::contains_text(
                strings::lowercase(message.from_agent@),
                strings::lowercase(state.agent@),
            ) || search::contains_text(
                strings::lowercase(message.to_agent@),
                strings::lowercase(state.agent@),
            )
            &&& state.body@.len() > 0 ==> search::contains_text(
                strings::lowercase(message.body@),
                strings::lowercase(state.body@),
            )
            &&& state.period == FilterPeriod::SevenDays ==> (clock::parsed_time(
                message.created_at@,
            ) matches Some(time) && time.not_before(now.days_earlier(7)))
            &&& state.period == FilterPeriod::ThirtyDays ==> (clock::parsed_time(
                message.created_at@,
            ) matches Some(time) && time.not_before(now.days_earlier(30)))
        },
{
}

/// Whatever is typed into the filter, what is found afterwards is what passes the filter as it then
/// stands, in the order of the messages; Tab and the arrows change no condition but the one that
/// is chosen.
pub proof fn filters_find_anew(
    before: BulkFilterState,
    key: KeyEvent,
    now: Timestamp,
    after: BulkFilterState,
    request: FilterRequest,
)
    requires
        filter_screen::filter_key_post(before, key, now, after, request),
        before.all_messages@.len() <= usize::MAX,
        before.results@ == before.matching(now),
    ensures
        after.all_messages == before.all_messages,
        filter::picked(after.all_messages@, after.results@) == after.all_messages@.filter(
            |m: Message|
                filter::passes_filter(m, after.agent@, after.body@, after.period.earliest(now)),
        ),
        before.focus != BulkFilterFocus::Agent ==> after.agent == before.agent,
        before.focus != BulkFilterFocus::Body ==> after.body == before.body,
        before.focus != BulkFilterFocus::Period ==> after.period == before.period,
        before.focus == BulkFilterFocus::Period && key.code == KeyCode::Char('7') ==> after.period
            == FilterPeriod::SevenDays,
        before.focus == BulkFilterFocus::Period && key.code == KeyCode::Char('3') ==> after.period
            == FilterPeriod::ThirtyDays,
        before.focus == BulkFilterFocus::Period && key.code == KeyCode::Char('a') ==> after.period
            == FilterPeriod::All,
        key.code == KeyCode::Char('M') && before.focus != BulkFilterFocus::Period ==> request
            == FilterRequest::MarkRead,
        key.code == KeyCode::Char('E') ==> request == FilterRequest::Export,
        key.code == KeyCode::Esc ==> request == FilterRequest::LeaveScreen && after == before,
        request == FilterRequest::MarkRead ==> key.code == KeyCode::Char('M'),
        request == FilterRequest::Export ==> key.code == KeyCode::Char('E'),
{
    filter::found_messages_are_those_that_pass(
        after.all_messages@,
        after.agent@,
        after.body@,
        after.period.earliest(now),
    );
}

/// A reset is offered for every registered identity that is without traffic or has let messages to it
/// go stale, but never for oneself, and once for each registration.
pub proof fn resets_are_offered_to_the_idle(
    targets: Seq<BulkTarget>,
    identities: Seq<AgentIdentitySummary>,
    zombies: Seq<ZombieIdentity>,
    stale: Seq<StaleUnread>,
    own: Option<String>,
    index: int,
)
    requires
        reset_targets::resets_all(
            targets,
            identities,
            reset_targets::offered_positions(
                identities,
                zombies,
                stale,
                own,
                identities.len() as int,
            ),
        ),
        0 <= index < identities.len(),
        forall|i: int|
            0 <= i < index ==> !((#[trigger] identities[i]).team@ == identities[index].team@
                && identities[i].name@ == identities[index].name@ && identities[i].agent_type@
                == identities[index].agent_type@ && identities[i].project@
                == identities[index].project@),
    ensures
        (exists|k: int|
            0 <= k < targets.len() && (#[trigger] targets[k] matches BulkTarget::Reset(reset)
                && reset.team@ == identities[index].team@ && reset.agent@ == identities[index].name@
                && reset.agent_type@ == identities[index].agent_type@ && reset.project@
                == identities[index].project@)) <==> !(own matches Some(name) && name@
            == identities[index].name@) && ((exists|z: int|
            0 <= z < zombies.len() && (#[trigger] zombies[z]).team@ == identities[index].team@
                && zombies[z].agent@ == identities[index].name@) || exists|s: int|
            0 <= s < stale.len() && (#[trigger] stale[s]).team@ == identities[index].team@
                && stale[s].to_agent@ == identities[index].name@),
{
    let positions = reset_targets::offered_positions(
        identities,
        zombies,
        stale,
        own,
        identities.len() as int,
    );
    offered_are_exact(identities, zombies, stale, own, identities.len() as int);
    assert(!reset_targets::listed_before(identities, index));
    if positions.contains(index) {
        let k = choose|k: int| 0 <= k < positions.len() && positions[k] == index;
        assert(reset_targets::resets(targets[k], identities[positions[k]]));
    }
    if exists|k: int|
        0 <= k < targets.len() && (#[trigger] targets[k] matches BulkTarget::Reset(reset)
            && reset.team@ == identities[index].team@ && reset.agent@ == identities[index].name@
            && reset.agent_type@ == identities[index].agent_type@ && reset.project@
            == identities[index].project@) {
        let k = choose|k: int|
            0 <= k < targets.len() && (#[trigger] targets[k] matches BulkTarget::Reset(reset)
                && reset.team@ == identities[index].team@ && reset.agent@ == identities[index].name@
                && reset.agent_type@ == identities[index].agent_type@ && reset.project@
                == identities[index].project@);
        assert(reset_targets::resets(targets[k], identities[positions[k]]));
        assert(positions.contains(positions[k]));
        let other = positions[k];
        assert(reset_targets::is_offered(identities, zombies, stale, own, other));
        if other > index {
            assert(reset_targets::same_place(identities[index], identities[other]));
            assert(reset_targets::listed_before(identities, other));
        }
        if other < index {
            assert(identities[other].team@ == identities[index].team@);
        }
    }
}

proof fn offered_are_exact(
    identities: Seq<AgentIdentitySummary>,
    zombies: Seq<ZombieIdentity>,
    stale: Seq<StaleUnread>,
    own: Option<String>,
    count: int,
)
    requires
        0 <= count <= identities.len(),
    ensures
        forall|i: int| #[trigger]
            reset_targets::offered_positions(identities, zombies, stale, own, count).contains(i)
                <==> 0 <= i < count && reset_targets::is_offered(
                identities,
                zombies,
                stale,
                own,
                i,
            ),
    decreases count,
{
    if count > 0 {
        let before = reset_targets::offered_positions(identities, zombies, stale, own, count - 1);
        let after = reset_targets::offered_positions(identities, zombies, stale, own, count);
        offered_are_exact(identities, zombies, stale, own, count - 1);
        assert forall|i: int| #[trigger] after.contains(i) <==> 0 <= i < count
            && reset_targets::is_offered(identities, zombies, stale, own, i) by {
            if before.contains(i) {
                let k = choose|k: int| 0 <= k < before.len() && before[k] == i;
                assert(after[k] == i);
            }
            if after.contains(i) && !before.contains(i) {
                let k = choose|k: int| 0 <= k < after.len() && after[k] == i;
                assert(k == before.len());
            }
            if i == count - 1 && reset_targets::is_offered(identities, zombies, stale, own, i) {
                assert(after[before.len() as int] == i);
            }
        }
    }
}

} // verus!
