//! Outcomes: what is carried out, what comes back, and what is shown of it.

use crate::agents;
use crate::app::completion;
use crate::app::composer::ComposerView;
use crate::app::drafts;
use crate::app::effects::Effect;
use crate::app::event_loop::Completion;
use crate::app::model::{
    App, AppAction, BulkCancel, Finish, InFlightOperation, OnError, Query, Reply, Room, Task,
};
use crate::app::room;
use crate::bulk::export;
use crate::bulk::filter;
use crate::bulk::target::ExportFormat;
use crate::clock;
use crate::clock::{Clock, Timestamp};
use crate::db::{MemberSummary, Message, TeamSummary};
use crate::exec;
use crate::exec::{CommandResult, ScriptRunner, TeamReadRun, TeamReadStep};
use crate::strings;
use vstd::prelude::*;

verus! {

/// An operation begins only when none runs; it is then the one that runs, at the first frame of the
/// spinner, and its own words are shown.
pub proof fn operations_begin_when_none_runs(
    before: App,
    operation: InFlightOperation,
    after: App,
    started: bool,
)
    requires
        before.start_post(operation, after, started),
    ensures
        started <==> before.background.in_flight is None,
        !started ==> after == before,
        started ==> after.background.in_flight == Some(operation) && after.background.spinner_frame
            == 0 && !after.status.is_error && after.room == before.room && after.writing
            == before.writing && after.bulk == before.bulk,
        started && operation == InFlightOperation::Send ==> after.status.text@ == "sending... |"@,
        started && operation == InFlightOperation::MarkRead ==> after.status.text@
            == "marking read... |"@,
        started && operation == InFlightOperation::Agent ==> after.status.text@
            == "running agent op... |"@,
        started && operation == InFlightOperation::Bulk ==> after.status.text@
            == "running bulk op... |"@,
{
    reveal_strlit("sending");
    reveal_strlit("marking read");
    reveal_strlit("running agent op");
    reveal_strlit("running bulk op");
    reveal_strlit("... ");
    reveal_strlit("|");
    reveal_strlit("sending... |");
    reveal_strlit("marking read... |");
    reveal_strlit("running agent op... |");
    reveal_strlit("running bulk op... |");
    if started {
        let text = after.status.text@;
        match operation {
            InFlightOperation::Send => {
                assert(text =~= "sending... |"@);
            },
            InFlightOperation::MarkRead => {
                assert(text =~= "marking read... |"@);
            },
            InFlightOperation::Agent => {
                assert(text =~= "running agent op... |"@);
            },
            InFlightOperation::Bulk => {
                assert(text =~= "running bulk op... |"@);
            },
        }
    }
}

/// The found messages are exported, all of them and no others, into the directory for reports; the
/// file is named for the time, with the extension of its format. Without any nothing is written.
pub proof fn found_messages_are_exported(
    before: App,
    scripts: ScriptRunner,
    format: ExportFormat,
    now: Timestamp,
    after: App,
    effect: Effect,
)
    requires
        before.effect_post(scripts, AppAction::ExportBulk(format), now, after, effect),
    ensures
        before.bulk.filter is None ==> effect is Nothing && after.status.is_error
            && after.status.text@ == "bulk filter is not loaded"@,
        ({
            let state = before.bulk.filter->Some_0;
            let found = filter::picked(state.all_messages@, state.results@);
            let written = export::export_content(found, format, now);
            &&& before.bulk.filter is Some && found.len() == 0 ==> effect is Nothing
                && after.status.is_error && after.status.text@ == "filter has no results"@
            &&& before.bulk.filter is Some && found.len() > 0 && written is None
                ==> effect is Nothing && after.status.is_error
            &&& before.bulk.filter is Some && found.len() > 0 && written is Some ==> after == before
                && (effect matches Effect::Write { directory, path, content, .. } && directory@
                == before.paths.report_dir@ && content@ == written->Some_0 && path@ == exec::path_in(
                before.paths.report_dir@,
                "agmsg-bulk-"@ + clock::pattern_text(now.secs, now.nanos, "%Y%m%d-%H%M%S"@) + "."@
                    + (if format == ExportFormat::Json {
                    "json"@
                } else {
                    "md"@
                }),
            ))
        }),
        effect is Write || effect is Nothing,
{
}

/// The report of the audit is written as it was computed, under the day and the minute of its time;
/// without an audit nothing is written.
pub proof fn reports_are_written_under_their_time(
    before: App,
    scripts: ScriptRunner,
    now: Timestamp,
    after: App,
    effect: Effect,
)
    requires
        before.effect_post(scripts, AppAction::ExportReport, now, after, effect),
    ensures
        before.audit.report is None ==> effect is Nothing && after.status.is_error,
        before.audit.report is Some ==> {
            let report = before.audit.report->Some_0;
            let digits = crate::audit::digits_in(report.ts@);
            &&& digits.len() < 12 ==> effect is Nothing && after.status.is_error
            &&& digits.len() >= 12 ==> after == before && (effect matches Effect::Write {
                directory,
                path,
                content,
                ..
            } && directory@ == before.paths.report_dir@ && path@ == exec::path_in(
                before.paths.report_dir@,
                "agmsg-report-"@ + (digits.take(8) + "-"@ + digits.subrange(8, 12)) + ".md"@,
            ) && content@ == crate::audit::report_document(
                report,
                before.audit.pair_matrices@,
                before.audit.zombies@,
                before.audit.stale_unreads@,
                before.audit.pair_window_days as nat,
            ))
        },
{
}

/// What is copied is the body that was asked for; what is read is what was asked for; a failure ends
/// with its own error; the next target of a bulk operation runs only if it can be cancelled.
pub proof fn other_actions_are_carried_out(
    before: App,
    scripts: ScriptRunner,
    action: AppAction,
    now: Timestamp,
    after: App,
    effect: Effect,
)
    requires
        before.effect_post(scripts, action, now, after, effect),
    ensures
        action matches AppAction::Yank(text) ==> (effect matches Effect::Yank { body, sequence }
            && body@ == text@ && sequence@ == "\x1b]52;c;"@ + crate::clipboard::base64(
            vstd::utf8::encode_utf8(text@),
        ) + "\x07"@),
        action matches AppAction::Load(query) ==> effect == Effect::Load(query) && after == before,
        action matches AppAction::Fail(error) ==> effect == Effect::Fail(error) && after == before,
        action is RefreshHealth <==> effect is Health,
        action is Nothing ==> effect is Nothing && after == before,
        action matches AppAction::RunBulk { target: wanted, .. } ==> (
        before.background.in_flight is None && before.bulk.cancel != BulkCancel::Absent ==> (effect
            matches Effect::Bulk { target, .. } && target == wanted) && after.background.in_flight
            == Some(InFlightOperation::Bulk)),
        action is RunBulk && (before.background.in_flight is Some || before.bulk.cancel
            == BulkCancel::Absent) ==> effect is Nothing,
{
}

/// When a command ends, nothing runs any more; a command that could not be run is told with its error
/// and changes nothing else.
pub proof fn ended_commands_are_told(
    before: App,
    completion: Completion,
    clock: Clock,
    after: App,
    action: AppAction,
    error: String,
)
    requires
        before.idle().outcome_post(completion, clock, after, action),
        (completion matches Completion::Send { outcome } && outcome == Err::<CommandResult, String>(
            error,
        )) || (completion matches Completion::MarkRead { outcome, .. } && outcome == Err::<
            CommandResult,
            String,
        >(error)),
    ensures
        after.background.in_flight is None,
        after.background.spinner_frame == 0,
        after.status.is_error,
        after.status.text@ == error@,
        after.writing == before.writing,
        after.room == before.room,
        action is Nothing,
{
}

/// Messages that were marked read are told, with their number and for whom; a script that failed is
/// told with its error. Either way the lists are read again.
pub proof fn marking_read_is_told(
    before: App,
    result: CommandResult,
    label: Seq<char>,
    unread: nat,
    clock: Clock,
    after: App,
    action: AppAction,
)
    requires
        before.mark_completed(result, label, unread, clock, after, action),
    ensures
        action == AppAction::Load(Query::TeamSummaries),
        after.plan.tasks@.len() >= 3,
        after.plan.tasks@[0] is RefreshTeams,
        after.plan.tasks@[1] is ReloadTeam,
        after.plan.tasks@[2] is ReloadHistory,
        after.plan.tasks@.len() == 4 ==> after.plan.tasks@[3] is AuditAnalytics,
        after.plan.tasks@.len() == (if before.display.screen == crate::app::model::Screen::Audit {
            4nat
        } else {
            3
        }),
        after.plan.finish matches Finish::Status(line) && (line.is_error <==> !result.success),
        result.success ==> after.plan.finish->Status_0.text@ == "marked read: all for "@ + label
            + " ("@ + strings::decimal(unread) + " msgs)"@,
        !result.success && result.stderr@.len() > 0 ==> after.plan.finish->Status_0.text@
            == result.stderr@,
        after.room == before.room,
{
    let tasks = completion::main_reload();
    assert(tasks[0] is RefreshTeams);
    let audited = tasks.push(Task::AuditAnalytics);
    assert(audited[0] is RefreshTeams);
}

/// An audit that was read is kept and its figures are read; one that failed, or cannot be read, is
/// told, and the one before it stays.
pub proof fn audits_are_kept_or_told(
    before: App,
    result: CommandResult,
    report: Result<crate::audit::AuditReport, String>,
    clock: Clock,
    after: App,
    action: AppAction,
)
    requires
        before.audit_completed(result, report, clock, after, action),
    ensures
        !after.audit.loading,
        result.success && report is Ok ==> after.audit.report == Some(report->Ok_0) && action
            == AppAction::Load(Query::AuditHistory) && after.plan.tasks@.len() == 2
            && after.plan.tasks@[0] is AuditInsights && after.plan.tasks@[1] is AuditAnalytics,
        !(result.success && report is Ok) ==> after.audit.report == before.audit.report
            && after.status.is_error && action is Nothing,
        result.success && report is Err ==> after.status.text@ == report->Err_0@,
        !result.success && result.stderr@.len() > 0 ==> after.status.text@ == result.stderr@,
{
    let tasks = seq![Task::AuditInsights, Task::AuditAnalytics];
    assert(tasks[0] is AuditInsights);
}

/// Messages that arrive are put into the room, and the teams and members are counted again; of no
/// messages nothing comes.
pub proof fn arrivals_are_taken_in(
    before: App,
    messages: Seq<Message>,
    clock: Clock,
    after: App,
    action: AppAction,
)
    requires
        before.messages_received(messages, clock, after, action),
        messages.len() <= usize::MAX,
    ensures
        messages.len() == 0 ==> after == before && action is Nothing,
        messages.len() > 0 ==> before.room.arrivals_post(messages, after.room) && action
            == AppAction::Load(Query::TeamSummaries) && (after.plan.finish matches Finish::Arrivals {
            count,
            ..
        } && count == messages.len()),
{
    let tasks = seq![Task::RefreshTeams, Task::RefreshMembers];
    assert(tasks[0] is RefreshTeams);
}

/// After an operation on an agent the lists and the agents are read again, whatever came of it.
pub proof fn agents_are_read_again(
    before: App,
    operation: agents::AgentOperation,
    result: CommandResult,
    clock: Clock,
    after: App,
    action: AppAction,
)
    requires
        before.agent_completed(operation, result, clock, after, action),
    ensures
        action == AppAction::Load(Query::TeamSummaries),
        after.plan.tasks@ == seq![
            Task::RefreshTeams,
            Task::ReloadTeam,
            Task::ReloadHistory,
            Task::ReloadAgents,
        ],
        after.plan.finish == (Finish::AgentDone { operation, result }),
        after.agents == before.agents,
{
    let tasks = App::agent_reload();
    assert(tasks[0] is RefreshTeams);
}

/// The width of the sidebar stays within its bounds, and is the saved one if that does.
pub proof fn sidebars_keep_their_bounds(pct: u16, min: u16, max: u16)
    requires
        min <= max,
    ensures
        min <= App::clamped_pct(pct, min, max) <= max,
        min <= pct <= max ==> App::clamped_pct(pct, min, max) == pct,
        pct < min ==> App::clamped_pct(pct, min, max) == min,
        pct > max ==> App::clamped_pct(pct, min, max) == max,
{
}

/// A session without an own identity, or with a theme that is not there, says so at its beginning.
pub proof fn missing_settings_are_told(
    identity: Option<String>,
    missing_theme: Option<String>,
    finish: Finish,
)
    requires
        App::greets(identity, missing_theme, finish),
    ensures
        finish is Nothing <==> identity is Some && missing_theme is None,
        missing_theme is Some ==> (finish matches Finish::Status(line) && !line.is_error && line.text@
            == "⚠ AGMSG_TUI_THEME="@ + missing_theme->Some_0@
            + " not found in syntect themes, using default"@),
        missing_theme is None && identity is None ==> (finish matches Finish::Status(line)
            && !line.is_error && line.text@
            == "⚠ AGMSG_IDENTITY unset: self-guard / own-marker / from-default disabled"@),
{
}

/// New members are shown with the cursor where it was, as far as there is a member there; without a
/// team there are neither members nor messages.
pub proof fn new_members_are_shown(before: Room, members: Vec<MemberSummary>, after: Room)
    requires
        members@.len() <= usize::MAX,
    ensures
        before.with_members(members).members == members,
        before.with_members(members).messages == before.messages,
        before.selected_member < members@.len() ==> before.with_members(members).selected_member
            == before.selected_member,
        before.selected_member >= members@.len() && members@.len() > 0 ==> before.with_members(
            members,
        ).selected_member == members@.len() - 1,
        before.without_members(after) ==> after.members@.len() == 0 && after.messages
            == before.messages && after.selected_member == 0,
        before.without_history(after) ==> after.messages@.len() == 0 && after.members
            == before.members && !after.has_more_history && after.selected_message == 0,
{
}

/// What is read is put where it was asked for: teams, members, and histories each change their own
/// part of the room.
pub proof fn replies_reach_the_room(before: App, task: Task, reply: Reply, after: App)
    requires
        before.room_task_applied(task, reply, after),
    ensures
        task is RefreshTeams && reply is TeamSummaries ==> before.room.teams_post(
            reply->TeamSummaries_0,
            after.room,
        ),
        (task is ReloadTeam || task is RefreshMembers) && reply is Members ==> after.room.members
            == reply->Members_0 && after.room.messages == before.room.messages,
        (task is ReloadTeam || task is RefreshMembers) && reply is Nothing
            ==> after.room.members@.len() == 0,
        task is ReloadHistory && reply is History ==> after.room.messages
            == reply->History_0.messages && after.room.has_more_history
            == reply->History_0.has_more && after.room.members == before.room.members,
        task is ReloadHistory && reply is Nothing ==> after.room.messages@.len() == 0,
        (task is OlderHistory || task is MatchHistory) && reply is History
            ==> before.room.older_post(reply->History_0, after.room),
        task is HalfPageHistory && reply is History ==> before.room.older_kept_post(
            reply->History_0,
            task->selected_id,
            after.room,
        ),
        after.writing == before.writing,
        after.agents == before.agents,
        after.audit == before.audit,
{
}

/// A step of a plan is done once its answer is in, and the next ones follow in their order; older
/// messages are read on until there are none, and a match that was found is read up to.
pub proof fn plans_go_on_step_by_step(tasks: Seq<Task>, reply: Reply)
    requires
        tasks.len() > 0,
    ensures
        (tasks[0] is HalfPageHistory || tasks[0] is MatchHistory) && (reply matches Reply::History(
            page,
        ) && page.messages@.len() > 0) ==> App::tasks_left(tasks, reply) == tasks,
        tasks[0] is FindMatch && reply is SearchMatch && reply->SearchMatch_0 is Some
            ==> App::tasks_left(tasks, reply)[0] == (Task::MatchHistory {
            target_id: reply->SearchMatch_0->Some_0,
        }) && App::tasks_left(tasks, reply).skip(1) == tasks.skip(1),
        !(tasks[0] is HalfPageHistory || tasks[0] is MatchHistory || tasks[0] is FindMatch)
            ==> App::tasks_left(tasks, reply) == tasks.skip(1),
        tasks[0] is FindMatch && reply == Reply::SearchMatch(None) ==> App::tasks_left(tasks, reply)
            == tasks.skip(1),
{
    if tasks[0] is FindMatch && reply is SearchMatch && reply->SearchMatch_0 is Some {
        assert(App::tasks_left(tasks, reply).skip(1) =~= tasks.skip(1));
    }
}

/// What cannot be read ends the program, or is told, as the plan says; the plan is given up.
pub proof fn failed_reads_are_answered(
    before: App,
    error: String,
    clock: Clock,
    after: App,
    action: AppAction,
)
    requires
        before.load_failed(error, clock, after, action),
    ensures
        before.plan.on_error is Raise ==> action == AppAction::Fail(error) && after.plan.is_idle()
            && after.status == before.status,
        before.plan.on_error is Show ==> action is Nothing && after.status.is_error
            && after.status.text@ == error@ && after.plan.is_idle(),
        before.plan.on_error is ShowAfter ==> action is Nothing && after.status.is_error
            && after.status.text@ == before.plan.on_error->first@ + "; reload failed: "@ + error@
            && after.plan.is_idle(),
        before.plan.on_error is ShowAudit ==> action is Nothing && !after.audit.loading
            && after.status.is_error && after.status.text@ == error@ && after.plan.is_idle(),
        before.plan.on_error is RetryAgent ==> after.plan.on_error == (OnError::ShowAfter {
            first: error,
        }) && action == AppAction::Load(Query::TeamSummaries),
        after.writing == before.writing,
{
    if before.plan.on_error is RetryAgent {
        assert(App::agent_reload()[0] is RefreshTeams);
    }
}

/// Without anything to do an answer does nothing; an answer that does not fit ends the plan.
pub proof fn answers_need_a_question(
    before: App,
    reply: Reply,
    clock: Clock,
    after: App,
    action: AppAction,
)
    requires
        before.supplied(reply, clock, after, action),
    ensures
        before.plan.tasks@.len() == 0 ==> after == before && action is Nothing,
        before.plan.tasks@.len() > 0 && !App::fits(before.plan.tasks@[0], reply) && !(
        reply is Failed) ==> after.plan.is_idle() && action is Nothing && after.room == before.room,
        before.plan.tasks@.len() > 0 && App::fits(before.plan.tasks@[0], reply) && App::is_errand(
            before.plan.tasks@[0],
        ) ==> after.plan.is_idle() && action == App::errand(before.plan.tasks@[0], reply),
{
}

/// A cursor behind the text of a draft is put at its end; every other draft stays as it is, and none
/// loses anything else.
pub proof fn mended_drafts_keep_their_text(message: ComposerView)
    ensures
        drafts::with_cursor_inside(message).cursor <= message.body.len() || message.cursor
            <= message.body.len(),
        message.cursor <= message.body.len() ==> drafts::with_cursor_inside(message) == message,
        message.cursor > message.body.len() ==> drafts::with_cursor_inside(message).cursor
            == message.body.len(),
        drafts::with_cursor_inside(message).body == message.body,
        drafts::with_cursor_inside(message).roster == message.roster,
        drafts::with_cursor_inside(message).from_index == message.from_index,
        drafts::with_cursor_inside(message).to_index == message.to_index,
{
}

/// All that is unread is what is unread in the teams, added up.
pub proof fn unread_adds_up(teams: Seq<TeamSummary>, last: TeamSummary)
    ensures
        room::unread_sum(Seq::empty()) == 0,
        room::unread_sum(teams.push(last)) == room::unread_sum(teams) + last.unread_count,
        room::names_of(teams.push(last)) == room::names_of(teams).push(last.name@),
{
    assert(teams.push(last).drop_last() =~= teams);
    assert(room::names_of(teams.push(last)) =~= room::names_of(teams).push(last.name@));
}

/// The family that a type belongs to is what stands before its ending.
pub proof fn families_stand_before_the_ending(family: Seq<char>, agent_type: Seq<char>)
    requires
        family.len() > 0,
    ensures
        agents::family_of(agents::lead_type(family)) == Some(family),
        agents::family_of(agent_type) matches Some(found) ==> found.len() > 0 && agent_type == found
            + "-code"@,
        agents::lead_helper(family) == family + "-sub"@,
{
    crate::laws::texts::suffixes_are_cut_off(agent_type, "-code"@, family);
}

/// A time limit is told in whole seconds, or in milliseconds if it is no whole number of seconds.
pub proof fn time_limits_are_told(seconds: u64, millis: u64)
    requires
        seconds <= 1_000_000,
        millis <= 1_000_000,
        millis % 1000 != 0,
    ensures
        exec::timeout_text((seconds * 1_000_000_000) as u64) == strings::decimal(seconds as nat)
            + "s"@,
        exec::timeout_text((millis * 1_000_000) as u64) == strings::decimal(millis as nat) + "ms"@,
{
}

/// The name of a file is what stands behind the last slash of its path.
pub proof fn file_names_stand_behind_the_slash(directory: Seq<char>, name: Seq<char>)
    requires
        !name.contains('/'),
    ensures
        exec::file_name_of(name) == name,
        exec::file_name_of(directory.push('/') + name) == name,
    decreases name.len(),
{
    let path = directory.push('/') + name;
    if name.len() == 0 {
        assert(path =~= directory.push('/'));
        assert(exec::file_name_of(path) =~= name);
        assert(exec::file_name_of(name) =~= name);
    } else {
        let shorter = name.drop_last();
        assert(name[name.len() - 1] != '/');
        assert(!shorter.contains('/')) by {
            if shorter.contains('/') {
                let i = choose|i: int| 0 <= i < shorter.len() && shorter[i] == '/';
                assert(name[i] == '/');
            }
        }
        file_names_stand_behind_the_slash(directory, shorter);
        assert(path.drop_last() =~= directory.push('/') + shorter);
        assert(path.last() == name.last());
        assert(shorter.push(name.last()) =~= name);
    }
}

/// A file lies in its directory, with one slash between them; an absolute one lies where it says.
pub proof fn files_lie_in_their_directory(directory: Seq<char>, file: Seq<char>)
    requires
        directory.len() > 0,
        file.len() > 0,
    ensures
        file[0] == '/' ==> exec::path_in(directory, file) == file,
        file[0] != '/' && directory.last() != '/' ==> exec::path_in(directory, file) == directory
            + seq!['/'] + file,
        file[0] != '/' && directory.last() == '/' ==> exec::path_in(directory, file) == directory
            + file,
{
    assert(directory.push('/') + file =~= directory + seq!['/'] + file);
}

/// A time of day is shown with the hours first, then the minutes, then the seconds.
pub proof fn times_of_day_are_hours_minutes_seconds(
    time: Timestamp,
    day: int,
    hour: int,
    minute: int,
    second: int,
)
    requires
        0 <= hour < 24,
        0 <= minute < 60,
        0 <= second < 60,
        time.secs == day * 86_400 + hour * 3_600 + minute * 60 + second,
        time.nanos < 1_000_000_000,
    ensures
        clock::time_of_day(time) == strings::two_digits(hour as nat) + ":"@ + strings::two_digits(
            minute as nat,
        ) + ":"@ + strings::two_digits(second as nat),
{
    let rest = hour * 3_600 + minute * 60 + second;
    vstd::arithmetic::div_mod::lemma_fundamental_div_mod_converse(
        time.secs as int,
        86_400,
        day,
        rest,
    );
    assert(rest / 3_600 == hour);
    assert(rest / 60 == hour * 60 + minute);
    assert((hour * 60 + minute) % 60 == minute);
    assert(rest % 60 == second);
}

/// Marking a team read runs one script for each recipient, in their order, for the recipient whose
/// turn it is; after the last one everything that was written comes together as a success.
pub proof fn recipients_take_turns(run: TeamReadRun, scripts: ScriptRunner, step: TeamReadStep)
    requires
        run.is_step(scripts, step),
    ensures
        step is Call <==> run.next < run.recipients@.len(),
        step matches TeamReadStep::Call(call) ==> {
            &&& call.name@ == "inbox.sh"@
            &&& call.args@.len() == 3
            &&& call.args@[0]@ == run.team@
            &&& call.args@[1]@ == run.recipients@[run.next as int]@
            &&& call.args@[2]@ == "--quiet"@
            &&& call.timeout == scripts.timeout
        },
        step matches TeamReadStep::Done(result) ==> result.success && result.stdout@ == run.stdout@
            && result.stderr@ == run.stderr@,
{
    if let TeamReadStep::Call(call) = step {
        let words = crate::search::texts(call.args@);
        assert(words.len() == call.args@.len());
        assert(words[0] == call.args@[0]@);
        assert(words[1] == call.args@[1]@);
        assert(words[2] == call.args@[2]@);
    }
}

/// After a script the turn goes to the next recipient, and what the script wrote is kept behind what
/// the ones before it wrote; the first failure ends the run, with all of it.
pub proof fn turns_go_on_until_one_fails(
    before: TeamReadRun,
    result: CommandResult,
    after: TeamReadRun,
    failed: Option<CommandResult>,
)
    requires
        before.advance_post(result, after, failed),
    ensures
        failed is Some <==> !result.success,
        after.next == before.next + 1,
        after.team == before.team,
        after.recipients == before.recipients,
        after.stdout@.take(before.stdout@.len() as int) == before.stdout@,
        after.stdout@.skip(before.stdout@.len() as int) == result.stdout@,
        after.stderr@.take(before.stderr@.len() as int) == before.stderr@,
        after.stderr@.skip(before.stderr@.len() as int) == result.stderr@,
        failed matches Some(outcome) ==> !outcome.success && outcome.exit_code == result.exit_code
            && outcome.stdout@ == after.stdout@ && outcome.stderr@ == after.stderr@,
{
    assert(after.stdout@.take(before.stdout@.len() as int) =~= before.stdout@);
    assert(after.stdout@.skip(before.stdout@.len() as int) =~= result.stdout@);
    assert(after.stderr@.take(before.stderr@.len() as int) =~= before.stderr@);
    assert(after.stderr@.skip(before.stderr@.len() as int) =~= result.stderr@);
}

/// How messages are delivered is asked for the type and the project, in this order; which processes
/// run is asked for exactly the processes that are named, each with its number.
pub proof fn health_is_asked_for(
    scripts: ScriptRunner,
    agent_type: Seq<char>,
    project: Seq<char>,
    pids: Seq<u32>,
    call: exec::ScriptCall,
)
    ensures
        exec::status_call(scripts, agent_type, project, call) ==> call.name@ == "delivery.sh"@
            && call.args@.len() == 3 && call.args@[0]@ == "status"@ && call.args@[1]@ == agent_type
            && call.args@[2]@ == project && call.timeout == scripts.timeout,
        exec::process_call(scripts, pids, call) ==> call.path@ == "/bin/ps"@ && call.args@.len() == 4
            && call.args@[0]@ == "-p"@ && call.args@[2]@ == "-o"@ && call.args@[3]@ == "pid="@
            && call.args@[1]@ == crate::search::joined(
            Seq::new(pids.len(), |i: int| strings::decimal(pids[i] as nat)),
            ","@,
        ),
{
    let words = crate::search::texts(call.args@);
    assert(words.len() == call.args@.len());
    assert forall|i: int| 0 <= i < words.len() implies #[trigger] words[i] == call.args@[i]@ by {
    }
    assert(exec::pid_texts(pids) =~= Seq::new(
        pids.len(),
        |i: int| strings::decimal(pids[i] as nat),
    ));
}

} // verus!
