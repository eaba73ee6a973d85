//! Requests: what is asked for, about whom, and what becomes of the answer.

use crate::agents::{AgentModal, AgentOperation};
use crate::app::display;
use crate::app::display::MouseTarget;
use crate::app::model::{
    App, AppAction, Background, Display, Finish, Focus, InFlightOperation, Query, Reply, Screen, Task,
};
use crate::app::supply;
use crate::clock::Clock;
use crate::db::{AgentRegistration, MemberSummary};
use crate::exec::CommandResult;
use crate::input::{KeyCode, KeyEvent, MouseEventKind};
use crate::search;
use crate::strings;
use vstd::prelude::*;

verus! {

/// What is read for the room is read for the team that is shown; older messages are those before the
/// oldest one that is there, and a search is for the words and the member that are being looked for.
pub proof fn the_shown_team_is_read(app: App, task: Task, team: String)
    requires
        app.room.active_team == Some(team),
    ensures
        task is ReloadTeam || task is RefreshMembers ==> app.query_of(task) == (Query::Members { team }),
        task is ReloadHistory ==> app.query_of(task) == (Query::History { team, before_id: None }),
        (task is OlderHistory || task is HalfPageHistory || task is MatchHistory)
            && app.room.messages@.len() > 0 ==> app.query_of(task) == (Query::History {
            team,
            before_id: Some(app.room.messages@[0].id),
        }),
        task is FindMatch && app.room.search_query is Some ==> app.query_of(task) == (
        Query::SearchMatch {
            team,
            query: app.room.search_query->Some_0,
            member: app.room.member_filter,
        }),
        task is OpenComposer || task is OpenMemberComposer ==> app.query_of(task) == (
        Query::Roster { team }),
        task is AuditAnalytics ==> app.query_of(task) == (Query::AuditAnalytics {
            days: app.audit.pair_window_days,
        }),
        task is PairWindow ==> app.query_of(task) == (Query::PairMatrices {
            days: app.audit.pair_window_days,
        }),
{
}

/// What is read about somebody is read about the one that was asked for, in their team.
pub proof fn the_right_one_is_asked_about(app: App, team: String, agent: String, member: MemberSummary)
    ensures
        app.query_of(Task::CountRecipient { team, recipient: agent }) == (Query::UnreadCount {
            team,
            recipient: agent,
        }),
        app.query_of(Task::MemberInfo { team, member }) == (Query::MemberInfo {
            team,
            agent: member.name,
        }),
        app.query_of(Task::IdentityInfo { team, agent }) == (Query::Lock { team, agent }),
        app.query_of(Task::ResetCommand { team, agent }) == (Query::Registration { team, agent }),
        app.query_of(Task::RestoreDraft { team }) == (Query::Roster { team }),
{
}

/// Only an unread message is marked read, and only while nothing runs; how many wait is asked for
/// its own recipient in its own team, and then exactly that recipient is marked.
pub proof fn marking_a_message_marks_its_recipient(
    before: App,
    clock: Clock,
    asking: App,
    action: AppAction,
    unread: usize,
)
    requires
        before.mark_selected_post(clock, asking, action),
    ensures
        action is Load <==> before.background.in_flight is None && before.room.current_message() is Some
            && before.room.current_message()->Some_0.read_at is None,
        action is Load ==> {
            let message = before.room.current_message()->Some_0;
            &&& action == AppAction::Load(
                Query::UnreadCount { team: message.team, recipient: message.to_agent },
            )
            &&& asking.plan.tasks@.len() == 1
            &&& App::is_errand(asking.plan.tasks@[0])
            &&& App::errand(asking.plan.tasks@[0], Reply::UnreadCount(unread)) == (
            AppAction::MarkRecipient {
                team: message.team,
                recipient: message.to_agent,
                unread_count: unread,
            })
        },
        !(action is Load) ==> action is Nothing,
        asking.room == before.room,
        asking.writing == before.writing,
{
    if let Some(message) = before.room.current_message() {
        let tasks = seq![
            Task::CountRecipient { team: message.team, recipient: message.to_agent },
        ];
        assert(tasks[0] is CountRecipient);
    }
}

/// A member is marked read under their own name, with their own count, in the team that is shown; one
/// without unread messages is not.
pub proof fn marking_a_member_marks_the_one_under_the_cursor(before: App, after: App, action: AppAction)
    requires
        before.mark_member_post(after, action),
    ensures
        action is MarkRecipient <==> before.background.in_flight is None
            && before.room.active_team is Some && before.room.selected_member
            < before.room.members@.len()
            && before.room.members@[before.room.selected_member as int].unread_count > 0,
        action matches AppAction::MarkRecipient { team, recipient, unread_count } ==> {
            let member = before.room.members@[before.room.selected_member as int];
            &&& team == before.room.active_team->Some_0
            &&& recipient == member.name
            &&& unread_count == member.unread_count
            &&& after == before
        },
        !(action is MarkRecipient) ==> action is Nothing,
        after.room == before.room,
{
}

/// Marking a team asks for the recipients of the team that is shown, and marks those that the answer
/// names.
pub proof fn marking_a_team_marks_its_recipients(
    before: App,
    clock: Clock,
    asking: App,
    action: AppAction,
    recipients: Vec<String>,
)
    requires
        before.mark_team_post(clock, asking, action),
    ensures
        action is Load <==> before.background.in_flight is None && before.room.active_team is Some,
        action is Load ==> {
            let team = before.room.active_team->Some_0;
            &&& action == AppAction::Load(Query::UnreadRecipients { team })
            &&& App::errand(asking.plan.tasks@[0], Reply::UnreadRecipients(recipients)) matches
                AppAction::MarkTeam { team: marked, recipients: names, unread_count } && marked == team
                && names == recipients && (before.room.selected_team < before.room.teams@.len()
                ==> unread_count
                == before.room.teams@[before.room.selected_team as int].unread_count)
        },
        !(action is Load) ==> action is Nothing,
{
    if let Some(team) = before.room.active_team {
        let tasks = seq![Task::ListRecipients { team, unread_count: before.cursor_unread() }];
        assert(tasks[0] is ListRecipients);
    }
}

/// Joining here joins with the team, the name and the type that were chosen, in the directory that
/// was answered.
pub proof fn joining_uses_the_current_directory(
    team: String,
    agent: String,
    agent_type: String,
    project: String,
)
    ensures
        App::errand(Task::JoinHere { team, agent, agent_type }, Reply::CurrentDir(project))
            == AppAction::ManageAgent(AgentOperation::Join { team, agent, agent_type, project }),
        App::is_errand(Task::JoinHere { team, agent, agent_type }),
{
}

/// What is told of a member is their name, type and project, when they were last seen, and how many
/// messages they sent, received, and have not read, each under its own word.
pub proof fn members_are_told_as_they_are(
    member: MemberSummary,
    registration: AgentRegistration,
    sent: nat,
    received: nat,
)
    ensures
        member.last_message_at matches Some(seen) ==> supply::member_text(
            member,
            Some(registration),
            sent,
            received,
        ) == "Agent: "@ + member.name@ + "\nCli-type: "@ + registration.agent_type@
            + "\nProject: "@ + registration.project@ + "\nLast seen: "@ + seen@ + "\nSent (30d): "@
            + strings::decimal(sent) + "\nReceived (30d): "@ + strings::decimal(received)
            + "\nUnread (all-time): "@ + strings::decimal(member.unread_count as nat),
        member.last_message_at is None ==> supply::member_text(member, None, sent, received)
            == "Agent: "@ + member.name@ + "\nCli-type: "@ + "-"@ + "\nProject: "@ + "-"@
            + "\nLast seen: "@ + "-"@ + "\nSent (30d): "@ + strings::decimal(sent)
            + "\nReceived (30d): "@ + strings::decimal(received) + "\nUnread (all-time): "@
            + strings::decimal(member.unread_count as nat),
{
}

/// The composer opens for the member under the cursor as the recipient, and with the own identity as
/// the sender, if both are in the roster; a team without anybody opens nothing.
pub proof fn composer_opens_for_the_member_under_the_cursor(
    before: App,
    task: Task,
    roster: Vec<String>,
    clock: Clock,
    after: App,
    member: int,
    own: int,
)
    requires
        before.screen_task_applied(task, Reply::Roster(roster), clock, after),
        task is OpenComposer || (task is OpenMemberComposer && Some(task->name)
            == before.member_name()),
        before.room.selected_member < before.room.members@.len(),
        0 <= member < roster@.len(),
        roster@[member]@ == before.room.members@[before.room.selected_member as int].name@,
        0 <= own < roster@.len(),
        before.current_identity is Some,
        roster@[own]@ == before.current_identity->Some_0@,
    ensures
        after.display.screen == Screen::Composer,
        after.status == before.status,
        after.room == before.room,
        after.writing.composer is Some,
        after.writing.composer->Some_0.body@.len() == 0,
        roster@[after.writing.composer->Some_0.to_index as int]@
            == before.room.members@[before.room.selected_member as int].name@,
        roster@[after.writing.composer->Some_0.from_index as int]@
            == before.current_identity->Some_0@,
{
    assert(search::lists(
        roster@,
        before.room.members@[before.room.selected_member as int].name@,
    ));
    assert(search::lists(roster@, before.current_identity->Some_0@));
}

/// Without an own identity the first of the roster is the sender, which is said.
pub proof fn strangers_send_as_the_first(
    before: App,
    roster: Vec<String>,
    clock: Clock,
    after: App,
)
    requires
        before.screen_task_applied(Task::OpenComposer, Reply::Roster(roster), clock, after),
        before.current_identity is None,
        roster@.len() > 0,
    ensures
        after.writing.composer is Some,
        after.writing.composer->Some_0.from_index == 0,
        !after.status.is_error,
        after.status.text@ == "sending as "@ + roster@[0]@
            + " (AGMSG_IDENTITY not set or not in roster)"@,
{
}

/// What the composer sends is sent as it stands there; while a message is being sent no key counts.
pub proof fn composer_sends_what_it_shows(before: App, key: KeyEvent, after: App, action: AppAction)
    requires
        before.composer_key_post(key, after, action),
    ensures
        before.background.in_flight == Some(InFlightOperation::Send) ==> after == before
            && action is Nothing,
        action matches AppAction::Send(sent) ==> {
            &&& before.writing.composer is Some
            &&& before.room.active_team is Some
            &&& before.background.in_flight is None
            &&& sent.team@ == before.room.active_team->Some_0@
            &&& sent.body@ == before.writing.composer->Some_0.body@
            &&& after.writing == before.writing
        },
        action matches AppAction::Send(sent) && before.writing.composer->Some_0.from_index
            < before.writing.composer->Some_0.roster@.len() ==> action->Send_0.from@
            == before.writing.composer->Some_0.roster@[before.writing.composer->Some_0.from_index as int]@,
        action matches AppAction::Send(sent) && before.writing.composer->Some_0.to_index
            < before.writing.composer->Some_0.roster@.len() ==> action->Send_0.to@
            == before.writing.composer->Some_0.roster@[before.writing.composer->Some_0.to_index as int]@,
{
}

/// A refused join of a renamed agent is offered again with force, for the same agent; another failure
/// leaves the dialogs alone. Renaming oneself asks for a restart under the new name, and only that.
pub proof fn finished_operations_are_answered(
    before: App,
    operation: AgentOperation,
    result: CommandResult,
    after: App,
)
    requires
        before.agent_done_post(operation, result, after),
    ensures
        after.status.is_error <==> !result.success,
        !result.success && result.stderr@.len() > 0 ==> after.status.text@ == result.stderr@,
        !result.success ==> after.agents.restart_needed == before.agents.restart_needed,
        !result.success && (operation matches AgentOperation::Join { team, agent, agent_type, project }
            && search::contains_text(result.stderr@, "was renamed to"@)) ==> after.agents.modal
            == Some(
            AgentModal::JoinForce {
                team: operation->Join_team,
                agent: operation->Join_agent,
                agent_type: operation->Join_agent_type,
                project: operation->Join_project,
            },
        ),
        result.success || !(operation is Join) ==> after.agents.modal == before.agents.modal,
        result.success && (operation matches AgentOperation::Rename { self_rename, .. }
            && self_rename) ==> after.agents.restart_needed == Some(operation->Rename_new),
        !(operation matches AgentOperation::Rename { self_rename, .. } && self_rename)
            ==> after.agents.restart_needed == before.agents.restart_needed,
        after.room == before.room,
        after.writing == before.writing,
        after.bulk == before.bulk,
{
    if !result.success && operation is Join && search::contains_text(
        result.stderr@,
        "was renamed to"@,
    ) {
        reveal_strlit("was renamed to");
        assert(result.stderr@.len() > 0);
    }
}

/// The message that is being written is saved as the draft of its team, beside the drafts of the
/// others; so are the team that is shown, the width of the sidebar and the switches.
pub proof fn unsent_messages_are_saved(app: App, team: Seq<char>)
    ensures
        app.room.active_team matches Some(active) && active@ == team && app.writing.composer is Some
            ==> app.saved_view().drafts.dom().contains(team) && app.saved_view().drafts[team]
            == app.writing.composer->Some_0@,
        !(app.room.active_team matches Some(active) && active@ == team) ==> (
        app.saved_view().drafts.dom().contains(team) <==> crate::app::drafts::has_draft(
            app.writing.drafts@,
            team,
        )) && (crate::app::drafts::has_draft(app.writing.drafts@, team)
            ==> app.saved_view().drafts[team] == crate::app::drafts::draft_map(
            app.writing.drafts@,
        )[team]),
        app.saved_view().last_team == match app.room.active_team {
            Some(active) => Some(active@),
            None => None,
        },
        app.saved_view().sidebar_pct == app.display.sidebar_pct,
        app.saved_view().notify_settings == app.notices.settings,
        app.saved_view().schema_version == 1,
{
    crate::app::drafts::draft_map_domain(app.writing.drafts@, team);
}

/// What has changed is saved three seconds later, and nothing is saved that has not changed.
pub proof fn changes_are_saved_in_time(background: Background, now: u64)
    ensures
        background.state_dirty_since is None ==> !background.save_due(now),
        background.state_dirty_since is Some && background.state_dirty_since->Some_0 <= now ==> (
        background.save_due(now) <==> now - background.state_dirty_since->Some_0
            >= 3_000_000_000),
{
}

/// The spinner goes through its four frames and begins anew, and stands still when nothing runs.
pub proof fn spinner_goes_round(before: App, after: App, advanced: bool)
    requires
        before.wf(),
        before.spinner_post(after, advanced),
    ensures
        advanced <==> before.background.in_flight is Some,
        !advanced ==> after == before,
        advanced && before.background.spinner_frame < 3 ==> after.background.spinner_frame
            == before.background.spinner_frame + 1,
        advanced && before.background.spinner_frame == 3 ==> after.background.spinner_frame == 0,
        after.background.in_flight == before.background.in_flight,
        after.room == before.room,
{
}

/// A click puts the focus where it was made, and only there; the sidebar is held from a click on its
/// edge until the button is let go, and follows the mouse meanwhile.
pub proof fn mouse_moves_focus_and_sidebar(
    before: Display,
    focus: Focus,
    kind: MouseEventKind,
    hit: MouseTarget,
    dragged_pct: u16,
)
    ensures
        kind == MouseEventKind::LeftDown && hit == MouseTarget::Teams ==> display::clicked_focus(
            focus,
            kind,
            hit,
        ) == Focus::Teams,
        kind == MouseEventKind::LeftDown && hit == MouseTarget::Members ==> display::clicked_focus(
            focus,
            kind,
            hit,
        ) == Focus::Members,
        kind == MouseEventKind::LeftDown && hit == MouseTarget::Room ==> display::clicked_focus(
            focus,
            kind,
            hit,
        ) == Focus::Room,
        kind != MouseEventKind::LeftDown || hit == MouseTarget::ResizeHandle || hit
            == MouseTarget::Nowhere ==> display::clicked_focus(focus, kind, hit) == focus,
        kind == MouseEventKind::LeftDown && hit == MouseTarget::ResizeHandle
            ==> before.after_mouse(kind, hit, dragged_pct).resize_dragging,
        kind == MouseEventKind::LeftUp ==> !before.after_mouse(
            kind,
            hit,
            dragged_pct,
        ).resize_dragging,
        kind == MouseEventKind::LeftDrag && before.resize_dragging ==> before.after_mouse(
            kind,
            hit,
            dragged_pct,
        ).sidebar_pct == dragged_pct,
        before.after_mouse(kind, hit, dragged_pct).screen == before.screen,
        kind == MouseEventKind::Unbound ==> before.after_mouse(kind, hit, dragged_pct) == before,
{
}

/// The help is scrolled by one line or by ten, down and up again, and not above its beginning;
/// leaving it begins at the top again.
pub proof fn help_is_scrolled(before: Display, key: KeyEvent)
    ensures
        ({
            let after = before.after_help_key(key);
            let down = key.code == KeyCode::Down || key.code == KeyCode::Char('j');
            let up = key.code == KeyCode::Up || key.code == KeyCode::Char('k');
            &&& down && before.help_scroll < u16::MAX ==> after.help_scroll == before.help_scroll + 1
            &&& up && before.help_scroll > 0 ==> after.help_scroll == before.help_scroll - 1
            &&& up && before.help_scroll == 0 ==> after.help_scroll == 0
            &&& key.code == KeyCode::PageDown && before.help_scroll <= u16::MAX - 10
                ==> after.help_scroll == before.help_scroll + 10
            &&& key.code == KeyCode::PageUp && before.help_scroll >= 10 ==> after.help_scroll
                == before.help_scroll - 10
            &&& key.code == KeyCode::PageUp && before.help_scroll < 10 ==> after.help_scroll == 0
            &&& key.code == KeyCode::Esc ==> after.screen == before.help_return_screen
                && after.help_scroll == 0
            &&& down || up || key.code == KeyCode::PageDown || key.code == KeyCode::PageUp
                ==> after.screen == before.screen
            &&& after.sidebar_pct == before.sidebar_pct
        }),
{
}

/// When messages have arrived, their number is told; if none concerns the team, nobody is notified.
pub proof fn arrivals_are_told(
    before: App,
    count: usize,
    relevant: usize,
    latest: Option<crate::db::Message>,
    clock: Clock,
    after: App,
    action: AppAction,
)
    requires
        before.finished(Finish::Arrivals { count, relevant, latest }, clock, after, action),
    ensures
        action is Nothing,
        !after.status.is_error,
        after.status.text@ == strings::decimal(count as nat) + " new message(s)"@,
        relevant == 0 ==> after.notices == before.notices,
        after.room == before.room,
{
}

/// Information is asked for about the member under the cursor, in the team that is shown, and about
/// nobody if there is none.
pub proof fn information_is_about_the_member_under_the_cursor(
    before: App,
    clock: Clock,
    after: App,
    action: AppAction,
)
    requires
        before.member_info_post(clock, after, action),
    ensures
        action is Load <==> before.room.active_team is Some && before.room.selected_member
            < before.room.members@.len(),
        action is Load ==> action == AppAction::Load(
            Query::MemberInfo {
                team: before.room.active_team->Some_0,
                agent: before.room.members@[before.room.selected_member as int].name,
            },
        ),
        !(action is Load) ==> after == before && action is Nothing,
{
    if before.room.active_team is Some && before.room.selected_member < before.room.members@.len() {
        let tasks = seq![
            Task::MemberInfo {
                team: before.room.active_team->Some_0,
                member: before.room.members@[before.room.selected_member as int],
            },
        ];
        assert(tasks[0] is MemberInfo);
    }
}

/// The member under the cursor is the one that the cursor stands on; there is none behind the last.
pub proof fn the_member_under_the_cursor(app: App)
    ensures
        app.member_name() is Some <==> app.room.selected_member < app.room.members@.len(),
        app.member_name() is Some ==> app.member_name()->Some_0
            == app.room.members@[app.room.selected_member as int].name,
{
}

/// The message that was not addressed to anybody yet goes to the second of the roster, and to the
/// first if there is no other.
pub proof fn second_in_the_roster_is_the_recipient(count: int)
    requires
        count > 0,
    ensures
        0 <= crate::app::writing::second_place(count) < count,
        count >= 2 ==> crate::app::writing::second_place(count) == 1,
        count == 1 ==> crate::app::writing::second_place(count) == 0,
{
}

/// A message is seen as it is: sender, recipient, body and cursor each in its place.
pub proof fn messages_are_seen_as_they_are(message: crate::app::composer::ComposerState)
    ensures
        message@.from_index == message.from_index,
        message@.to_index == message.to_index,
        message@.body == message.body@,
        message@.cursor == message.cursor,
        message@.roster.len() == message.roster@.len(),
        forall|i: int|
            0 <= i < message.roster@.len() ==> #[trigger] message@.roster[i] == message.roster@[i]@,
{
}

/// A draft is taken up again where one is kept; a new message is begun where none is, for the member
/// under the cursor or for the team.
pub proof fn drafts_go_before_new_messages(
    before: App,
    for_member: bool,
    clock: Clock,
    after: App,
    action: AppAction,
    team: String,
)
    requires
        before.open_composer_post(for_member, clock, after, action),
        before.room.active_team == Some(team),
    ensures
        crate::app::drafts::has_draft(before.writing.drafts@, team@) ==> after.plan.tasks@ == seq![
            Task::RestoreDraft { team },
        ] && action == AppAction::Load(Query::Roster { team }),
        !crate::app::drafts::has_draft(before.writing.drafts@, team@) && !for_member
            ==> after.plan.tasks@ == seq![Task::OpenComposer] && action == AppAction::Load(
            Query::Roster { team },
        ),
        !crate::app::drafts::has_draft(before.writing.drafts@, team@) && for_member
            && before.room.selected_member < before.room.members@.len() ==> after.plan.tasks@ == seq![
            Task::OpenMemberComposer {
                name: before.room.members@[before.room.selected_member as int].name,
            },
        ] && action == AppAction::Load(Query::Roster { team }),
{
    assert(seq![Task::RestoreDraft { team }][0] is RestoreDraft);
    assert(seq![Task::OpenComposer][0] is OpenComposer);
    if before.room.selected_member < before.room.members@.len() {
        assert(seq![
            Task::OpenMemberComposer {
                name: before.room.members@[before.room.selected_member as int].name,
            },
        ][0] is OpenMemberComposer);
    }
}

} // verus!
