//! Going on with a plan when something was read for it.

use crate::agents::AgentOperation;
use crate::app::agents_screen;
use crate::app::agents_screen::text_or_dash;
use crate::app::model::{
    App, AppAction, AuditScreen, Background, BulkCancel, BulkScreen, Finish, OnError, Plan,
    Reply, Screen, Task,
};
use crate::app::status;
use crate::app::status::{error_status, info_status, notice, validation_status, StatusLine};
use crate::app::writing;
use crate::bulk::filter;
use crate::bulk::BulkFilterState;
use crate::clock::Clock;
use crate::db::{AgentRegistration, MemberSummary, Message};
use crate::exec;
use crate::exec::reset_command_display;
use crate::strings;
use crate::strings::{concat3, decimal_usize};
use vstd::prelude::*;

verus! {

/// What is shown about a member.
pub open spec fn member_text(
    member: MemberSummary,
    registration: Option<AgentRegistration>,
    sent: nat,
    received: nat,
) -> Seq<char> {
    let agent_type = match registration {
        Some(registration) => registration.agent_type@,
        None => "-"@,
    };
    let project = match registration {
        Some(registration) => registration.project@,
        None => "-"@,
    };
    "Agent: "@ + member.name@ + "\nCli-type: "@ + agent_type + "\nProject: "@ + project
        + "\nLast seen: "@ + agents_screen::or_dash(member.last_message_at) + "\nSent (30d): "@
        + strings::decimal(sent) + "\nReceived (30d): "@ + strings::decimal(received)
        + "\nUnread (all-time): "@ + strings::decimal(member.unread_count as nat)
}

fn describe_member(
    member: &MemberSummary,
    registration: &Option<AgentRegistration>,
    sent: usize,
    received: usize,
) -> (text: String)
    ensures
        text@ == member_text(*member, *registration, sent as nat, received as nat),
{
    let (agent_type, project) = match registration {
        Some(registration) => (registration.agent_type.clone(), registration.project.clone()),
        None => ("-".to_owned(), "-".to_owned()),
    };
    let seen = text_or_dash(&member.last_message_at);
    let sent = decimal_usize(sent);
    let received = decimal_usize(received);
    let unread = decimal_usize(member.unread_count);
    let mut text = "Agent: ".to_owned();
    text.append(member.name.as_str());
    text.append("\nCli-type: ");
    text.append(agent_type.as_str());
    text.append("\nProject: ");
    text.append(project.as_str());
    text.append("\nLast seen: ");
    text.append(seen.as_str());
    text.append("\nSent (30d): ");
    text.append(sent.as_str());
    text.append("\nReceived (30d): ");
    text.append(received.as_str());
    text.append("\nUnread (all-time): ");
    text.append(unread.as_str());
    text
}

/// What the status line says about the sender when it is not the own identity.
pub open spec fn sending_as_text(name: Seq<char>) -> Seq<char> {
    "sending as "@ + name + " (AGMSG_IDENTITY not set or not in roster)"@
}

impl App {
    /// The name of the member under the cursor.
    pub open spec fn member_name(self) -> Option<String> {
        if self.room.selected_member < self.room.members@.len() {
            Some(self.room.members@[self.room.selected_member as int].name)
        } else {
            None
        }
    }

    /// The own identity is in the roster.
    pub open spec fn own_in(self, roster: Seq<String>) -> bool {
        self.current_identity matches Some(own) && crate::search::lists(roster, own@)
    }

    /// What a roster does to the composer that is being opened: with nobody in it there is none.
    pub open spec fn composer_opened(
        self,
        roster: Vec<String>,
        to: Option<String>,
        fallback: int,
        warns: bool,
        after: App,
    ) -> bool {
        if roster@.len() == 0 {
            self.objects(after, "selected team has no roster"@)
        } else {
            &&& after == (App {
                writing: after.writing,
                display: self.display.on(Screen::Composer),
                status: after.status,
                ..self
            })
            &&& self.writing.open_post(
                self.current_identity,
                to,
                fallback,
                roster,
                after.writing,
            )
            &&& if warns && !self.own_in(roster@) {
                after.status.is_info(sending_as_text(roster@[0]@))
            } else {
                after.status == self.status
            }
        }
    }

    fn open_composer_with(
        &mut self,
        roster: Vec<String>,
        to: &Option<String>,
        fallback: usize,
        warns: bool,
    )
        requires
            old(self).wf(),
        ensures
            old(self).composer_opened(roster, *to, fallback as int, warns, *final(self)),
            final(self).wf(),
            final(self).plan == old(self).plan,
    {
        if roster.len() == 0 {
            self.status = error_status("selected team has no roster");
            return;
        }
        if warns {
            let known = match &self.current_identity {
                Some(own) => crate::search::position_of(&roster, own.as_str()).is_some(),
                None => false,
            };
            if !known {
                self.status = notice(
                    concat3(
                        "sending as ",
                        roster[0].as_str(),
                        " (AGMSG_IDENTITY not set or not in roster)",
                    ),
                );
            }
        }
        self.writing.open(&self.current_identity, to, fallback, roster);
        self.display.screen = Screen::Composer;
    }

    /// What taking a draft up again does.
    pub open spec fn draft_restored(
        self,
        team: Seq<char>,
        roster: Option<Vec<String>>,
        after: App,
    ) -> bool {
        if crate::app::drafts::has_draft(self.writing.drafts@, team) {
            &&& after == (App {
                writing: after.writing,
                display: self.display.on(Screen::Composer),
                status: after.status,
                ..self
            })
            &&& self.writing.restore_post(team, roster, after.writing)
            &&& after.status.is_info("draft restored (Ctrl-K to clear)"@)
        } else {
            after == self
        }
    }

    fn restore_draft(&mut self, team: &str, roster: Option<Vec<String>>)
        requires
            old(self).wf(),
        ensures
            old(self).draft_restored(team@, roster, *final(self)),
            final(self).wf(),
            final(self).plan == old(self).plan,
    {
        if self.writing.restore_draft(team, roster) {
            self.display.screen = Screen::Composer;
            self.status = info_status("draft restored (Ctrl-K to clear)");
        }
    }

    /// What all messages do to the filter screen that is being opened.
    pub open spec fn filter_opened(self, messages: Vec<Message>, clock: Clock, after: App) -> bool {
        &&& after == (App {
            bulk: BulkScreen {
                filter: after.bulk.filter,
                modal: None,
                operation: None,
                cancel: BulkCancel::Absent,
            },
            display: self.display.on(Screen::BulkFilter),
            status: after.status,
            ..self
        })
        &&& after.bulk.filter matches Some(state) && state.all_messages == messages
            && state.agent@.len() == 0 && state.body@.len() == 0 && state.period
            == filter::FilterPeriod::SevenDays && state.focus == filter::BulkFilterFocus::Agent
            && state.results@ == state.matching(clock.utc) && state.selected == 0
        &&& after.status.is_info("bulk filter loaded"@)
    }

    /// What all messages do to the filter screen that is there.
    pub open spec fn filter_refreshed(
        self,
        messages: Vec<Message>,
        clock: Clock,
        after: App,
    ) -> bool {
        match self.bulk.filter {
            None => after == self,
            Some(before) => {
                &&& after == (App {
                    bulk: BulkScreen { filter: after.bulk.filter, ..self.bulk },
                    ..self
                })
                &&& after.bulk.filter matches Some(state) && state == (BulkFilterState {
                    all_messages: messages,
                    results: state.results,
                    selected: state.selected,
                    ..before
                }) && state.results@ == state.matching(clock.utc) && state.selected
                    == status::clamped_index(
                    before.selected as int,
                    state.results@.len() as int,
                )
            },
        }
    }

    fn open_filter(&mut self, messages: Vec<Message>, clock: Clock)
        requires
            old(self).wf(),
            clock.wf(),
        ensures
            old(self).filter_opened(messages, clock, *final(self)),
            final(self).wf(),
            final(self).plan == old(self).plan,
    {
        self.bulk.filter = Some(BulkFilterState::new(messages, clock.utc));
        self.bulk.modal = None;
        self.bulk.operation = None;
        self.bulk.cancel = BulkCancel::Absent;
        self.display.screen = Screen::BulkFilter;
        self.status = info_status("bulk filter loaded");
    }

    fn refresh_filter(&mut self, messages: Vec<Message>, clock: Clock)
        requires
            old(self).wf(),
            clock.wf(),
        ensures
            old(self).filter_refreshed(messages, clock, *final(self)),
            final(self).wf(),
            final(self).plan == old(self).plan,
    {
        match self.bulk.filter.take() {
            None => {},
            Some(state) => {
                let mut state = state;
                state.all_messages = messages;
                state.recompute(clock.utc);
                self.bulk.filter = Some(state);
            },
        }
    }

    /// What the registration of a zombie does: its reset command is shown.
    pub open spec fn reset_command_shown(
        self,
        registration: Option<AgentRegistration>,
        agent: Seq<char>,
        after: App,
    ) -> bool {
        self.says(
            after,
            match registration {
                Some(registration) => "AGMSG_RESOLVE_PROJECT=0 "@ + exec::shell_quoted(
                    exec::path_in(self.paths.scripts_dir@, "reset.sh"@),
                ) + " "@ + exec::shell_quoted(registration.project@) + " "@ + exec::shell_quoted(
                    registration.agent_type@,
                ) + " "@ + exec::shell_quoted(agent),
                None => "D is available for zombie identities"@,
            },
        )
    }

    fn show_reset_command(&mut self, registration: Option<AgentRegistration>, agent: &str)
        requires
            old(self).wf(),
        ensures
            old(self).reset_command_shown(registration, agent@, *final(self)),
            final(self).wf(),
            final(self).plan == old(self).plan,
    {
        self.status = match registration {
            Some(registration) => notice(
                reset_command_display(
                    self.paths.scripts_dir.as_str(),
                    registration.project.as_str(),
                    registration.agent_type.as_str(),
                    agent,
                ),
            ),
            None => info_status("D is available for zombie identities"),
        };
    }

    /// What was read fits the task.
    pub open spec fn fits(task: Task, reply: Reply) -> bool {
        match task {
            Task::RefreshTeams => reply is TeamSummaries,
            Task::ReloadTeam | Task::RefreshMembers => reply is Members || reply is Nothing,
            Task::ReloadHistory | Task::OlderHistory => reply is History || reply is Nothing,
            Task::HalfPageHistory { .. } | Task::MatchHistory { .. } => reply is History,
            Task::FindMatch => reply is SearchMatch,
            Task::ReloadAgents => reply is Agents,
            Task::AuditAnalytics => reply is AuditAnalytics,
            Task::AuditInsights => reply is AuditHistory,
            Task::PairWindow { .. } => reply is PairMatrices,
            Task::OpenBulkFilter | Task::RefreshBulkFilter => reply is AllMessages,
            Task::OpenComposer | Task::OpenMemberComposer { .. } => reply is Roster,
            Task::RestoreDraft { .. } => reply is Roster || reply is Failed,
            Task::CountRecipient { .. } => reply is UnreadCount,
            Task::ListRecipients { .. } => reply is UnreadRecipients,
            Task::MemberInfo { .. } => reply is MemberInfo,
            Task::IdentityInfo { .. } => reply is Lock,
            Task::ResetCommand { .. } => reply is Registration || reply is Failed,
            Task::JoinHere { .. } => reply is CurrentDir,
        }
    }

    /// What was read for the main screen is taken up.
    pub open spec fn room_task_applied(self, task: Task, reply: Reply, after: App) -> bool {
        &&& after == (App { room: after.room, ..self })
        &&& match (task, reply) {
            (Task::RefreshTeams, Reply::TeamSummaries(teams)) => self.room.teams_post(
                teams,
                after.room,
            ),
            (Task::ReloadTeam, Reply::Members(members)) => after.room == self.room.with_members(
                members,
            ),
            (Task::RefreshMembers, Reply::Members(members)) => after.room == self.room.with_members(
                members,
            ),
            (Task::ReloadTeam, Reply::Nothing) => self.room.without_members(after.room),
            (Task::RefreshMembers, Reply::Nothing) => self.room.without_members(after.room),
            (Task::ReloadHistory, Reply::History(page)) => after.room == self.room.with_history(
                page,
            ),
            (Task::ReloadHistory, Reply::Nothing) => self.room.without_history(after.room),
            (Task::OlderHistory, Reply::History(page)) => self.room.older_post(page, after.room),
            (Task::HalfPageHistory { selected_id }, Reply::History(page)) =>
                self.room.older_kept_post(page, selected_id, after.room),
            (Task::MatchHistory { .. }, Reply::History(page)) => self.room.older_post(
                page,
                after.room,
            ),
            _ => after == self,
        }
    }

    /// What was read for the other screens is taken up.
    pub open spec fn screen_task_applied(
        self,
        task: Task,
        reply: Reply,
        clock: Clock,
        after: App,
    ) -> bool {
        match (task, reply) {
            (Task::ReloadAgents, Reply::Agents(teams)) => {
                &&& after == (App { agents: after.agents, ..self })
                &&& self.agents.reload_post(teams, after.agents)
            },
            (Task::AuditAnalytics, Reply::AuditAnalytics { pairs, zombies, stale }) => after == (
            App { audit: self.audit.analysed(pairs, zombies, stale), ..self }),
            (Task::AuditInsights, Reply::AuditHistory(history)) => after == (App {
                audit: AuditScreen { history, ..self.audit },
                ..self
            }),
            (Task::PairWindow { selected_team }, Reply::PairMatrices(pairs)) => {
                &&& after == (App { audit: after.audit, status: after.status, ..self })
                &&& self.audit.pairs_post(
                    pairs,
                    selected_team,
                    after.audit,
                    Some(after.status),
                )
            },
            (Task::OpenBulkFilter, Reply::AllMessages(messages)) => self.filter_opened(
                messages,
                clock,
                after,
            ),
            (Task::RefreshBulkFilter, Reply::AllMessages(messages)) => self.filter_refreshed(
                messages,
                clock,
                after,
            ),
            (Task::OpenComposer, Reply::Roster(roster)) => self.composer_opened(
                roster,
                self.member_name(),
                writing::second_place(roster@.len() as int),
                true,
                after,
            ),
            (Task::OpenMemberComposer { name }, Reply::Roster(roster)) => self.composer_opened(
                roster,
                Some(name),
                0,
                false,
                after,
            ),
            (Task::RestoreDraft { team }, Reply::Roster(roster)) => self.draft_restored(
                team@,
                Some(roster),
                after,
            ),
            (Task::RestoreDraft { team }, _) => self.draft_restored(team@, None, after),
            (Task::MemberInfo { member, .. }, Reply::MemberInfo { registration, sent, received }) => {
                &&& after == (App { member_info: after.member_info, ..self })
                &&& after.member_info matches Some(text) && text@ == member_text(
                    member,
                    registration,
                    sent as nat,
                    received as nat,
                )
            },
            (Task::IdentityInfo { .. }, Reply::Lock(lock)) => {
                &&& after == (App { agents: after.agents, ..self })
                &&& self.agents.identity_info_post(lock, after.agents)
            },
            (Task::ResetCommand { agent, .. }, Reply::Registration(registration)) =>
                self.reset_command_shown(registration, agent@, after),
            (Task::ResetCommand { agent, .. }, _) => self.reset_command_shown(None, agent@, after),
            _ => after == self,
        }
    }

    /// The task is about the main screen.
    pub open spec fn is_room_task(task: Task) -> bool {
        match task {
            Task::RefreshTeams | Task::ReloadTeam | Task::RefreshMembers | Task::ReloadHistory
            | Task::OlderHistory | Task::FindMatch => true,
            Task::HalfPageHistory { .. } | Task::MatchHistory { .. } => true,
            _ => false,
        }
    }

    /// What was read for a task is taken up.
    pub open spec fn task_applied(self, task: Task, reply: Reply, clock: Clock, after: App) -> bool {
        if App::is_room_task(task) {
            self.room_task_applied(task, reply, after)
        } else {
            self.screen_task_applied(task, reply, clock, after)
        }
    }

    /// What is left to be done after a task: older pages are read until nothing more comes.
    pub open spec fn tasks_left(tasks: Seq<Task>, reply: Reply) -> Seq<Task> {
        match (tasks[0], reply) {
            (Task::HalfPageHistory { .. }, Reply::History(page)) => if page.messages@.len() > 0 {
                tasks
            } else {
                tasks.skip(1)
            },
            (Task::MatchHistory { .. }, Reply::History(page)) => if page.messages@.len() > 0 {
                tasks
            } else {
                tasks.skip(1)
            },
            (Task::FindMatch, Reply::SearchMatch(Some(target_id))) => tasks.update(
                0,
                Task::MatchHistory { target_id },
            ),
            _ => tasks.skip(1),
        }
    }

    /// The task ends its plan with something for the event loop to do.
    pub open spec fn is_errand(task: Task) -> bool {
        task is CountRecipient || task is ListRecipients || task is JoinHere
    }

    /// What the event loop is to do.
    pub open spec fn errand(task: Task, reply: Reply) -> AppAction {
        match (task, reply) {
            (Task::CountRecipient { team, recipient }, Reply::UnreadCount(unread_count)) =>
                AppAction::MarkRecipient { team, recipient, unread_count },
            (Task::ListRecipients { team, unread_count }, Reply::UnreadRecipients(recipients)) =>
                AppAction::MarkTeam { team, recipients, unread_count },
            (Task::JoinHere { team, agent, agent_type }, Reply::CurrentDir(project)) =>
                AppAction::ManageAgent(
                    AgentOperation::Join { team, agent, agent_type, project },
                ),
            _ => AppAction::Nothing,
        }
    }

    /// The plan was given up and nothing else changed.
    pub open spec fn plan_dropped(self, after: App) -> bool {
        after == (App { plan: after.plan, ..self }) && after.plan.is_idle()
    }

    /// What an error does that was met while reading.
    pub open spec fn load_failed(
        self,
        error: String,
        clock: Clock,
        after: App,
        action: AppAction,
    ) -> bool {
        let dropped = App { plan: after.plan, ..self };
        match self.plan.on_error {
            OnError::Raise => self.plan_dropped(after) && action == AppAction::Fail(error),
            OnError::Show => dropped.objects(after, error@) && after.plan.is_idle()
                && action is Nothing,
            OnError::ShowAfter { first } => dropped.objects(
                after,
                first@ + "; reload failed: "@ + error@,
            ) && after.plan.is_idle() && action is Nothing,
            OnError::ShowAudit => {
                &&& after == (App {
                    audit: AuditScreen { loading: false, ..self.audit },
                    status: after.status,
                    plan: after.plan,
                    ..self
                })
                &&& after.status.is_failure(error@)
                &&& after.plan.is_idle()
                &&& action is Nothing
            },
            OnError::RetryAgent => exists|line: StatusLine|
                line.is_failure(error@) && #[trigger] self.proceeds(
                    App::agent_reload(),
                    Finish::Status(line),
                    OnError::ShowAfter { first: error },
                    self.plan.from_key,
                    clock,
                    after,
                    action,
                ),
        }
    }

    /// What is read again after an operation on agents.
    pub open spec fn agent_reload() -> Seq<Task> {
        seq![Task::RefreshTeams, Task::ReloadTeam, Task::ReloadHistory, Task::ReloadAgents]
    }

    /// What something that was read does, apart from what it means for the saved state.
    pub open spec fn supplied(
        self,
        reply: Reply,
        clock: Clock,
        after: App,
        action: AppAction,
    ) -> bool {
        let tasks = self.plan.tasks@;
        if tasks.len() == 0 {
            after == self && action is Nothing
        } else if !App::fits(tasks[0], reply) {
            match reply {
                Reply::Failed(error) => self.load_failed(error, clock, after, action),
                _ => self.plan_dropped(after) && action is Nothing,
            }
        } else if App::is_errand(tasks[0]) {
            self.plan_dropped(after) && action == App::errand(tasks[0], reply)
        } else {
            exists|taken: App|
                #![trigger self.task_applied(tasks[0], reply, clock, taken)]
                self.task_applied(tasks[0], reply, clock, taken) && taken.proceeds(
                    App::tasks_left(tasks, reply),
                    self.plan.finish,
                    self.plan.on_error,
                    self.plan.from_key,
                    clock,
                    after,
                    action,
                )
        }
    }

    /// The saved state counts as out of date from now on if it differs from `before`.
    pub open spec fn noting_change(self, before: App, now: u64) -> App {
        if self.saved_view() != before.saved_view() {
            App {
                background: Background { state_dirty_since: Some(now), ..self.background },
                ..self
            }
        } else {
            self
        }
    }

    /// What something that was read does.
    pub open spec fn supply_post(
        self,
        reply: Reply,
        clock: Clock,
        after: App,
        action: AppAction,
    ) -> bool {
        exists|core: App|
            #![trigger self.supplied(reply, clock, core, action)]
            self.supplied(reply, clock, core, action) && after == if self.plan.from_key {
                core.noting_change(self, clock.instant)
            } else {
                core
            }
    }

    #[verifier::rlimit(60)]
    fn apply_room_task(&mut self, task: &Task, reply: Reply)
        requires
            old(self).wf(),
            App::is_room_task(*task),
            App::fits(*task, reply),
        ensures
            old(self).room_task_applied(*task, reply, *final(self)),
            final(self).wf(),
    {
        match (task, reply) {
            (Task::RefreshTeams, Reply::TeamSummaries(teams)) => {
                self.room.take_teams(teams);
            },
            (Task::ReloadTeam, Reply::Members(members)) => {
                self.room.take_members(members);
            },
            (Task::RefreshMembers, Reply::Members(members)) => {
                self.room.take_members(members);
            },
            (Task::ReloadTeam, Reply::Nothing) => {
                self.room.clear_members();
            },
            (Task::RefreshMembers, Reply::Nothing) => {
                self.room.clear_members();
            },
            (Task::ReloadHistory, Reply::History(page)) => {
                self.room.take_history(page);
            },
            (Task::ReloadHistory, Reply::Nothing) => {
                self.room.clear_history();
            },
            (Task::OlderHistory, Reply::History(page)) => {
                self.room.take_older(page);
            },
            (Task::HalfPageHistory { selected_id }, Reply::History(page)) => {
                self.room.take_older_keeping(page, *selected_id);
            },
            (Task::MatchHistory { .. }, Reply::History(page)) => {
                self.room.take_older(page);
            },
            _ => {},
        }
    }

    fn find_member_name(&self) -> (name: Option<String>)
        ensures
            name == self.member_name(),
    {
        if self.room.selected_member < self.room.members.len() {
            Some(self.room.members[self.room.selected_member].name.clone())
        } else {
            None
        }
    }

    #[verifier::rlimit(60)]
    fn apply_screen_task(&mut self, task: &Task, reply: Reply, clock: Clock)
        requires
            old(self).wf(),
            clock.wf(),
            !App::is_room_task(*task),
            !App::is_errand(*task),
            App::fits(*task, reply),
        ensures
            old(self).screen_task_applied(*task, reply, clock, *final(self)),
            final(self).wf(),
    {
        match task {
            Task::ReloadAgents => {
                if let Reply::Agents(teams) = reply {
                    self.agents.reload_agents(teams);
                }
            },
            Task::AuditAnalytics => {
                if let Reply::AuditAnalytics { pairs, zombies, stale } = reply {
                    self.audit.take_analytics(pairs, zombies, stale);
                }
            },
            Task::AuditInsights => {
                if let Reply::AuditHistory(history) = reply {
                    self.audit.take_history(history);
                }
            },
            Task::PairWindow { selected_team } => {
                if let Reply::PairMatrices(pairs) = reply {
                    let line = self.audit.take_pairs(pairs, selected_team);
                    self.show(line);
                }
            },
            Task::OpenBulkFilter => {
                if let Reply::AllMessages(messages) = reply {
                    self.open_filter(messages, clock);
                }
            },
            Task::RefreshBulkFilter => {
                if let Reply::AllMessages(messages) = reply {
                    self.refresh_filter(messages, clock);
                }
            },
            Task::OpenComposer => {
                if let Reply::Roster(roster) = reply {
                    let to = self.find_member_name();
                    let second: usize = if roster.len() > 1 {
                        1
                    } else {
                        0
                    };
                    self.open_composer_with(roster, &to, second, true);
                }
            },
            Task::OpenMemberComposer { name } => {
                if let Reply::Roster(roster) = reply {
                    let to = Some(name.clone());
                    self.open_composer_with(roster, &to, 0, false);
                }
            },
            Task::RestoreDraft { team } => {
                let roster = match reply {
                    Reply::Roster(roster) => Some(roster),
                    _ => None,
                };
                self.restore_draft(team.as_str(), roster);
            },
            Task::MemberInfo { member, .. } => {
                if let Reply::MemberInfo { registration, sent, received } = reply {
                    self.member_info = Some(
                        describe_member(member, &registration, sent, received),
                    );
                }
            },
            Task::IdentityInfo { .. } => {
                if let Reply::Lock(lock) = reply {
                    self.agents.show_identity_info(&lock);
                }
            },
            Task::ResetCommand { agent, .. } => {
                let registration = match reply {
                    Reply::Registration(registration) => registration,
                    _ => None,
                };
                self.show_reset_command(registration, agent.as_str());
            },
            _ => {},
        }
    }

    fn check_room_task(task: &Task) -> (about: bool)
        ensures
            about == App::is_room_task(*task),
    {
        match task {
            Task::RefreshTeams | Task::ReloadTeam | Task::RefreshMembers | Task::ReloadHistory
            | Task::OlderHistory | Task::FindMatch => true,
            Task::HalfPageHistory { .. } | Task::MatchHistory { .. } => true,
            _ => false,
        }
    }

    fn check_fit(task: &Task, reply: &Reply) -> (fit: bool)
        ensures
            fit == App::fits(*task, *reply),
    {
        match task {
            Task::RefreshTeams => matches!(reply, Reply::TeamSummaries(_)),
            Task::ReloadTeam | Task::RefreshMembers => matches!(reply, Reply::Members(_))
                || matches!(reply, Reply::Nothing),
            Task::ReloadHistory | Task::OlderHistory => matches!(reply, Reply::History(_))
                || matches!(reply, Reply::Nothing),
            Task::HalfPageHistory { .. } | Task::MatchHistory { .. } => matches!(
                reply,
                Reply::History(_)
            ),
            Task::FindMatch => matches!(reply, Reply::SearchMatch(_)),
            Task::ReloadAgents => matches!(reply, Reply::Agents(_)),
            Task::AuditAnalytics => matches!(reply, Reply::AuditAnalytics { .. }),
            Task::AuditInsights => matches!(reply, Reply::AuditHistory(_)),
            Task::PairWindow { .. } => matches!(reply, Reply::PairMatrices(_)),
            Task::OpenBulkFilter | Task::RefreshBulkFilter => matches!(
                reply,
                Reply::AllMessages(_)
            ),
            Task::OpenComposer | Task::OpenMemberComposer { .. } => matches!(
                reply,
                Reply::Roster(_)
            ),
            Task::RestoreDraft { .. } => matches!(reply, Reply::Roster(_)) || matches!(
                reply,
                Reply::Failed(_)
            ),
            Task::CountRecipient { .. } => matches!(reply, Reply::UnreadCount(_)),
            Task::ListRecipients { .. } => matches!(reply, Reply::UnreadRecipients(_)),
            Task::MemberInfo { .. } => matches!(reply, Reply::MemberInfo { .. }),
            Task::IdentityInfo { .. } => matches!(reply, Reply::Lock(_)),
            Task::ResetCommand { .. } => matches!(reply, Reply::Registration(_)) || matches!(
                reply,
                Reply::Failed(_)
            ),
            Task::JoinHere { .. } => matches!(reply, Reply::CurrentDir(_)),
        }
    }

    fn make_errand(task: Task, reply: Reply) -> (action: AppAction)
        ensures
            action == App::errand(task, reply),
    {
        match (task, reply) {
            (Task::CountRecipient { team, recipient }, Reply::UnreadCount(unread_count)) =>
                AppAction::MarkRecipient { team, recipient, unread_count },
            (Task::ListRecipients { team, unread_count }, Reply::UnreadRecipients(recipients)) =>
                AppAction::MarkTeam { team, recipients, unread_count },
            (Task::JoinHere { team, agent, agent_type }, Reply::CurrentDir(project)) =>
                AppAction::ManageAgent(
                    AgentOperation::Join { team, agent, agent_type, project },
                ),
            _ => AppAction::Nothing,
        }
    }

    /// The reads after an operation on agents.
    pub fn agent_reload_tasks() -> (tasks: Vec<Task>)
        ensures
            tasks@ == App::agent_reload(),
    {
        let mut tasks: Vec<Task> = Vec::new();
        tasks.push(Task::RefreshTeams);
        tasks.push(Task::ReloadTeam);
        tasks.push(Task::ReloadHistory);
        tasks.push(Task::ReloadAgents);
        proof {
            assert(tasks@ =~= App::agent_reload());
        }
        tasks
    }

    fn fail_load(&mut self, plan: Plan, error: String, clock: Clock) -> (action: AppAction)
        requires
            old(self).wf(),
            old(self).plan.is_idle(),
            clock.wf(),
        ensures
            (App { plan, ..*old(self) }).load_failed(error, clock, *final(self), action),
            final(self).wf(),
    {
        match plan.on_error {
            OnError::Raise => AppAction::Fail(error),
            OnError::Show => {
                self.status = validation_status(error);
                AppAction::Nothing
            },
            OnError::ShowAfter { first } => {
                self.status = validation_status(
                    concat3(first.as_str(), "; reload failed: ", error.as_str()),
                );
                AppAction::Nothing
            },
            OnError::ShowAudit => {
                self.audit.loading = false;
                self.status = validation_status(error);
                AppAction::Nothing
            },
            OnError::RetryAgent => {
                let line = validation_status(error.clone());
                let again = Plan {
                    tasks: App::agent_reload_tasks(),
                    finish: Finish::Status(line),
                    on_error: OnError::ShowAfter { first: error },
                    from_key: plan.from_key,
                };
                let ghost kept = line;
                let action = self.proceed(again, clock);
                proof {
                    let before = App { plan, ..*old(self) };
                    assert(before.proceeds(
                        App::agent_reload(),
                        Finish::Status(kept),
                        OnError::ShowAfter { first: error },
                        plan.from_key,
                        clock,
                        *self,
                        action,
                    ));
                }
                action
            },
        }
    }

    #[verifier::rlimit(40)]
    fn take_reply(&mut self, plan: Plan, reply: Reply, clock: Clock) -> (action: AppAction)
        requires
            old(self).wf(),
            old(self).plan.is_idle(),
            clock.wf(),
            plan.tasks@.len() > 0,
            App::fits(plan.tasks@[0], reply),
            !App::is_errand(plan.tasks@[0]),
        ensures
            (App { plan, ..*old(self) }).supplied(reply, clock, *final(self), action),
            final(self).wf(),
    {
        let mut plan = plan;
        let ghost given = plan;
        let ghost tasks = plan.tasks@;
        let ghost before = App { plan: given, ..*old(self) };
        let found = match &reply {
            Reply::SearchMatch(Some(id)) => Some(*id),
            _ => None,
        };
        let more = match &reply {
            Reply::History(page) => page.messages.len() > 0,
            _ => false,
        };
        let task = plan.tasks.remove(0);
        let ghost rest = tasks.skip(1);
        assert(plan.tasks@ =~= rest);
        let ghost reply_taken = reply;
        if App::check_room_task(&task) {
            self.apply_room_task(&task, reply);
        } else {
            self.apply_screen_task(&task, reply, clock);
        }
        let ghost taken = *self;
        match task {
            Task::HalfPageHistory { .. } => {
                if more {
                    plan.tasks.insert(0, task);
                }
            },
            Task::MatchHistory { .. } => {
                if more {
                    plan.tasks.insert(0, task);
                }
            },
            Task::FindMatch => {
                if let Some(target_id) = found {
                    plan.tasks.insert(0, Task::MatchHistory { target_id });
                }
            },
            _ => {},
        }
        proof {
            assert(plan.tasks@ =~= App::tasks_left(tasks, reply_taken));
        }
        let action = self.proceed(plan, clock);
        proof {
            let shown = App { plan: given, ..taken };
            assert(before.task_applied(tasks[0], reply_taken, clock, shown));
            assert(shown.proceeds(
                App::tasks_left(tasks, reply_taken),
                given.finish,
                given.on_error,
                given.from_key,
                clock,
                *self,
                action,
            ));
        }
        action
    }

    /// Takes something that was read and goes on with the plan; the action tells what is next.
    pub fn supply(&mut self, reply: Reply, clock: Clock) -> (action: AppAction)
        requires
            old(self).wf(),
            clock.wf(),
        ensures
            old(self).supply_post(reply, clock, *final(self), action),
            final(self).wf(),
    {
        if self.plan.tasks.len() == 0 {
            if self.plan.from_key {
                assert(old(self).supplied(reply, clock, *self, AppAction::Nothing));
            }
            assert(old(self).supplied(reply, clock, *self, AppAction::Nothing));
            return AppAction::Nothing;
        }
        let saved = self.persistence_snapshot();
        let from_key = self.plan.from_key;
        let mut plan = Plan::idle();
        std::mem::swap(&mut plan, &mut self.plan);
        let ghost given = plan;
        assert((App { plan: given, ..*self }) == *old(self));
        let fit = App::check_fit(&plan.tasks[0], &reply);
        let action = if !fit {
            match reply {
                Reply::Failed(error) => self.fail_load(plan, error, clock),
                _ => AppAction::Nothing,
            }
        } else {
            match plan.tasks[0] {
                Task::CountRecipient { .. } | Task::ListRecipients { .. } | Task::JoinHere { .. } => {
                    let task = plan.tasks.remove(0);
                    App::make_errand(task, reply)
                },
                _ => self.take_reply(plan, reply, clock),
            }
        };
        let ghost core = *self;
        assert(old(self).supplied(reply, clock, core, action));
        if from_key {
            let now = self.persistence_snapshot();
            if !now.same(&saved) {
                self.mark_state_changed(clock.instant);
            }
        }
        action
    }
}

} // verus!
