//! What each key does, screen by screen.

use crate::app::agents_screen::AgentsRequest;
use crate::app::audit_screen::AuditRequest;
use crate::app::bulk_dialog;
use crate::app::bulk_dialog::{bulk_dialog_key, BulkChoice, BulkDialogStep};
use crate::app::bulk_screen::BulkStep;
use crate::app::drafts;
use crate::app::drafts::find_draft;
use crate::app::filter_screen::FilterRequest;
use crate::app::health_screen::HealthRequest;
use crate::app::model::{
    AgentsScreen, App, AppAction, BulkCancel, BulkScreen, Finish, HealthScreen, InFlightOperation,
    Notices, OnError, Plan, Room, Screen, Task, Writing,
};
use crate::app::room_keys::MainRequest;
use crate::app::status;
use crate::app::status::{error_status, info_status, notice, StatusLine};
use crate::app::writing::ComposerRequest;
use crate::bulk::{BulkKind, BulkModal, BulkTarget, DespawnTarget};
use crate::clock::Clock;
use crate::input::{KeyCode, KeyEvent, KeyEventKind};
use crate::strings::concat2;
use vstd::prelude::*;

verus! {

/// What is read again after a bulk operation.
pub open spec fn bulk_reload(kind: BulkKind, audited: bool) -> Seq<Task> {
    let lists = seq![Task::RefreshTeams, Task::ReloadTeam, Task::ReloadHistory];
    if kind == BulkKind::MarkRead {
        if audited {
            lists.push(Task::RefreshBulkFilter).push(Task::AuditAnalytics)
        } else {
            lists.push(Task::RefreshBulkFilter)
        }
    } else {
        lists.push(Task::ReloadAgents).push(Task::AuditAnalytics)
    }
}

fn bulk_reload_tasks(kind: BulkKind, audited: bool) -> (tasks: Vec<Task>)
    ensures
        tasks@ == bulk_reload(kind, audited),
{
    let mut tasks: Vec<Task> = Vec::new();
    tasks.push(Task::RefreshTeams);
    tasks.push(Task::ReloadTeam);
    tasks.push(Task::ReloadHistory);
    proof {
        assert(tasks@ =~= seq![Task::RefreshTeams, Task::ReloadTeam, Task::ReloadHistory]);
    }
    if kind == BulkKind::MarkRead {
        tasks.push(Task::RefreshBulkFilter);
        if audited {
            tasks.push(Task::AuditAnalytics);
        }
    } else {
        tasks.push(Task::ReloadAgents);
        tasks.push(Task::AuditAnalytics);
    }
    tasks
}

fn one_task(task: Task) -> (tasks: Vec<Task>)
    ensures
        tasks@ == seq![task],
{
    let mut tasks: Vec<Task> = Vec::new();
    tasks.push(task);
    proof {
        assert(tasks@ =~= seq![task]);
    }
    tasks
}

impl App {
    /// A key starts reading.
    pub open spec fn reads(
        self,
        tasks: Seq<Task>,
        finish: Finish,
        on_error: OnError,
        clock: Clock,
        after: App,
        action: AppAction,
    ) -> bool {
        self.proceeds(tasks, finish, on_error, true, clock, after, action)
    }

    fn read(
        &mut self,
        tasks: Vec<Task>,
        finish: Finish,
        on_error: OnError,
        clock: Clock,
    ) -> (action: AppAction)
        requires
            old(self).wf(),
            clock.wf(),
        ensures
            old(self).reads(tasks@, finish, on_error, clock, *final(self), action),
            final(self).wf(),
    {
        self.proceed(Plan { tasks, finish, on_error, from_key: true }, clock)
    }

    /// A key starts reading one thing; an error ends the session.
    pub open spec fn reads_one(
        self,
        task: Task,
        clock: Clock,
        after: App,
        action: AppAction,
    ) -> bool {
        self.reads(seq![task], Finish::Nothing, OnError::Raise, clock, after, action)
    }

    fn read_one(&mut self, task: Task, clock: Clock) -> (action: AppAction)
        requires
            old(self).wf(),
            clock.wf(),
        ensures
            old(self).reads_one(task, clock, *final(self), action),
            final(self).wf(),
    {
        self.read(one_task(task), Finish::Nothing, OnError::Raise, clock)
    }

    /// What the next step of a bulk operation does.
    pub open spec fn bulk_step_post(
        self,
        step: BulkStep,
        on_error: OnError,
        from_key: bool,
        clock: Clock,
        after: App,
        action: AppAction,
    ) -> bool {
        match step {
            BulkStep::Wait => after == self && action is Nothing,
            BulkStep::Run { target, force_despawn } => after == self && action
                == (AppAction::RunBulk { target, force_despawn }),
            BulkStep::Finished { kind } => self.proceeds(
                bulk_reload(kind, self.audit.report is Some),
                Finish::Nothing,
                on_error,
                from_key,
                clock,
                after,
                action,
            ),
        }
    }

    /// Takes the next step of a bulk operation.
    pub fn take_bulk_step(
        &mut self,
        step: BulkStep,
        on_error: OnError,
        from_key: bool,
        clock: Clock,
    ) -> (action: AppAction)
        requires
            old(self).wf(),
            clock.wf(),
        ensures
            old(self).bulk_step_post(step, on_error, from_key, clock, *final(self), action),
            final(self).wf(),
    {
        match step {
            BulkStep::Wait => AppAction::Nothing,
            BulkStep::Run { target, force_despawn } => AppAction::RunBulk { target, force_despawn },
            BulkStep::Finished { kind } => {
                let tasks = bulk_reload_tasks(kind, self.audit.report.is_some());
                self.proceed(
                    Plan { tasks, finish: Finish::Nothing, on_error, from_key },
                    clock,
                )
            },
        }
    }

    /// What an answer in a bulk dialog does: an operation begins only while no script runs.
    pub open spec fn bulk_choice_post(
        self,
        choice: BulkChoice,
        after: App,
        action: AppAction,
    ) -> bool {
        match choice {
            BulkChoice::Nothing => after == self && action is Nothing,
            BulkChoice::Export(format) => after == self && action == AppAction::ExportBulk(format),
            BulkChoice::Begin { kind, targets } => if self.background.in_flight is Some {
                self.spinner_shown(after) && action is Nothing
            } else {
                &&& after == (App { bulk: after.bulk, ..self })
                &&& self.bulk.begun(kind, targets, after.bulk)
                &&& action == (AppAction::RunBulk { target: targets@[0], force_despawn: false })
            },
        }
    }

    fn take_bulk_choice(&mut self, choice: BulkChoice) -> (action: AppAction)
        requires
            old(self).wf(),
            bulk_dialog::choice_wf(choice),
        ensures
            old(self).bulk_choice_post(choice, *final(self), action),
            final(self).wf(),
    {
        match choice {
            BulkChoice::Nothing => AppAction::Nothing,
            BulkChoice::Export(format) => AppAction::ExportBulk(format),
            BulkChoice::Begin { kind, targets } => {
                if self.background.in_flight.is_some() {
                    self.update_spinner_status();
                    return AppAction::Nothing;
                }
                match self.bulk.begin(kind, targets) {
                    BulkStep::Run { target, force_despawn } => AppAction::RunBulk {
                        target,
                        force_despawn,
                    },
                    _ => AppAction::Nothing,
                }
            },
        }
    }

    /// A bulk operation or its dialog takes the keys.
    pub open spec fn bulk_open(self) -> bool {
        self.bulk.operation is Some || self.bulk.modal is Some
    }

    /// What a key does to a bulk operation, or else to the dialog that prepares one.
    pub open spec fn bulk_key_post(
        self,
        key: KeyEvent,
        clock: Clock,
        after: App,
        action: AppAction,
    ) -> bool {
        if self.bulk.operation is Some {
            exists|bulk: BulkScreen, line: Option<StatusLine>, step: BulkStep| #[trigger]
                self.bulk.operation_post(key, bulk, line, step) && (App {
                    bulk,
                    ..self
                }).showing(line).bulk_step_post(step, OnError::Raise, true, clock, after, action)
        } else {
            exists|step: BulkDialogStep| #[trigger]
                bulk_dialog::bulk_dialog_post(
                    self.bulk.modal->Some_0,
                    key,
                    self.agents.teams@,
                    step,
                ) && (App {
                    bulk: BulkScreen { modal: step.modal, ..self.bulk },
                    ..self
                }).showing(step.status).bulk_choice_post(step.choice, after, action)
        }
    }

    fn bulk_key(&mut self, key: KeyEvent, clock: Clock) -> (action: AppAction)
        requires
            old(self).wf(),
            old(self).bulk_open(),
            clock.wf(),
        ensures
            old(self).bulk_key_post(key, clock, *final(self), action),
            final(self).wf(),
    {
        if self.bulk.operation.is_some() {
            let (line, step) = self.bulk.operation_key(key);
            let ghost bulk = self.bulk;
            assert(old(self).bulk.operation_post(key, bulk, line, step));
            self.show(line);
            return self.take_bulk_step(step, OnError::Raise, true, clock);
        }
        match self.bulk.modal.take() {
            Some(modal) => {
                let step = bulk_dialog_key(modal, key, &self.agents.teams);
                let ghost taken = step;
                self.bulk.modal = step.modal;
                self.show(step.status);
                let action = self.take_bulk_choice(step.choice);
                assert(bulk_dialog::bulk_dialog_post(
                    modal,
                    key,
                    old(self).agents.teams@,
                    taken,
                ));
                action
            },
            None => AppAction::Nothing,
        }
    }

    /// What asking for the health does: nothing while it is loading.
    pub open spec fn request_health_post(self, after: App, action: AppAction) -> bool {
        if self.health.loading {
            after == self && action is Nothing
        } else {
            &&& after == (App {
                health: HealthScreen { loading: true, ..self.health },
                status: after.status,
                ..self
            })
            &&& after.status.is_info("loading health..."@)
            &&& action is RefreshHealth
        }
    }

    /// Asks for the health, unless it is loading.
    pub fn request_health_refresh(&mut self) -> (action: AppAction)
        ensures
            old(self).request_health_post(*final(self), action),
            old(self).wf() ==> final(self).wf(),
    {
        if self.health.loading {
            return AppAction::Nothing;
        }
        self.health.loading = true;
        self.status = info_status("loading health...");
        AppAction::RefreshHealth
    }

    /// The state on another screen.
    pub open spec fn on_screen(self, screen: Screen) -> App {
        App { display: self.display.on(screen), ..self }
    }

    /// The state with the help open.
    pub open spec fn with_help(self, screen: Screen) -> App {
        App { display: self.display.helping(screen), ..self }
    }

    /// What opening the composer does: a draft is taken up again.
    pub open spec fn open_composer_post(
        self,
        for_member: bool,
        clock: Clock,
        after: App,
        action: AppAction,
    ) -> bool {
        match self.room.active_team {
            None => after == self && action is Nothing,
            Some(team) => if drafts::has_draft(self.writing.drafts@, team@) {
                self.reads_one(Task::RestoreDraft { team }, clock, after, action)
            } else if !for_member {
                self.reads_one(Task::OpenComposer, clock, after, action)
            } else {
                match self.member_name() {
                    Some(name) => self.reads_one(
                        Task::OpenMemberComposer { name },
                        clock,
                        after,
                        action,
                    ),
                    None => after == self && action is Nothing,
                }
            },
        }
    }

    fn open_composer(&mut self, for_member: bool, clock: Clock) -> (action: AppAction)
        requires
            old(self).wf(),
            clock.wf(),
        ensures
            old(self).open_composer_post(for_member, clock, *final(self), action),
            final(self).wf(),
    {
        let team = match &self.room.active_team {
            Some(team) => team.clone(),
            None => {
                return AppAction::Nothing;
            },
        };
        let found = find_draft(&self.writing.drafts, team.as_str());
        proof {
            if let Some(index) = found {
                assert(self.writing.drafts@[index as int].team@ == team@);
            }
        }
        if found.is_some() {
            return self.read_one(Task::RestoreDraft { team }, clock);
        }
        if !for_member {
            return self.read_one(Task::OpenComposer, clock);
        }
        if self.room.selected_member < self.room.members.len() {
            let name = self.room.members[self.room.selected_member].name.clone();
            return self.read_one(Task::OpenMemberComposer { name }, clock);
        }
        AppAction::Nothing
    }

    /// What marking the selected message's recipient read does.
    pub open spec fn mark_selected_post(self, clock: Clock, after: App, action: AppAction) -> bool {
        if self.background.in_flight is Some {
            self.spinner_shown(after) && action is Nothing
        } else {
            match self.room.current_message() {
                None => self.objects(after, "no message selected"@) && action is Nothing,
                Some(message) => if message.read_at is Some {
                    self.says(after, "message is already read"@) && action is Nothing
                } else {
                    self.reads_one(
                        Task::CountRecipient { team: message.team, recipient: message.to_agent },
                        clock,
                        after,
                        action,
                    )
                },
            }
        }
    }

    fn mark_selected_action(&mut self, clock: Clock) -> (action: AppAction)
        requires
            old(self).wf(),
            clock.wf(),
        ensures
            old(self).mark_selected_post(clock, *final(self), action),
            final(self).wf(),
    {
        if self.background.in_flight.is_some() {
            self.update_spinner_status();
            return AppAction::Nothing;
        }
        let task = match self.room.selected_message() {
            None => {
                self.status = error_status("no message selected");
                return AppAction::Nothing;
            },
            Some(message) => {
                if message.read_at.is_some() {
                    self.status = info_status("message is already read");
                    return AppAction::Nothing;
                }
                Task::CountRecipient {
                    team: message.team.clone(),
                    recipient: message.to_agent.clone(),
                }
            },
        };
        self.read_one(task, clock)
    }

    /// The unread messages of the team under the cursor.
    pub open spec fn cursor_unread(self) -> usize {
        if self.room.selected_team < self.room.teams@.len() {
            self.room.teams@[self.room.selected_team as int].unread_count
        } else {
            0
        }
    }

    /// What marking a team read does.
    pub open spec fn mark_team_post(self, clock: Clock, after: App, action: AppAction) -> bool {
        if self.background.in_flight is Some {
            self.spinner_shown(after) && action is Nothing
        } else {
            match self.room.active_team {
                None => self.objects(after, "no team selected"@) && action is Nothing,
                Some(team) => self.reads_one(
                    Task::ListRecipients { team, unread_count: self.cursor_unread() },
                    clock,
                    after,
                    action,
                ),
            }
        }
    }

    fn mark_team_action(&mut self, clock: Clock) -> (action: AppAction)
        requires
            old(self).wf(),
            clock.wf(),
        ensures
            old(self).mark_team_post(clock, *final(self), action),
            final(self).wf(),
    {
        if self.background.in_flight.is_some() {
            self.update_spinner_status();
            return AppAction::Nothing;
        }
        let team = match &self.room.active_team {
            Some(team) => team.clone(),
            None => {
                self.status = error_status("no team selected");
                return AppAction::Nothing;
            },
        };
        let unread_count: usize = if self.room.selected_team < self.room.teams.len() {
            self.room.teams[self.room.selected_team].unread_count
        } else {
            0
        };
        self.read_one(Task::ListRecipients { team, unread_count }, clock)
    }

    /// What marking a member read does.
    pub open spec fn mark_member_post(self, after: App, action: AppAction) -> bool {
        if self.background.in_flight is Some {
            self.spinner_shown(after) && action is Nothing
        } else if self.room.active_team is None {
            self.objects(after, "no team selected"@) && action is Nothing
        } else if self.room.selected_member >= self.room.members@.len() {
            self.objects(after, "no member selected"@) && action is Nothing
        } else {
            let member = self.room.members@[self.room.selected_member as int];
            if member.unread_count == 0 {
                self.says(after, member.name@ + " has no unread"@) && action is Nothing
            } else {
                after == self && action == (AppAction::MarkRecipient {
                    team: self.room.active_team->Some_0,
                    recipient: member.name,
                    unread_count: member.unread_count,
                })
            }
        }
    }

    fn mark_member_action(&mut self) -> (action: AppAction)
        requires
            old(self).wf(),
        ensures
            old(self).mark_member_post(*final(self), action),
            final(self).wf(),
    {
        if self.background.in_flight.is_some() {
            self.update_spinner_status();
            return AppAction::Nothing;
        }
        let team = match &self.room.active_team {
            Some(team) => team.clone(),
            None => {
                self.status = error_status("no team selected");
                return AppAction::Nothing;
            },
        };
        if self.room.selected_member >= self.room.members.len() {
            self.status = error_status("no member selected");
            return AppAction::Nothing;
        }
        let recipient = self.room.members[self.room.selected_member].name.clone();
        let unread_count = self.room.members[self.room.selected_member].unread_count;
        if unread_count == 0 {
            self.status = notice(concat2(recipient.as_str(), " has no unread"));
            return AppAction::Nothing;
        }
        AppAction::MarkRecipient { team, recipient, unread_count }
    }

    /// What asking about the member under the cursor does.
    pub open spec fn member_info_post(self, clock: Clock, after: App, action: AppAction) -> bool {
        if self.room.active_team is Some && self.room.selected_member < self.room.members@.len() {
            self.reads_one(
                Task::MemberInfo {
                    team: self.room.active_team->Some_0,
                    member: self.room.members@[self.room.selected_member as int],
                },
                clock,
                after,
                action,
            )
        } else {
            after == self && action is Nothing
        }
    }

    fn ask_member_info(&mut self, clock: Clock) -> (action: AppAction)
        requires
            old(self).wf(),
            clock.wf(),
        ensures
            old(self).member_info_post(clock, *final(self), action),
            final(self).wf(),
    {
        let team = match &self.room.active_team {
            Some(team) => team.clone(),
            None => {
                return AppAction::Nothing;
            },
        };
        if self.room.selected_member >= self.room.members.len() {
            return AppAction::Nothing;
        }
        let member = self.room.members[self.room.selected_member].clone();
        self.read_one(Task::MemberInfo { team, member }, clock)
    }

    /// The state on the agents screen without a dialog.
    pub open spec fn on_agents(self) -> App {
        App {
            agents: AgentsScreen { modal: None, ..self.agents },
            ..self.on_screen(Screen::Agents)
        }
    }

    fn open_agents(&mut self, finish: Finish, clock: Clock) -> (action: AppAction)
        requires
            old(self).wf(),
            clock.wf(),
        ensures
            old(self).on_agents().reads(
                seq![Task::ReloadAgents],
                finish,
                OnError::Show,
                clock,
                *final(self),
                action,
            ),
            final(self).wf(),
    {
        self.display.screen = Screen::Agents;
        self.agents.modal = None;
        self.read(one_task(Task::ReloadAgents), finish, OnError::Show, clock)
    }

    /// What a request of the main screen does.
    pub open spec fn main_request_post(
        self,
        request: MainRequest,
        clock: Clock,
        after: App,
        action: AppAction,
    ) -> bool {
        match request {
            MainRequest::Nothing => after == self && action is Nothing,
            MainRequest::Quit => after == self && action is Quit,
            MainRequest::Help => after == self.with_help(Screen::Main) && action is Nothing,
            MainRequest::ReloadTeam => self.reads(
                seq![Task::ReloadTeam, Task::ReloadHistory],
                Finish::Nothing,
                OnError::Raise,
                clock,
                after,
                action,
            ),
            MainRequest::OlderHistory => self.reads_one(Task::OlderHistory, clock, after, action),
            MainRequest::HalfPageUp => self.reads(
                seq![Task::HalfPageHistory { selected_id: self.room.selected_id() }],
                Finish::HalfPage { forward: false },
                OnError::Raise,
                clock,
                after,
                action,
            ),
            MainRequest::Find => self.reads(
                seq![Task::FindMatch],
                Finish::FirstMatch,
                OnError::Raise,
                clock,
                after,
                action,
            ),
            MainRequest::OpenComposer => self.open_composer_post(false, clock, after, action),
            MainRequest::OpenMemberComposer => self.open_composer_post(true, clock, after, action),
            MainRequest::MarkSelected => self.mark_selected_post(clock, after, action),
            MainRequest::MarkTeam => self.mark_team_post(clock, after, action),
            MainRequest::MarkMember => self.mark_member_post(after, action),
            MainRequest::MemberInfo => self.member_info_post(clock, after, action),
            MainRequest::SpawnFromMembers => self.on_agents().reads(
                seq![Task::ReloadAgents],
                Finish::OpenSpawn,
                OnError::Show,
                clock,
                after,
                action,
            ),
            MainRequest::RenameFromMembers => match self.member_name() {
                None => self.objects(after, "no member selected"@) && action is Nothing,
                Some(member) => self.on_agents().reads(
                    seq![Task::ReloadAgents],
                    Finish::OpenRename { member },
                    OnError::Show,
                    clock,
                    after,
                    action,
                ),
            },
            MainRequest::OpenAudit => self.on_screen(Screen::Audit).reads(
                seq![Task::AuditInsights],
                Finish::RequestAudit,
                OnError::Raise,
                clock,
                after,
                action,
            ),
            MainRequest::OpenAgents => self.on_agents().reads(
                seq![Task::ReloadAgents],
                Finish::Nothing,
                OnError::Show,
                clock,
                after,
                action,
            ),
            MainRequest::OpenHealth => if self.health.snapshot is None {
                self.on_screen(Screen::Health).request_health_post(after, action)
            } else {
                after == self.on_screen(Screen::Health) && action is Nothing
            },
            MainRequest::OpenBulkFilter => self.reads_one(
                Task::OpenBulkFilter,
                clock,
                after,
                action,
            ),
            MainRequest::ToggleBell => {
                &&& after == (App { notices: after.notices, status: after.status, ..self })
                &&& self.notices.bell_post(after.notices, Some(after.status))
                &&& action is Nothing
            },
            MainRequest::NotifyPopup => after == (App {
                notices: Notices { popup: Some(0), ..self.notices },
                ..self
            }) && action is Nothing,
            MainRequest::Yank(body) => after == self && action == AppAction::Yank(body),
        }
    }

    #[verifier::rlimit(40)]
    fn take_main_request(&mut self, request: MainRequest, clock: Clock) -> (action: AppAction)
        requires
            old(self).wf(),
            clock.wf(),
        ensures
            old(self).main_request_post(request, clock, *final(self), action),
            final(self).wf(),
    {
        match request {
            MainRequest::Nothing => AppAction::Nothing,
            MainRequest::Quit => AppAction::Quit,
            MainRequest::Help => {
                self.display.open_help(Screen::Main);
                AppAction::Nothing
            },
            MainRequest::ReloadTeam => {
                let mut tasks = one_task(Task::ReloadTeam);
                tasks.push(Task::ReloadHistory);
                proof {
                    assert(tasks@ =~= seq![Task::ReloadTeam, Task::ReloadHistory]);
                }
                self.read(tasks, Finish::Nothing, OnError::Raise, clock)
            },
            MainRequest::OlderHistory => self.read_one(Task::OlderHistory, clock),
            MainRequest::HalfPageUp => {
                let selected_id = self.room.find_selected_id();
                self.read(
                    one_task(Task::HalfPageHistory { selected_id }),
                    Finish::HalfPage { forward: false },
                    OnError::Raise,
                    clock,
                )
            },
            MainRequest::Find => self.read(
                one_task(Task::FindMatch),
                Finish::FirstMatch,
                OnError::Raise,
                clock,
            ),
            MainRequest::OpenComposer => self.open_composer(false, clock),
            MainRequest::OpenMemberComposer => self.open_composer(true, clock),
            MainRequest::MarkSelected => self.mark_selected_action(clock),
            MainRequest::MarkTeam => self.mark_team_action(clock),
            MainRequest::MarkMember => self.mark_member_action(),
            MainRequest::MemberInfo => self.ask_member_info(clock),
            MainRequest::SpawnFromMembers => self.open_agents(Finish::OpenSpawn, clock),
            MainRequest::RenameFromMembers => {
                if self.room.selected_member >= self.room.members.len() {
                    self.status = error_status("no member selected");
                    return AppAction::Nothing;
                }
                let member = self.room.members[self.room.selected_member].name.clone();
                self.open_agents(Finish::OpenRename { member }, clock)
            },
            MainRequest::OpenAudit => {
                self.display.screen = Screen::Audit;
                self.read(
                    one_task(Task::AuditInsights),
                    Finish::RequestAudit,
                    OnError::Raise,
                    clock,
                )
            },
            MainRequest::OpenAgents => self.open_agents(Finish::Nothing, clock),
            MainRequest::OpenHealth => {
                self.display.screen = Screen::Health;
                if self.health.snapshot.is_none() {
                    self.request_health_refresh()
                } else {
                    AppAction::Nothing
                }
            },
            MainRequest::OpenBulkFilter => self.read_one(Task::OpenBulkFilter, clock),
            MainRequest::ToggleBell => {
                let line = self.notices.toggle_bell();
                self.show(line);
                AppAction::Nothing
            },
            MainRequest::NotifyPopup => {
                self.notices.popup = Some(0);
                AppAction::Nothing
            },
            MainRequest::Yank(body) => AppAction::Yank(body),
        }
    }

    /// What a key does on the main screen: popups take it first.
    pub open spec fn main_key_post(
        self,
        key: KeyEvent,
        clock: Clock,
        after: App,
        action: AppAction,
    ) -> bool {
        if self.notices.popup is Some {
            after == (App { notices: self.notices.after_popup_key(key), ..self })
                && action is Nothing
        } else if self.member_info is Some {
            &&& after == if key.code == KeyCode::Esc || key.code == KeyCode::Char('I') {
                App { member_info: None, ..self }
            } else {
                self
            }
            &&& action is Nothing
        } else {
            exists|room: Room, line: Option<StatusLine>, request: MainRequest| #[trigger]
                self.room.key_post(key, room, line, request) && (App { room, ..self }).showing(
                    line,
                ).main_request_post(request, clock, after, action)
        }
    }

    fn main_key(&mut self, key: KeyEvent, clock: Clock) -> (action: AppAction)
        requires
            old(self).wf(),
            clock.wf(),
        ensures
            old(self).main_key_post(key, clock, *final(self), action),
            final(self).wf(),
    {
        if self.notices.popup.is_some() {
            self.notices.popup_key(key);
            return AppAction::Nothing;
        }
        if self.member_info.is_some() {
            if key.code == KeyCode::Esc || key.code == KeyCode::Char('I') {
                self.member_info = None;
            }
            return AppAction::Nothing;
        }
        let (line, request) = self.room.key(key);
        let ghost room = self.room;
        assert(old(self).room.key_post(key, room, line, request));
        self.show(line);
        self.take_main_request(request, clock)
    }

    /// What a request of the composer does.
    pub open spec fn composer_request_post(
        self,
        request: ComposerRequest,
        after: App,
        action: AppAction,
    ) -> bool {
        match request {
            ComposerRequest::Nothing => after == self && action is Nothing,
            ComposerRequest::LeaveScreen => after == self.on_screen(Screen::Main)
                && action is Nothing,
            ComposerRequest::Spinner => self.spinner_shown(after) && action is Nothing,
            ComposerRequest::Send(sent) => after == self && action == AppAction::Send(sent),
        }
    }

    /// What a key does in the composer: nothing while a message is being sent.
    pub open spec fn composer_key_post(
        self,
        key: KeyEvent,
        after: App,
        action: AppAction,
    ) -> bool {
        if self.background.in_flight == Some(InFlightOperation::Send) {
            after == self && action is Nothing
        } else {
            exists|writing: Writing, line: Option<StatusLine>, request: ComposerRequest| #[trigger]
                self.writing.key_post(
                    key,
                    self.room.active_team,
                    self.background.in_flight is Some,
                    writing,
                    line,
                    request,
                ) && (App { writing, ..self }).showing(line).composer_request_post(
                    request,
                    after,
                    action,
                )
        }
    }

    fn composer_key(&mut self, key: KeyEvent) -> (action: AppAction)
        requires
            old(self).wf(),
        ensures
            old(self).composer_key_post(key, *final(self), action),
            final(self).wf(),
    {
        if let Some(operation) = self.background.in_flight {
            if operation == InFlightOperation::Send {
                return AppAction::Nothing;
            }
        }
        let busy = self.background.in_flight.is_some();
        let (line, request) = self.writing.key(key, &self.room.active_team, busy);
        let ghost writing = self.writing;
        assert(old(self).writing.key_post(
            key,
            old(self).room.active_team,
            old(self).background.in_flight is Some,
            writing,
            line,
            request,
        ));
        self.show(line);
        match request {
            ComposerRequest::Nothing => AppAction::Nothing,
            ComposerRequest::LeaveScreen => {
                self.display.screen = Screen::Main;
                AppAction::Nothing
            },
            ComposerRequest::Spinner => {
                self.update_spinner_status();
                AppAction::Nothing
            },
            ComposerRequest::Send(sent) => AppAction::Send(sent),
        }
    }

    /// The target shuts the agent down.
    pub open spec fn despawns(
        target: BulkTarget,
        team: String,
        from: String,
        name: String,
    ) -> bool {
        target == BulkTarget::Despawn(DespawnTarget { team, from, name })
    }

    /// What asking to shut an agent down does.
    pub open spec fn despawn_post(
        self,
        team: String,
        from: String,
        name: String,
        after: App,
    ) -> bool {
        &&& after == (App {
            bulk: BulkScreen {
                operation: None,
                cancel: BulkCancel::Absent,
                modal: after.bulk.modal,
                ..self.bulk
            },
            ..self
        })
        &&& after.bulk.modal matches Some(BulkModal::Preview { kind, targets, confirm, scroll })
            && kind == BulkKind::Despawn && targets@.len() == 1 && App::despawns(
            targets@[0],
            team,
            from,
            name,
        ) && confirm@.len() == 0 && scroll == 0
    }

    fn open_despawn_preview(&mut self, team: String, from: String, name: String)
        requires
            old(self).wf(),
        ensures
            old(self).despawn_post(team, from, name, *final(self)),
            final(self).wf(),
    {
        let mut targets: Vec<BulkTarget> = Vec::new();
        targets.push(BulkTarget::Despawn(DespawnTarget { team, from, name }));
        proof {
            crate::bulk::target::units_of_single(targets@);
        }
        self.bulk.operation = None;
        self.bulk.cancel = BulkCancel::Absent;
        self.bulk.modal = Some(
            BulkModal::Preview {
                kind: BulkKind::Despawn,
                targets,
                confirm: String::new(),
                scroll: 0,
            },
        );
    }

    /// What a request of the agents screen does.
    pub open spec fn agents_request_post(
        self,
        request: AgentsRequest,
        clock: Clock,
        after: App,
        action: AppAction,
    ) -> bool {
        match request {
            AgentsRequest::Nothing => after == self && action is Nothing,
            AgentsRequest::LeaveScreen => after == self.on_screen(Screen::Main)
                && action is Nothing,
            AgentsRequest::Help => after == self.with_help(Screen::Agents) && action is Nothing,
            AgentsRequest::Reload => exists|line: StatusLine|
                line.is_info("agents reloaded"@) && #[trigger] self.reads(
                    seq![Task::ReloadAgents],
                    Finish::Status(line),
                    OnError::Show,
                    clock,
                    after,
                    action,
                ),
            AgentsRequest::IdentityInfo { team, agent } => self.reads_one(
                Task::IdentityInfo { team, agent },
                clock,
                after,
                action,
            ),
            AgentsRequest::Despawn { team, from, name } => self.despawn_post(
                team,
                from,
                name,
                after,
            ) && action is Nothing,
            AgentsRequest::Run(operation) => after == self && action == AppAction::ManageAgent(
                operation,
            ),
            AgentsRequest::JoinHere { team, agent, agent_type } => self.reads_one(
                Task::JoinHere { team, agent, agent_type },
                clock,
                after,
                action,
            ),
        }
    }

    fn take_agents_request(&mut self, request: AgentsRequest, clock: Clock) -> (action: AppAction)
        requires
            old(self).wf(),
            clock.wf(),
        ensures
            old(self).agents_request_post(request, clock, *final(self), action),
            final(self).wf(),
    {
        match request {
            AgentsRequest::Nothing => AppAction::Nothing,
            AgentsRequest::LeaveScreen => {
                self.display.screen = Screen::Main;
                AppAction::Nothing
            },
            AgentsRequest::Help => {
                self.display.open_help(Screen::Agents);
                AppAction::Nothing
            },
            AgentsRequest::Reload => {
                let line = info_status("agents reloaded");
                self.read(
                    one_task(Task::ReloadAgents),
                    Finish::Status(line),
                    OnError::Show,
                    clock,
                )
            },
            AgentsRequest::IdentityInfo { team, agent } => self.read_one(
                Task::IdentityInfo { team, agent },
                clock,
            ),
            AgentsRequest::Despawn { team, from, name } => {
                self.open_despawn_preview(team, from, name);
                AppAction::Nothing
            },
            AgentsRequest::Run(operation) => AppAction::ManageAgent(operation),
            AgentsRequest::JoinHere { team, agent, agent_type } => self.read_one(
                Task::JoinHere { team, agent, agent_type },
                clock,
            ),
        }
    }

    /// What a key does on the agents screen: nothing but the spinner while an operation on agents
    /// runs.
    pub open spec fn agents_key_post(
        self,
        key: KeyEvent,
        clock: Clock,
        after: App,
        action: AppAction,
    ) -> bool {
        if self.background.in_flight == Some(InFlightOperation::Agent) {
            self.spinner_shown(after) && action is Nothing
        } else {
            exists|agents: AgentsScreen, line: Option<StatusLine>, request: AgentsRequest|
                #[trigger] self.agents.key_post(
                    key,
                    self.current_identity,
                    agents,
                    line,
                    request,
                ) && (App { agents, ..self }).showing(line).agents_request_post(
                    request,
                    clock,
                    after,
                    action,
                )
        }
    }

    fn agents_key(&mut self, key: KeyEvent, clock: Clock) -> (action: AppAction)
        requires
            old(self).wf(),
            clock.wf(),
        ensures
            old(self).agents_key_post(key, clock, *final(self), action),
            final(self).wf(),
    {
        if let Some(operation) = self.background.in_flight {
            if operation == InFlightOperation::Agent {
                self.update_spinner_status();
                return AppAction::Nothing;
            }
        }
        let (line, request) = self.agents.key(key, &self.current_identity);
        let ghost agents = self.agents;
        assert(old(self).agents.key_post(
            key,
            old(self).current_identity,
            agents,
            line,
            request,
        ));
        self.show(line);
        self.take_agents_request(request, clock)
    }

    /// What marking the recipient of a stale message read does.
    pub open spec fn mark_stale_post(self, clock: Clock, after: App, action: AppAction) -> bool {
        if self.background.in_flight is Some {
            self.spinner_shown(after) && action is Nothing
        } else {
            match self.audit.stale() {
                Some(stale) => self.reads_one(
                    Task::CountRecipient { team: stale.team, recipient: stale.to_agent },
                    clock,
                    after,
                    action,
                ),
                None => self.says(after, "M is available for stale unread messages"@)
                    && action is Nothing,
            }
        }
    }

    fn mark_stale_action(&mut self, clock: Clock) -> (action: AppAction)
        requires
            old(self).wf(),
            clock.wf(),
        ensures
            old(self).mark_stale_post(clock, *final(self), action),
            final(self).wf(),
    {
        if self.background.in_flight.is_some() {
            self.update_spinner_status();
            return AppAction::Nothing;
        }
        let task = match self.audit.selected_audit_item() {
            Some(crate::app::model::AuditSelection::Stale(stale)) => Task::CountRecipient {
                team: stale.team.clone(),
                recipient: stale.to_agent.clone(),
            },
            _ => {
                self.status = info_status("M is available for stale unread messages");
                return AppAction::Nothing;
            },
        };
        self.read_one(task, clock)
    }

    /// The agents are read unless they are there.
    pub open spec fn agents_if_missing(self) -> Seq<Task> {
        if self.agents.teams@.len() == 0 {
            seq![Task::ReloadAgents]
        } else {
            Seq::empty()
        }
    }

    fn read_agents_if_missing(&mut self, finish: Finish, clock: Clock) -> (action: AppAction)
        requires
            old(self).wf(),
            clock.wf(),
        ensures
            old(self).reads(
                old(self).agents_if_missing(),
                finish,
                OnError::Show,
                clock,
                *final(self),
                action,
            ),
            final(self).wf(),
    {
        let tasks = if self.agents.teams.len() == 0 {
            one_task(Task::ReloadAgents)
        } else {
            Vec::new()
        };
        proof {
            assert(tasks@ =~= self.agents_if_missing());
        }
        self.read(tasks, finish, OnError::Show, clock)
    }

    /// What a request of the audit screen does.
    pub open spec fn audit_request_post(
        self,
        request: AuditRequest,
        clock: Clock,
        after: App,
        action: AppAction,
    ) -> bool {
        match request {
            AuditRequest::Nothing => after == self && action is Nothing,
            AuditRequest::LeaveScreen => after == self.on_screen(Screen::Main) && action is Nothing,
            AuditRequest::Help => after == self.with_help(Screen::Audit) && action is Nothing,
            AuditRequest::Refresh => self.request_audit_post(after, action),
            AuditRequest::Export => after == self && action is ExportReport,
            AuditRequest::PairWindow { selected_team } => self.reads_one(
                Task::PairWindow { selected_team },
                clock,
                after,
                action,
            ),
            AuditRequest::ResetCommand { team, agent } => self.reads_one(
                Task::ResetCommand { team, agent },
                clock,
                after,
                action,
            ),
            AuditRequest::MarkStale => self.mark_stale_post(clock, after, action),
            AuditRequest::BulkReset => if self.bulk.busy() {
                self.objects(after, "bulk operation already running"@) && action is Nothing
            } else {
                self.reads(
                    self.agents_if_missing(),
                    Finish::OpenBulkReset,
                    OnError::Show,
                    clock,
                    after,
                    action,
                )
            },
            AuditRequest::BulkRename => self.reads(
                self.agents_if_missing(),
                Finish::OpenBulkRename,
                OnError::Show,
                clock,
                after,
                action,
            ),
        }
    }

    fn take_audit_request(&mut self, request: AuditRequest, clock: Clock) -> (action: AppAction)
        requires
            old(self).wf(),
            clock.wf(),
        ensures
            old(self).audit_request_post(request, clock, *final(self), action),
            final(self).wf(),
    {
        match request {
            AuditRequest::Nothing => AppAction::Nothing,
            AuditRequest::LeaveScreen => {
                self.display.screen = Screen::Main;
                AppAction::Nothing
            },
            AuditRequest::Help => {
                self.display.open_help(Screen::Audit);
                AppAction::Nothing
            },
            AuditRequest::Refresh => self.request_audit_refresh(),
            AuditRequest::Export => AppAction::ExportReport,
            AuditRequest::PairWindow { selected_team } => self.read_one(
                Task::PairWindow { selected_team },
                clock,
            ),
            AuditRequest::ResetCommand { team, agent } => self.read_one(
                Task::ResetCommand { team, agent },
                clock,
            ),
            AuditRequest::MarkStale => self.mark_stale_action(clock),
            AuditRequest::BulkReset => {
                if self.bulk.is_busy() {
                    self.status = error_status("bulk operation already running");
                    return AppAction::Nothing;
                }
                self.read_agents_if_missing(Finish::OpenBulkReset, clock)
            },
            AuditRequest::BulkRename => self.read_agents_if_missing(
                Finish::OpenBulkRename,
                clock,
            ),
        }
    }

    /// What a key does on the audit screen.
    pub open spec fn audit_key_post(
        self,
        key: KeyEvent,
        clock: Clock,
        after: App,
        action: AppAction,
    ) -> bool {
        exists|audit: crate::app::model::AuditScreen, line: Option<StatusLine>, request: AuditRequest|
            #[trigger] self.audit.key_post(key, audit, line, request) && (App {
                audit,
                ..self
            }).showing(line).audit_request_post(request, clock, after, action)
    }

    fn audit_key(&mut self, key: KeyEvent, clock: Clock) -> (action: AppAction)
        requires
            old(self).wf(),
            clock.wf(),
        ensures
            old(self).audit_key_post(key, clock, *final(self), action),
            final(self).wf(),
    {
        let (line, request) = self.audit.key(key);
        let ghost audit = self.audit;
        assert(old(self).audit.key_post(key, audit, line, request));
        self.show(line);
        self.take_audit_request(request, clock)
    }

    /// What a key does on the health screen.
    pub open spec fn health_key_post(self, key: KeyEvent, after: App, action: AppAction) -> bool {
        let moved = App { health: self.health.after_key(key), ..self };
        match HealthScreen::request_of(key) {
            HealthRequest::Nothing => after == moved && action is Nothing,
            HealthRequest::Quit => after == moved && action is Quit,
            HealthRequest::LeaveScreen => after == moved.on_screen(Screen::Main)
                && action is Nothing,
            HealthRequest::Refresh => moved.request_health_post(after, action),
            HealthRequest::Help => after == moved.with_help(Screen::Health) && action is Nothing,
        }
    }

    fn health_key(&mut self, key: KeyEvent) -> (action: AppAction)
        requires
            old(self).wf(),
        ensures
            old(self).health_key_post(key, *final(self), action),
            final(self).wf(),
    {
        match self.health.key(key) {
            HealthRequest::Nothing => AppAction::Nothing,
            HealthRequest::Quit => AppAction::Quit,
            HealthRequest::LeaveScreen => {
                self.display.screen = Screen::Main;
                AppAction::Nothing
            },
            HealthRequest::Refresh => self.request_health_refresh(),
            HealthRequest::Help => {
                self.display.open_help(Screen::Health);
                AppAction::Nothing
            },
        }
    }

    /// What a request of the filter screen does.
    pub open spec fn filter_request_post(
        self,
        request: FilterRequest,
        after: App,
        action: AppAction,
    ) -> bool {
        match request {
            FilterRequest::LeaveScreen => after == self.on_screen(Screen::Main)
                && action is Nothing,
            FilterRequest::Quit => after == self && action is Quit,
            FilterRequest::Help => after == self.with_help(Screen::BulkFilter) && action is Nothing,
            _ => after == self && action is Nothing,
        }
    }

    /// What a key does on the filter screen.
    pub open spec fn filter_key_post(
        self,
        key: KeyEvent,
        clock: Clock,
        after: App,
        action: AppAction,
    ) -> bool {
        if key.is_control('f') {
            after == self.on_screen(Screen::Main) && action is Nothing
        } else {
            match self.bulk.filter {
                None => self.reads_one(Task::OpenBulkFilter, clock, after, action),
                Some(state) => exists|
                    bulk: BulkScreen,
                    line: Option<StatusLine>,
                    request: FilterRequest,
                | #[trigger]
                    self.bulk.filter_post(state, key, clock.utc, bulk, line, request) && (App {
                        bulk,
                        ..self
                    }).showing(line).filter_request_post(request, after, action),
            }
        }
    }

    fn filter_key(&mut self, key: KeyEvent, clock: Clock) -> (action: AppAction)
        requires
            old(self).wf(),
            clock.wf(),
        ensures
            old(self).filter_key_post(key, clock, *final(self), action),
            final(self).wf(),
    {
        if key.control_char('f') {
            self.display.screen = Screen::Main;
            return AppAction::Nothing;
        }
        match self.bulk.filter_key(key, clock.utc) {
            None => self.read_one(Task::OpenBulkFilter, clock),
            Some((line, request)) => {
                let ghost bulk = self.bulk;
                assert(old(self).bulk.filter_post(
                    old(self).bulk.filter->Some_0,
                    key,
                    clock.utc,
                    bulk,
                    line,
                    request,
                ));
                self.show(line);
                match request {
                    FilterRequest::LeaveScreen => {
                        self.display.screen = Screen::Main;
                        AppAction::Nothing
                    },
                    FilterRequest::Quit => AppAction::Quit,
                    FilterRequest::Help => {
                        self.display.open_help(Screen::BulkFilter);
                        AppAction::Nothing
                    },
                    _ => AppAction::Nothing,
                }
            },
        }
    }

    /// What a key does on the screen that is shown, apart from what it means for the saved state.
    pub open spec fn screen_key_post(
        self,
        key: KeyEvent,
        clock: Clock,
        after: App,
        action: AppAction,
    ) -> bool {
        match self.display.screen {
            Screen::Composer => self.composer_key_post(key, after, action),
            Screen::Help => after == (App {
                display: self.display.after_help_key(key),
                ..self
            }) && action is Nothing,
            Screen::Audit => if self.bulk_open() {
                self.bulk_key_post(key, clock, after, action)
            } else {
                self.audit_key_post(key, clock, after, action)
            },
            Screen::Agents => if self.bulk_open() {
                self.bulk_key_post(key, clock, after, action)
            } else {
                self.agents_key_post(key, clock, after, action)
            },
            Screen::Health => self.health_key_post(key, after, action),
            Screen::BulkFilter => if self.bulk_open() {
                self.bulk_key_post(key, clock, after, action)
            } else {
                self.filter_key_post(key, clock, after, action)
            },
            Screen::Main => self.main_key_post(key, clock, after, action),
        }
    }

    fn screen_key(&mut self, key: KeyEvent, clock: Clock) -> (action: AppAction)
        requires
            old(self).wf(),
            clock.wf(),
        ensures
            old(self).screen_key_post(key, clock, *final(self), action),
            final(self).wf(),
    {
        let bulk_open = self.bulk.operation.is_some() || self.bulk.modal.is_some();
        match self.display.screen {
            Screen::Composer => self.composer_key(key),
            Screen::Help => {
                self.display.help_key(key);
                AppAction::Nothing
            },
            Screen::Audit => if bulk_open {
                self.bulk_key(key, clock)
            } else {
                self.audit_key(key, clock)
            },
            Screen::Agents => if bulk_open {
                self.bulk_key(key, clock)
            } else {
                self.agents_key(key, clock)
            },
            Screen::Health => self.health_key(key),
            Screen::BulkFilter => if bulk_open {
                self.bulk_key(key, clock)
            } else {
                self.filter_key(key, clock)
            },
            Screen::Main => self.main_key(key, clock),
        }
    }

    /// What a key does: only its press counts, and a change of what is saved is noted.
    pub open spec fn key_post(
        self,
        key: KeyEvent,
        clock: Clock,
        after: App,
        action: AppAction,
    ) -> bool {
        if key.kind != KeyEventKind::Press {
            after == self && action is Nothing
        } else {
            exists|core: App|
                #![trigger self.screen_key_post(key, clock, core, action)]
                self.screen_key_post(key, clock, core, action) && after == core.noting_change(
                    self,
                    clock.instant,
                )
        }
    }

    /// Applies a key; the action tells what the event loop is to do.
    pub fn handle_key(&mut self, key: KeyEvent, clock: Clock) -> (action: AppAction)
        requires
            old(self).wf(),
            clock.wf(),
        ensures
            old(self).key_post(key, clock, *final(self), action),
            final(self).wf(),
    {
        if key.kind != KeyEventKind::Press {
            return AppAction::Nothing;
        }
        let saved = self.persistence_snapshot();
        let action = self.screen_key(key, clock);
        let ghost core = *self;
        assert(old(self).screen_key_post(key, clock, core, action));
        let now = self.persistence_snapshot();
        if !now.same(&saved) {
            self.mark_state_changed(clock.instant);
        }
        action
    }
}

} // verus!
