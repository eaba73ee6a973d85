//! Plans: what is read one after the other, and what follows when all of it was read.

use crate::agents::{AgentModal, AgentOperation};
use crate::app::bulk_screen;
use crate::app::bulk_screen::command_failure_detail;
use crate::app::model::{
    AgentsScreen, App, AppAction, AuditScreen, BulkCancel, BulkScreen, Finish, OnError, Plan, Query,
    Room, Task,
};
use crate::app::reset_targets;
use crate::app::reset_targets::reset_targets;
use crate::app::status;
use crate::app::status::{
    error_status, info_status, notice, validation_status, StatusLine,
};
use crate::bulk::naming;
use crate::bulk::{naming_violations, BulkKind, BulkModal};
use crate::clock::Clock;
use crate::db::{clone_option, Message};
use crate::exec::CommandResult;
use crate::search;
use crate::search::contains;
use crate::strings;
use crate::strings::{concat2, decimal_usize};
use vstd::prelude::*;

verus! {

impl Plan {
    /// There is nothing to be done.
    pub open spec fn is_idle(self) -> bool {
        &&& self.tasks@.len() == 0
        &&& self.finish is Nothing
        &&& self.on_error is Raise
        &&& !self.from_key
    }

    /// The plan with nothing to be done.
    pub fn idle() -> (plan: Plan)
        ensures
            plan.is_idle(),
    {
        Plan {
            tasks: Vec::new(),
            finish: Finish::Nothing,
            on_error: OnError::Raise,
            from_key: false,
        }
    }
}

/// Something has to be read for the task: an older page only if it is still missing, and a match
/// only if there is something to search for.
pub open spec fn is_needed(room: Room, task: Task) -> bool {
    match task {
        Task::HalfPageHistory { selected_id } => room.active_team is Some
            && room.half_page_needs_older(selected_id),
        Task::MatchHistory { target_id } => room.active_team is Some && room.match_needs_older(
            target_id,
        ),
        Task::FindMatch => room.active_team is Some && room.search_query is Some,
        _ => true,
    }
}

/// The tasks from the first one on for which something has to be read.
pub open spec fn needed_tasks(room: Room, tasks: Seq<Task>) -> Seq<Task>
    decreases tasks.len(),
{
    if tasks.len() == 0 || is_needed(room, tasks[0]) {
        tasks
    } else {
        needed_tasks(room, tasks.skip(1))
    }
}

fn check_needed(room: &Room, task: &Task) -> (needed: bool)
    ensures
        needed == is_needed(*room, *task),
{
    match task {
        Task::HalfPageHistory { selected_id } => room.active_team.is_some()
            && room.needs_older_for_half_page(*selected_id),
        Task::MatchHistory { target_id } => room.active_team.is_some()
            && room.needs_older_for_match(*target_id),
        Task::FindMatch => room.active_team.is_some() && room.search_query.is_some(),
        _ => true,
    }
}

fn drop_unneeded(room: &Room, tasks: &mut Vec<Task>)
    ensures
        final(tasks)@ == needed_tasks(*room, old(tasks)@),
{
    let ghost all = tasks@;
    while tasks.len() > 0 && !check_needed(room, &tasks[0])
        invariant
            needed_tasks(*room, tasks@) == needed_tasks(*room, all),
        decreases tasks@.len(),
    {
        let ghost before = tasks@;
        let _ = tasks.remove(0);
        proof {
            assert(tasks@ =~= before.skip(1));
        }
    }
}

/// The query for a team that may be missing.
pub open spec fn members_query(team: Option<String>) -> Query {
    match team {
        Some(team) => Query::Members { team },
        None => Query::Nothing,
    }
}

/// The query for a page of the history of a team that may be missing.
pub open spec fn history_query(team: Option<String>, before_id: Option<i64>) -> Query {
    match team {
        Some(team) => Query::History { team, before_id },
        None => Query::Nothing,
    }
}

/// The query for the roster of a team that may be missing.
pub open spec fn roster_query(team: Option<String>) -> Query {
    match team {
        Some(team) => Query::Roster { team },
        None => Query::Nothing,
    }
}

impl App {
    /// What is read for a task.
    pub open spec fn query_of(self, task: Task) -> Query {
        let team = self.room.active_team;
        match task {
            Task::RefreshTeams => Query::TeamSummaries,
            Task::ReloadTeam | Task::RefreshMembers => members_query(team),
            Task::ReloadHistory => history_query(team, None),
            Task::OlderHistory => history_query(team, self.room.oldest_id()),
            Task::HalfPageHistory { .. } => history_query(team, self.room.oldest_id()),
            Task::MatchHistory { .. } => history_query(team, self.room.oldest_id()),
            Task::FindMatch => match (team, self.room.search_query) {
                (Some(team), Some(query)) => Query::SearchMatch {
                    team,
                    query,
                    member: self.room.member_filter,
                },
                _ => Query::Nothing,
            },
            Task::ReloadAgents => Query::Agents,
            Task::AuditAnalytics => Query::AuditAnalytics { days: self.audit.pair_window_days },
            Task::AuditInsights => Query::AuditHistory,
            Task::PairWindow { .. } => Query::PairMatrices { days: self.audit.pair_window_days },
            Task::OpenBulkFilter | Task::RefreshBulkFilter => Query::AllMessages,
            Task::OpenComposer => roster_query(team),
            Task::OpenMemberComposer { .. } => roster_query(team),
            Task::RestoreDraft { team } => Query::Roster { team },
            Task::CountRecipient { team, recipient } => Query::UnreadCount { team, recipient },
            Task::ListRecipients { team, .. } => Query::UnreadRecipients { team },
            Task::MemberInfo { team, member } => Query::MemberInfo { team, agent: member.name },
            Task::IdentityInfo { team, agent } => Query::Lock { team, agent },
            Task::ResetCommand { team, agent } => Query::Registration { team, agent },
            Task::JoinHere { .. } => Query::CurrentDir,
        }
    }

    fn history_query_for(&self, before_id: Option<i64>) -> (query: Query)
        ensures
            query == history_query(self.room.active_team, before_id),
    {
        match &self.room.active_team {
            Some(team) => Query::History { team: team.clone(), before_id },
            None => Query::Nothing,
        }
    }

    fn roster_query_for(&self) -> (query: Query)
        ensures
            query == roster_query(self.room.active_team),
    {
        match &self.room.active_team {
            Some(team) => Query::Roster { team: team.clone() },
            None => Query::Nothing,
        }
    }

    fn query_for(&self, task: &Task) -> (query: Query)
        ensures
            query == self.query_of(*task),
    {
        match task {
            Task::RefreshTeams => Query::TeamSummaries,
            Task::ReloadTeam | Task::RefreshMembers => match &self.room.active_team {
                Some(team) => Query::Members { team: team.clone() },
                None => Query::Nothing,
            },
            Task::ReloadHistory => self.history_query_for(None),
            Task::OlderHistory => self.history_query_for(self.room.find_oldest_id()),
            Task::HalfPageHistory { .. } => self.history_query_for(self.room.find_oldest_id()),
            Task::MatchHistory { .. } => self.history_query_for(self.room.find_oldest_id()),
            Task::FindMatch => match (&self.room.active_team, &self.room.search_query) {
                (Some(team), Some(query)) => Query::SearchMatch {
                    team: team.clone(),
                    query: query.clone(),
                    member: clone_option(&self.room.member_filter),
                },
                _ => Query::Nothing,
            },
            Task::ReloadAgents => Query::Agents,
            Task::AuditAnalytics => Query::AuditAnalytics { days: self.audit.pair_window_days },
            Task::AuditInsights => Query::AuditHistory,
            Task::PairWindow { .. } => Query::PairMatrices { days: self.audit.pair_window_days },
            Task::OpenBulkFilter | Task::RefreshBulkFilter => Query::AllMessages,
            Task::OpenComposer => self.roster_query_for(),
            Task::OpenMemberComposer { .. } => self.roster_query_for(),
            Task::RestoreDraft { team } => Query::Roster { team: team.clone() },
            Task::CountRecipient { team, recipient } => Query::UnreadCount {
                team: team.clone(),
                recipient: recipient.clone(),
            },
            Task::ListRecipients { team, .. } => Query::UnreadRecipients { team: team.clone() },
            Task::MemberInfo { team, member } => Query::MemberInfo {
                team: team.clone(),
                agent: member.name.clone(),
            },
            Task::IdentityInfo { team, agent } => Query::Lock {
                team: team.clone(),
                agent: agent.clone(),
            },
            Task::ResetCommand { team, agent } => Query::Registration {
                team: team.clone(),
                agent: agent.clone(),
            },
            Task::JoinHere { .. } => Query::CurrentDir,
        }
    }

    /// What asking for a new audit does: nothing while one is loading.
    pub open spec fn request_audit_post(self, after: App, action: AppAction) -> bool {
        if self.audit.loading {
            after == self && action is Nothing
        } else {
            &&& after == (App {
                audit: AuditScreen { loading: true, ..self.audit },
                status: after.status,
                ..self
            })
            &&& after.status.is_info("loading audit..."@)
            &&& action is RefreshAudit
        }
    }

    /// Asks for a new audit, unless one is loading.
    pub fn request_audit_refresh(&mut self) -> (action: AppAction)
        ensures
            old(self).request_audit_post(*final(self), action),
            old(self).wf() ==> final(self).wf(),
    {
        if self.audit.loading {
            return AppAction::Nothing;
        }
        self.audit.loading = true;
        self.status = info_status("loading audit...");
        AppAction::RefreshAudit
    }

    /// What offering a bulk reset does.
    pub open spec fn bulk_reset_post(self, after: App) -> bool {
        let identities = naming::all_identities(self.agents.teams@);
        let positions = reset_targets::offered_positions(
            identities,
            self.audit.zombies@,
            self.audit.stale_unreads@,
            self.current_identity,
            identities.len() as int,
        );
        if positions.len() == 0 {
            self.objects(after, "no resettable stale/zombie identities"@)
        } else {
            &&& after == (App {
                bulk: BulkScreen {
                    operation: None,
                    cancel: BulkCancel::Absent,
                    modal: after.bulk.modal,
                    ..self.bulk
                },
                ..self
            })
            &&& after.bulk.modal matches Some(
                BulkModal::Preview { kind, targets, confirm, scroll },
            ) && kind == BulkKind::Reset && confirm@.len() == 0 && scroll == 0
                && reset_targets::resets_all(targets@, identities, positions)
        }
    }

    fn open_bulk_reset_preview(&mut self)
        requires
            old(self).wf(),
        ensures
            old(self).bulk_reset_post(*final(self)),
            final(self).wf(),
    {
        let targets = reset_targets(
            &self.agents.teams,
            &self.audit.zombies,
            &self.audit.stale_unreads,
            &self.current_identity,
        );
        let count: usize = targets.len();
        if count == 0 {
            self.status = error_status("no resettable stale/zombie identities");
            return;
        }
        self.bulk.operation = None;
        self.bulk.cancel = BulkCancel::Absent;
        self.bulk.modal = Some(
            BulkModal::Preview {
                kind: BulkKind::Reset,
                targets,
                confirm: String::new(),
                scroll: 0,
            },
        );
    }

    /// What opening the list of proposed names does.
    pub open spec fn bulk_rename_post(self, after: App) -> bool {
        let identities = naming::all_identities(self.agents.teams@);
        let positions = naming::violation_positions(
            self.agents.cli_family@,
            identities,
            identities.len() as int,
        );
        if positions.len() == 0 {
            self.says(after, "no naming violations"@)
        } else {
            &&& after == (App {
                bulk: BulkScreen {
                    operation: None,
                    cancel: BulkCancel::Absent,
                    modal: after.bulk.modal,
                    ..self.bulk
                },
                ..self
            })
            &&& after.bulk.modal matches Some(
                BulkModal::RenameEdit { targets, selected, editing },
            ) && selected == 0 && !editing && targets@.len() == positions.len() && forall|k: int|
                0 <= k < positions.len() ==> naming::renames(
                    #[trigger] targets@[k],
                    identities[positions[k]],
                    self.agents.teams@,
                )
        }
    }

    fn open_bulk_rename_wizard(&mut self)
        requires
            old(self).wf(),
        ensures
            old(self).bulk_rename_post(*final(self)),
            final(self).wf(),
    {
        let targets = naming_violations(self.agents.cli_family.as_str(), &self.agents.teams);
        if targets.len() == 0 {
            self.status = info_status("no naming violations");
            return;
        }
        self.bulk.operation = None;
        self.bulk.cancel = BulkCancel::Absent;
        self.bulk.modal = Some(BulkModal::RenameEdit { targets, selected: 0, editing: false });
    }

    /// What a finished operation on agents shows.
    pub open spec fn agent_done_text(operation: AgentOperation, result: CommandResult) -> Seq<char> {
        if operation is Reset && search::contains_text(
            result.stdout@,
            "No registrations removed."@,
        ) {
            "⚠ No registrations removed."@
        } else {
            match operation {
                AgentOperation::Spawn { .. } =>
                    "spawned --no-wait; agent is starting in another pane/window"@,
                AgentOperation::Rename { self_rename: true, .. } =>
                    "renamed; bridge restart required"@,
                AgentOperation::RenameTeam { .. } =>
                    "⚠ renamed team; members in other projects must rerun whoami"@,
                _ => if result.stdout@.len() == 0 {
                    "agent operation completed"@
                } else {
                    result.stdout@
                },
            }
        }
    }

    /// The dialog after an operation failed: a join under a name that was renamed may be forced.
    pub open spec fn modal_after_failure(
        self,
        operation: AgentOperation,
        result: CommandResult,
    ) -> Option<AgentModal> {
        match operation {
            AgentOperation::Join { team, agent, agent_type, project } => if search::contains_text(
                bulk_screen::failure_text(result),
                "was renamed to"@,
            ) {
                Some(AgentModal::JoinForce { team, agent, agent_type, project })
            } else {
                self.agents.modal
            },
            _ => self.agents.modal,
        }
    }

    /// What a finished operation on agents does, once the lists were read again.
    pub open spec fn agent_done_post(
        self,
        operation: AgentOperation,
        result: CommandResult,
        after: App,
    ) -> bool {
        if !result.success {
            &&& after == (App {
                agents: AgentsScreen {
                    modal: self.modal_after_failure(operation, result),
                    ..self.agents
                },
                status: after.status,
                ..self
            })
            &&& after.status.is_failure(bulk_screen::failure_text(result))
        } else {
            &&& after == (App {
                agents: AgentsScreen {
                    restart_needed: match operation {
                        AgentOperation::Rename { new, self_rename: true, .. } => Some(new),
                        _ => self.agents.restart_needed,
                    },
                    ..self.agents
                },
                status: after.status,
                ..self
            })
            &&& after.status.is_info(App::agent_done_text(operation, result))
        }
    }

    fn agent_failed(&mut self, operation: AgentOperation, result: &CommandResult)
        requires
            old(self).wf(),
            !result.success,
        ensures
            old(self).agent_done_post(operation, *result, *final(self)),
            final(self).wf(),
    {
        let detail = command_failure_detail(result);
        let renamed = contains(detail.as_str(), "was renamed to");
        if let AgentOperation::Join { team, agent, agent_type, project } = operation {
            if renamed {
                self.agents.modal = Some(
                    AgentModal::JoinForce { team, agent, agent_type, project },
                );
            }
        }
        self.status = validation_status(detail);
    }

    fn agent_succeeded(&mut self, operation: AgentOperation, result: &CommandResult)
        requires
            old(self).wf(),
            result.success,
        ensures
            old(self).agent_done_post(operation, *result, *final(self)),
            final(self).wf(),
    {
        let nothing_removed = contains(result.stdout.as_str(), "No registrations removed.");
        let output = if result.stdout.as_str().is_empty() {
            "agent operation completed".to_owned()
        } else {
            result.stdout.clone()
        };
        match operation {
            AgentOperation::Reset { .. } => {
                self.status = if nothing_removed {
                    info_status("⚠ No registrations removed.")
                } else {
                    notice(output)
                };
            },
            AgentOperation::Spawn { .. } => {
                self.status = info_status(
                    "spawned --no-wait; agent is starting in another pane/window",
                );
            },
            AgentOperation::Rename { new, self_rename, .. } => {
                if self_rename {
                    self.agents.restart_needed = Some(new);
                    self.status = info_status("renamed; bridge restart required");
                } else {
                    self.status = notice(output);
                }
            },
            AgentOperation::RenameTeam { .. } => {
                self.status = info_status(
                    "⚠ renamed team; members in other projects must rerun whoami",
                );
            },
            _ => {
                self.status = notice(output);
            },
        }
    }

    /// What the status line says about arrivals.
    pub open spec fn arrivals_text(count: nat) -> Seq<char> {
        strings::decimal(count) + " new message(s)"@
    }

    /// What arrivals do, once the lists were read again.
    pub open spec fn arrived_post(
        self,
        count: usize,
        relevant: usize,
        latest: Option<Message>,
        clock: Clock,
        after: App,
    ) -> bool {
        &&& after == (App { notices: after.notices, status: after.status, ..self })
        &&& after.status.is_info(App::arrivals_text(count as nat))
        &&& self.notices.arrivals_post(relevant as nat, latest, clock.instant, after.notices)
    }

    /// What a new audit does, once the figures around it were read.
    pub open spec fn audit_done_post(self, warning: Seq<char>, after: App) -> bool {
        &&& after == (App {
            audit: AuditScreen { detail: None, ..self.audit },
            status: after.status,
            ..self
        })
        &&& after.status.is_info(
            if warning.len() == 0 {
                "audit refreshed"@
            } else {
                "audit refreshed; warning: "@ + warning
            },
        )
    }

    /// What follows when everything of a plan was read.
    pub open spec fn finished(
        self,
        finish: Finish,
        clock: Clock,
        after: App,
        action: AppAction,
    ) -> bool {
        match finish {
            Finish::Nothing => after == self && action is Nothing,
            Finish::Status(line) => after == (App { status: line, ..self }) && action is Nothing,
            Finish::RequestAudit => if self.audit.report is None {
                self.request_audit_post(after, action)
            } else {
                after == self && action is Nothing
            },
            Finish::OpenSpawn => {
                &&& after == (App { agents: after.agents, ..self })
                &&& self.agents.spawn_from_members_post(self.room.active_team, after.agents)
                &&& action is Nothing
            },
            Finish::OpenRename { member } => {
                &&& after == (App { agents: after.agents, status: after.status, ..self })
                &&& exists|line: Option<StatusLine>|
                    #![trigger self.showing(line)]
                    self.agents.rename_from_members_post(
                        self.current_identity,
                        self.room.active_team,
                        member@,
                        after.agents,
                        line,
                    ) && after.status == self.showing(line).status
                &&& action is Nothing
            },
            Finish::OpenBulkReset => self.bulk_reset_post(after) && action is Nothing,
            Finish::OpenBulkRename => self.bulk_rename_post(after) && action is Nothing,
            Finish::HalfPage { forward } => after == (App {
                room: self.room.half_page(forward),
                ..self
            }) && action is Nothing,
            Finish::FirstMatch => {
                &&& after == (App { room: after.room, status: after.status, ..self })
                &&& exists|line: Option<StatusLine>|
                    #![trigger self.showing(line)]
                    self.room.first_match_post(after.room, line) && after.status == self.showing(
                        line,
                    ).status
                &&& action is Nothing
            },
            Finish::Arrivals { count, relevant, latest } => self.arrived_post(
                count,
                relevant,
                latest,
                clock,
                after,
            ) && action is Nothing,
            Finish::AgentDone { operation, result } => self.agent_done_post(
                operation,
                result,
                after,
            ) && action is Nothing,
            Finish::AuditDone { warning } => self.audit_done_post(warning@, after)
                && action is Nothing,
        }
    }

    fn finish_plan(&mut self, finish: Finish, clock: Clock) -> (action: AppAction)
        requires
            old(self).wf(),
            clock.wf(),
        ensures
            old(self).finished(finish, clock, *final(self), action),
            final(self).wf(),
            final(self).plan == old(self).plan,
    {
        match finish {
            Finish::Nothing => AppAction::Nothing,
            Finish::Status(line) => {
                self.status = line;
                AppAction::Nothing
            },
            Finish::RequestAudit => {
                if self.audit.report.is_none() {
                    self.request_audit_refresh()
                } else {
                    AppAction::Nothing
                }
            },
            Finish::OpenSpawn => {
                self.agents.open_spawn_from_members(&self.room.active_team);
                AppAction::Nothing
            },
            Finish::OpenRename { member } => {
                let line = self.agents.open_rename_from_members(
                    &self.current_identity,
                    &self.room.active_team,
                    member.as_str(),
                );
                proof {
                    let shown = old(self).showing(line);
                }
                self.show(line);
                AppAction::Nothing
            },
            Finish::OpenBulkReset => {
                self.open_bulk_reset_preview();
                AppAction::Nothing
            },
            Finish::OpenBulkRename => {
                self.open_bulk_rename_wizard();
                AppAction::Nothing
            },
            Finish::HalfPage { forward } => {
                self.room.move_half_page_loaded(forward);
                AppAction::Nothing
            },
            Finish::FirstMatch => {
                let line = self.room.select_first_match();
                proof {
                    let shown = old(self).showing(line);
                }
                self.show(line);
                AppAction::Nothing
            },
            Finish::Arrivals { count, relevant, latest } => {
                let number = decimal_usize(count);
                self.status = notice(concat2(number.as_str(), " new message(s)"));
                self.notices.notify_for_arrivals(relevant, latest, clock.instant);
                AppAction::Nothing
            },
            Finish::AgentDone { operation, result } => {
                if result.success {
                    self.agent_succeeded(operation, &result);
                } else {
                    self.agent_failed(operation, &result);
                }
                AppAction::Nothing
            },
            Finish::AuditDone { warning } => {
                self.audit.detail = None;
                self.status = if warning.as_str().is_empty() {
                    info_status("audit refreshed")
                } else {
                    notice(concat2("audit refreshed; warning: ", warning.as_str()))
                };
                AppAction::Nothing
            },
        }
    }

    /// The lists before something is read for a task: a team that is read anew is shown first.
    pub open spec fn prepared(self, task: Task, after: Room) -> bool {
        if task is ReloadTeam {
            self.room.activated(after)
        } else {
            after == self.room
        }
    }

    /// Going on with a plan: the next thing is read, or what follows all of them happens.
    pub open spec fn proceeds(
        self,
        tasks: Seq<Task>,
        finish: Finish,
        on_error: OnError,
        from_key: bool,
        clock: Clock,
        after: App,
        action: AppAction,
    ) -> bool {
        let due = needed_tasks(self.room, tasks);
        if due.len() == 0 {
            &&& after.plan.is_idle()
            &&& (App { plan: after.plan, ..self }).finished(finish, clock, after, action)
        } else {
            &&& after == (App { room: after.room, plan: after.plan, ..self })
            &&& self.prepared(due[0], after.room)
            &&& after.plan.tasks@ == due
            &&& after.plan.finish == finish
            &&& after.plan.on_error == on_error
            &&& after.plan.from_key == from_key
            &&& action == AppAction::Load(after.query_of(due[0]))
        }
    }

    /// Goes on with a plan.
    pub fn proceed(&mut self, plan: Plan, clock: Clock) -> (action: AppAction)
        requires
            old(self).wf(),
            clock.wf(),
        ensures
            old(self).proceeds(
                plan.tasks@,
                plan.finish,
                plan.on_error,
                plan.from_key,
                clock,
                *final(self),
                action,
            ),
            final(self).wf(),
    {
        let mut plan = plan;
        drop_unneeded(&self.room, &mut plan.tasks);
        if plan.tasks.len() == 0 {
            self.plan = Plan::idle();
            return self.finish_plan(plan.finish, clock);
        }
        if matches!(plan.tasks[0], Task::ReloadTeam) {
            self.room.activate_team();
        }
        let query = self.query_for(&plan.tasks[0]);
        self.plan = plan;
        AppAction::Load(query)
    }
}

} // verus!
