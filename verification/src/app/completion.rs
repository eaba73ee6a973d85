//! What the outcome of scripts, arrivals, the mouse and a new session do.

use crate::agents::{AgentFocus, AgentOperation};
use crate::app::bulk_screen::BulkStep;
use crate::app::display::{focus_after_click, MouseTarget};
use crate::app::drafts;
use crate::app::drafts::remove_draft;
use crate::app::model::{
    AgentsScreen, App, AppAction, AuditScreen, AuditTab, Background, BulkCancel, BulkScreen,
    Display, Finish, Focus, HealthScreen, InputMode, Notices, OnError, Plan, Room, Screen, Task,
    Writing,
};
use crate::app::room_load;
use crate::app::room_load::listed_position;
use crate::app::status;
use crate::app::status::{info_status, notice, validation_status, StatusLine};
use crate::audit::AuditReport;
use crate::bulk::BulkTarget;
use crate::clock::Clock;
use crate::config::Paths;
use crate::db::{Message, TeamSummary, ANALYTICS_WINDOW_DAYS};
use crate::exec;
use crate::exec::{exit_code_label, CommandResult};
use crate::health::HealthSnapshot;
use crate::input::MouseEventKind;
use crate::notify::BurstTracker;
use crate::state::PersistentState;
use crate::strings;
use crate::strings::{concat3, concat5, decimal_usize};
use vstd::prelude::*;

verus! {

/// The output of a command, or a text in its place.
pub open spec fn output_or(output: Seq<char>, fallback: Seq<char>) -> Seq<char> {
    if output.len() == 0 {
        fallback
    } else {
        output
    }
}

/// What a script that failed reports: its error output, or its exit code.
pub open spec fn script_failure(script: Seq<char>, result: CommandResult) -> Seq<char> {
    output_or(
        result.stderr@,
        script + " failed (exit "@ + exec::exit_code_text(result.exit_code) + ")"@,
    )
}

fn describe_failure(script: &str, result: &CommandResult) -> (text: String)
    ensures
        text@ == script_failure(script@, *result),
{
    if result.stderr.as_str().is_empty() {
        let code = exit_code_label(result.exit_code);
        let head = concat3(script, " failed (exit ", code.as_str());
        strings::concat2(head.as_str(), ")")
    } else {
        result.stderr.clone()
    }
}

/// What the status line says when messages were marked read.
pub open spec fn marked_text(label: Seq<char>, count: nat) -> Seq<char> {
    "marked read: all for "@ + label + " ("@ + strings::decimal(count) + " msgs)"@
}

/// The lists of the main screen are read again.
pub open spec fn main_reload() -> Seq<Task> {
    seq![Task::RefreshTeams, Task::ReloadTeam, Task::ReloadHistory]
}

fn main_reload_tasks() -> (tasks: Vec<Task>)
    ensures
        tasks@ == main_reload(),
{
    let mut tasks: Vec<Task> = Vec::new();
    tasks.push(Task::RefreshTeams);
    tasks.push(Task::ReloadTeam);
    tasks.push(Task::ReloadHistory);
    proof {
        assert(tasks@ =~= main_reload());
    }
    tasks
}

impl App {
    /// The outcome of a script starts reading; an error is shown.
    pub open spec fn settles(
        self,
        tasks: Seq<Task>,
        finish: Finish,
        clock: Clock,
        after: App,
        action: AppAction,
    ) -> bool {
        self.proceeds(tasks, finish, OnError::Show, false, clock, after, action)
    }

    /// The state after a message was sent, before the lists are read again: its draft is gone.
    pub open spec fn sent_state(self, clock: Clock, after: App) -> bool {
        &&& after == (App {
            writing: after.writing,
            display: self.display.on(Screen::Main),
            background: Background {
                state_dirty_since: Some(clock.instant),
                ..self.background
            },
            ..self
        })
        &&& after.writing.composer is None
        &&& match self.room.active_team {
            Some(team) => drafts::draft_map(after.writing.drafts@) == drafts::draft_map(
                self.writing.drafts@,
            ).remove(team@),
            None => after.writing.drafts == self.writing.drafts,
        }
    }

    /// What the outcome of sending does.
    pub open spec fn send_completed(
        self,
        result: CommandResult,
        clock: Clock,
        after: App,
        action: AppAction,
    ) -> bool {
        if result.success {
            exists|sent: App, line: StatusLine|
                #![trigger self.sent_state(clock, sent), line.is_info(output_or(result.stdout@, "sent"@))]
                self.sent_state(clock, sent) && line.is_info(output_or(result.stdout@, "sent"@))
                    && sent.settles(main_reload(), Finish::Status(line), clock, after, action)
        } else {
            self.objects(after, script_failure("send.sh"@, result)) && action is Nothing
        }
    }

    /// Takes the outcome of sending.
    pub fn complete_send(&mut self, result: &CommandResult, clock: Clock) -> (action: AppAction)
        requires
            old(self).wf(),
            clock.wf(),
        ensures
            old(self).send_completed(*result, clock, *final(self), action),
            final(self).wf(),
    {
        if !result.success {
            self.status = validation_status(describe_failure("send.sh", result));
            return AppAction::Nothing;
        }
        if let Some(team) = &self.room.active_team {
            let _ = remove_draft(&mut self.writing.drafts, team.as_str());
        }
        self.display.screen = Screen::Main;
        self.writing.composer = None;
        self.background.state_dirty_since = Some(clock.instant);
        let ghost sent = *self;
        assert(old(self).sent_state(clock, sent));
        let line = if result.stdout.as_str().is_empty() {
            info_status("sent")
        } else {
            notice(result.stdout.clone())
        };
        assert(line.is_info(output_or(result.stdout@, "sent"@)));
        self.proceed(
            Plan {
                tasks: main_reload_tasks(),
                finish: Finish::Status(line),
                on_error: OnError::Show,
                from_key: false,
            },
            clock,
        )
    }

    /// The line that tells how marking messages read ended.
    pub open spec fn mark_line(
        line: StatusLine,
        result: CommandResult,
        label: Seq<char>,
        unread_count: nat,
    ) -> bool {
        if result.success {
            line.is_info(marked_text(label, unread_count))
        } else {
            line.is_failure(script_failure("inbox.sh"@, result))
        }
    }

    /// What the outcome of marking messages read does.
    pub open spec fn mark_completed(
        self,
        result: CommandResult,
        label: Seq<char>,
        unread_count: nat,
        clock: Clock,
        after: App,
        action: AppAction,
    ) -> bool {
        exists|line: StatusLine| #[trigger]
            App::mark_line(line, result, label, unread_count) && self.settles(
                if self.display.screen == Screen::Audit {
                    main_reload().push(Task::AuditAnalytics)
                } else {
                    main_reload()
                },
                Finish::Status(line),
                clock,
                after,
                action,
            )
    }

    /// Takes the outcome of marking messages read.
    pub fn complete_mark_read(
        &mut self,
        result: &CommandResult,
        label: &str,
        unread_count: usize,
        clock: Clock,
    ) -> (action: AppAction)
        requires
            old(self).wf(),
            clock.wf(),
        ensures
            old(self).mark_completed(
                *result,
                label@,
                unread_count as nat,
                clock,
                *final(self),
                action,
            ),
            final(self).wf(),
    {
        let mut tasks = main_reload_tasks();
        if self.display.screen == Screen::Audit {
            tasks.push(Task::AuditAnalytics);
        }
        let line = if result.success {
            let count = decimal_usize(unread_count);
            notice(concat5("marked read: all for ", label, " (", count.as_str(), " msgs)"))
        } else {
            validation_status(describe_failure("inbox.sh", result))
        };
        assert(App::mark_line(line, *result, label@, unread_count as nat));
        self.proceed(
            Plan { tasks, finish: Finish::Status(line), on_error: OnError::Show, from_key: false },
            clock,
        )
    }

    /// The state after an audit that failed.
    pub open spec fn audit_failed(self, error: Seq<char>, after: App) -> bool {
        &&& after == (App {
            audit: AuditScreen { loading: false, ..self.audit },
            status: after.status,
            ..self
        })
        &&& after.status.is_failure(error)
    }

    /// Shows that the audit failed.
    pub fn complete_audit_error(&mut self, message: String)
        ensures
            old(self).audit_failed(message@, *final(self)),
            old(self).wf() ==> final(self).wf(),
    {
        self.audit.loading = false;
        self.status = validation_status(message);
    }

    /// What the outcome of an audit does; `report` is what its output holds.
    pub open spec fn audit_completed(
        self,
        result: CommandResult,
        report: Result<AuditReport, String>,
        clock: Clock,
        after: App,
        action: AppAction,
    ) -> bool {
        if !result.success {
            self.audit_failed(script_failure("agmsg-audit"@, result), after) && action is Nothing
        } else {
            match report {
                Err(error) => self.audit_failed(error@, after) && action is Nothing,
                Ok(report) => (App {
                    audit: AuditScreen { loading: false, report: Some(report), ..self.audit },
                    ..self
                }).proceeds(
                    seq![Task::AuditInsights, Task::AuditAnalytics],
                    Finish::AuditDone { warning: result.stderr },
                    OnError::ShowAudit,
                    false,
                    clock,
                    after,
                    action,
                ),
            }
        }
    }

    /// Takes the outcome of an audit; `report` is what its output holds.
    pub fn complete_audit(
        &mut self,
        result: &CommandResult,
        report: Result<AuditReport, String>,
        clock: Clock,
    ) -> (action: AppAction)
        requires
            old(self).wf(),
            clock.wf(),
        ensures
            old(self).audit_completed(*result, report, clock, *final(self), action),
            final(self).wf(),
    {
        if !result.success {
            self.complete_audit_error(describe_failure("agmsg-audit", result));
            return AppAction::Nothing;
        }
        match report {
            Err(error) => {
                self.complete_audit_error(error);
                AppAction::Nothing
            },
            Ok(report) => {
                self.audit.loading = false;
                self.audit.report = Some(report);
                let mut tasks: Vec<Task> = Vec::new();
                tasks.push(Task::AuditInsights);
                tasks.push(Task::AuditAnalytics);
                proof {
                    assert(tasks@ =~= seq![Task::AuditInsights, Task::AuditAnalytics]);
                }
                self.proceed(
                    Plan {
                        tasks,
                        finish: Finish::AuditDone { warning: result.stderr.clone() },
                        on_error: OnError::ShowAudit,
                        from_key: false,
                    },
                    clock,
                )
            },
        }
    }

    /// Takes a new snapshot of the health.
    pub fn complete_health(&mut self, snapshot: HealthSnapshot)
        ensures
            *final(self) == (App {
                health: old(self).health.refreshed(snapshot),
                status: final(self).status,
                ..*old(self)
            }),
            final(self).status.is_info("health refreshed"@),
            old(self).wf() ==> final(self).wf(),
    {
        self.health.take_snapshot(snapshot);
        self.status = info_status("health refreshed");
    }

    /// Shows that the health could not be found out.
    pub fn complete_health_error(&mut self, message: String)
        ensures
            *final(self) == (App {
                health: HealthScreen { loading: false, ..old(self).health },
                status: final(self).status,
                ..*old(self)
            }),
            final(self).status.is_failure(message@),
            old(self).wf() ==> final(self).wf(),
    {
        self.health.loading = false;
        self.status = validation_status(message);
    }

    /// What the outcome of an operation on agents does.
    pub open spec fn agent_completed(
        self,
        operation: AgentOperation,
        result: CommandResult,
        clock: Clock,
        after: App,
        action: AppAction,
    ) -> bool {
        self.proceeds(
            App::agent_reload(),
            Finish::AgentDone { operation, result },
            OnError::RetryAgent,
            false,
            clock,
            after,
            action,
        )
    }

    /// Takes the outcome of an operation on agents: the lists are read again first, and once more
    /// if that fails.
    pub fn complete_agent_operation(
        &mut self,
        operation: AgentOperation,
        result: CommandResult,
        clock: Clock,
    ) -> (action: AppAction)
        requires
            old(self).wf(),
            clock.wf(),
        ensures
            old(self).agent_completed(operation, result, clock, *final(self), action),
            final(self).wf(),
    {
        self.proceed(
            Plan {
                tasks: App::agent_reload_tasks(),
                finish: Finish::AgentDone { operation, result },
                on_error: OnError::RetryAgent,
                from_key: false,
            },
            clock,
        )
    }

    /// What an operation on agents that could not be run does.
    pub open spec fn agent_error_post(
        self,
        error: String,
        clock: Clock,
        after: App,
        action: AppAction,
    ) -> bool {
        exists|line: StatusLine|
            line.is_failure(error@) && #[trigger] self.proceeds(
                App::agent_reload(),
                Finish::Status(line),
                OnError::ShowAfter { first: error },
                false,
                clock,
                after,
                action,
            )
    }

    /// Shows that an operation on agents could not be run, once the lists were read again.
    pub fn complete_agent_error(&mut self, error: String, clock: Clock) -> (action: AppAction)
        requires
            old(self).wf(),
            clock.wf(),
        ensures
            old(self).agent_error_post(error, clock, *final(self), action),
            final(self).wf(),
    {
        let line = validation_status(error.clone());
        self.proceed(
            Plan {
                tasks: App::agent_reload_tasks(),
                finish: Finish::Status(line),
                on_error: OnError::ShowAfter { first: error },
                from_key: false,
            },
            clock,
        )
    }

    /// What the outcome of one target of a bulk operation does.
    pub open spec fn bulk_target_completed(
        self,
        target: BulkTarget,
        result: Result<CommandResult, String>,
        clock: Clock,
        after: App,
        action: AppAction,
    ) -> bool {
        exists|bulk: BulkScreen, line: Option<StatusLine>, step: BulkStep| #[trigger]
            self.bulk.completion_post(target, result, bulk, line, step) && (App {
                bulk,
                ..self
            }).showing(line).bulk_step_post(step, OnError::Show, false, clock, after, action)
    }

    /// Takes the outcome of one target of a bulk operation.
    pub fn complete_bulk_target(
        &mut self,
        target: BulkTarget,
        result: Result<CommandResult, String>,
        clock: Clock,
    ) -> (action: AppAction)
        requires
            old(self).wf(),
            old(self).bulk.awaits_target(target),
            clock.wf(),
        ensures
            old(self).bulk_target_completed(target, result, clock, *final(self), action),
            final(self).wf(),
    {
        let (line, step) = self.bulk.complete_target(target, result);
        let ghost bulk = self.bulk;
        assert(old(self).bulk.completion_post(target, result, bulk, line, step));
        self.show(line);
        self.take_bulk_step(step, OnError::Show, false, clock)
    }

    /// What arrivals do: they are sorted in, and the lists are read again.
    pub open spec fn messages_received(
        self,
        messages: Seq<Message>,
        clock: Clock,
        after: App,
        action: AppAction,
    ) -> bool {
        let team = self.room.active_team;
        if messages.len() == 0 {
            after == self && action is Nothing
        } else {
            exists|room: Room| #[trigger]
                self.room.arrivals_post(messages, room) && (App { room, ..self }).settles(
                    seq![Task::RefreshTeams, Task::RefreshMembers],
                    Finish::Arrivals {
                        count: messages.len() as usize,
                        relevant: room_load::relevant_count(messages, team) as usize,
                        latest: room_load::latest_relevant(messages, team),
                    },
                    clock,
                    after,
                    action,
                )
        }
    }

    /// Takes arrivals.
    pub fn receive_new_messages(&mut self, messages: Vec<Message>, clock: Clock) -> (action:
        AppAction)
        requires
            old(self).wf(),
            clock.wf(),
        ensures
            old(self).messages_received(messages@, clock, *final(self), action),
            final(self).wf(),
    {
        let count: usize = messages.len();
        if count == 0 {
            return AppAction::Nothing;
        }
        let (relevant, latest) = self.room.take_arrivals(&messages);
        let ghost room = self.room;
        assert(old(self).room.arrivals_post(messages@, room));
        let mut tasks: Vec<Task> = Vec::new();
        tasks.push(Task::RefreshTeams);
        tasks.push(Task::RefreshMembers);
        proof {
            assert(tasks@ =~= seq![Task::RefreshTeams, Task::RefreshMembers]);
            room_load::relevant_count_bounded(messages@, old(self).room.active_team);
        }
        self.proceed(
            Plan {
                tasks,
                finish: Finish::Arrivals { count, relevant, latest },
                on_error: OnError::Show,
                from_key: false,
            },
            clock,
        )
    }

    /// What the mouse does: on the main screen it gives a list the focus and resizes the sidebar,
    /// and a new width counts for the saved state.
    pub open spec fn after_mouse(
        self,
        kind: MouseEventKind,
        hit: MouseTarget,
        dragged_pct: u16,
        now: u64,
    ) -> App {
        if self.display.screen != Screen::Main {
            self
        } else {
            let display = self.display.after_mouse(kind, hit, dragged_pct);
            App {
                display,
                room: Room {
                    focus: crate::app::display::clicked_focus(self.room.focus, kind, hit),
                    ..self.room
                },
                background: if display.sidebar_pct != self.display.sidebar_pct {
                    Background { state_dirty_since: Some(now), ..self.background }
                } else {
                    self.background
                },
                ..self
            }
        }
    }

    /// Applies the mouse: what it points at, and the width that the sidebar is dragged to.
    pub fn handle_mouse(
        &mut self,
        kind: MouseEventKind,
        hit: MouseTarget,
        dragged_pct: u16,
        now: u64,
    )
        ensures
            *final(self) == old(self).after_mouse(kind, hit, dragged_pct, now),
            old(self).wf() ==> final(self).wf(),
    {
        if self.display.screen != Screen::Main {
            return;
        }
        let before = self.display.sidebar_pct;
        self.display.mouse(kind, hit, dragged_pct);
        self.room.focus = focus_after_click(self.room.focus, kind, hit);
        if self.display.sidebar_pct != before {
            self.background.state_dirty_since = Some(now);
        }
    }

    /// The width of the sidebar, kept within its bounds.
    pub open spec fn clamped_pct(pct: u16, min: u16, max: u16) -> u16 {
        if pct < min {
            min
        } else if pct > max {
            max
        } else {
            pct
        }
    }

    /// The team that a session starts with: the last one, or the first.
    pub open spec fn first_selected(
        teams: Seq<TeamSummary>,
        last: Option<String>,
        index: int,
    ) -> bool {
        if last is Some && room_load::lists_team(teams, last->Some_0@) {
            room_load::first_listed(teams, last->Some_0@, index)
        } else {
            index == 0
        }
    }

    /// The state of a new session before anything is read.
    pub open spec fn is_new(
        self,
        paths: Paths,
        family: String,
        identity: Option<String>,
        teams: Vec<TeamSummary>,
        saved: PersistentState,
        bounds: (u16, u16),
    ) -> bool {
        &&& self.paths == paths
        &&& self.current_identity == identity
        &&& self.status.is_info("ready"@)
        &&& self.display == (Display {
            screen: Screen::Main,
            help_return_screen: Screen::Main,
            help_scroll: 0,
            sidebar_pct: App::clamped_pct(saved.sidebar_pct, bounds.0, bounds.1),
            resize_dragging: false,
        })
        &&& self.room == (Room {
            teams,
            selected_team: self.room.selected_team,
            active_team: self.room.active_team,
            members: self.room.members,
            selected_member: 0,
            messages: self.room.messages,
            selected_message: 0,
            focus: Focus::Teams,
            has_more_history: false,
            expanded_messages: self.room.expanded_messages,
            member_filter: None,
            search_query: None,
            input_mode: InputMode::Normal,
        })
        &&& App::first_selected(teams@, saved.last_team, self.room.selected_team as int)
        &&& self.room.active_team is None
        &&& self.room.members@.len() == 0
        &&& self.room.messages@.len() == 0
        &&& self.room.expanded_messages@.len() == 0
        &&& self.member_info is None
        &&& self.writing == (Writing { composer: None, drafts: saved.drafts })
        &&& self.audit == (AuditScreen {
            report: None,
            loading: false,
            tab: AuditTab::Dashboard,
            pair_window_days: ANALYTICS_WINDOW_DAYS,
            history: self.audit.history,
            pair_matrices: self.audit.pair_matrices,
            zombies: self.audit.zombies,
            stale_unreads: self.audit.stale_unreads,
            team_index: 0,
            selected: 0,
            detail: None,
        })
        &&& self.audit.history@.len() == 0
        &&& self.audit.pair_matrices@.len() == 0
        &&& self.audit.zombies@.len() == 0
        &&& self.audit.stale_unreads@.len() == 0
        &&& self.health == (HealthScreen {
            snapshot: None,
            loading: false,
            window_days: 7,
            team_index: 0,
        })
        &&& self.bulk == (BulkScreen {
            filter: None,
            modal: None,
            operation: None,
            cancel: BulkCancel::Absent,
        })
        &&& self.agents == (AgentsScreen {
            cli_family: family,
            teams: self.agents.teams,
            team_index: 0,
            identity_index: 0,
            focus: AgentFocus::Identities,
            modal: None,
            identity_info: None,
            restart_needed: None,
        })
        &&& self.agents.teams@.len() == 0
        &&& self.notices == (Notices {
            settings: saved.notify_settings,
            burst_tracker: self.notices.burst_tracker,
            burst_alert: None,
            pending: self.notices.pending,
            popup: None,
            delivery_warned: false,
        })
        &&& self.notices.burst_tracker.events@.len() == 0
        &&& self.notices.pending@.len() == 0
        &&& self.background == (Background {
            in_flight: None,
            spinner_frame: 0,
            poll_offline: false,
            state_dirty_since: None,
        })
        &&& self.plan.is_idle()
    }

    fn new(
        paths: Paths,
        family: String,
        identity: Option<String>,
        teams: Vec<TeamSummary>,
        saved: PersistentState,
        bounds: (u16, u16),
    ) -> (app: App)
        requires
            saved.usable(),
        ensures
            app.is_new(paths, family, identity, teams, saved, bounds),
            app.wf(),
    {
        let selected_team: usize = match &saved.last_team {
            Some(last) => match listed_position(&teams, last.as_str()) {
                Some(index) => {
                    assert(teams@[index as int].name@ == last@);
                    index
                },
                None => 0,
            },
            None => 0,
        };
        let sidebar_pct: u16 = if saved.sidebar_pct < bounds.0 {
            bounds.0
        } else if saved.sidebar_pct > bounds.1 {
            bounds.1
        } else {
            saved.sidebar_pct
        };
        App {
            paths,
            current_identity: identity,
            status: info_status("ready"),
            display: Display {
                screen: Screen::Main,
                help_return_screen: Screen::Main,
                help_scroll: 0,
                sidebar_pct,
                resize_dragging: false,
            },
            room: Room {
                teams,
                selected_team,
                active_team: None,
                members: Vec::new(),
                selected_member: 0,
                messages: Vec::new(),
                selected_message: 0,
                focus: Focus::Teams,
                has_more_history: false,
                expanded_messages: Vec::new(),
                member_filter: None,
                search_query: None,
                input_mode: InputMode::Normal,
            },
            member_info: None,
            writing: Writing { composer: None, drafts: saved.drafts },
            audit: AuditScreen {
                report: None,
                loading: false,
                tab: AuditTab::Dashboard,
                pair_window_days: ANALYTICS_WINDOW_DAYS,
                history: Vec::new(),
                pair_matrices: Vec::new(),
                zombies: Vec::new(),
                stale_unreads: Vec::new(),
                team_index: 0,
                selected: 0,
                detail: None,
            },
            health: HealthScreen { snapshot: None, loading: false, window_days: 7, team_index: 0 },
            bulk: BulkScreen {
                filter: None,
                modal: None,
                operation: None,
                cancel: BulkCancel::Absent,
            },
            agents: AgentsScreen {
                cli_family: family,
                teams: Vec::new(),
                team_index: 0,
                identity_index: 0,
                focus: AgentFocus::Identities,
                modal: None,
                identity_info: None,
                restart_needed: None,
            },
            notices: Notices {
                settings: saved.notify_settings,
                burst_tracker: BurstTracker::new(),
                burst_alert: None,
                pending: Vec::new(),
                popup: None,
                delivery_warned: false,
            },
            background: Background {
                in_flight: None,
                spinner_frame: 0,
                poll_offline: false,
                state_dirty_since: None,
            },
            plan: Plan::idle(),
        }
    }

    /// What a new session says once its team was read: a missing theme, or a missing identity.
    pub open spec fn greets(
        identity: Option<String>,
        missing_theme: Option<String>,
        finish: Finish,
    ) -> bool {
        match missing_theme {
            Some(theme) => finish matches Finish::Status(line) && line.is_info(
                "⚠ AGMSG_TUI_THEME="@ + theme@ + " not found in syntect themes, using default"@,
            ),
            None => match identity {
                Some(_) => finish is Nothing,
                None => finish matches Finish::Status(line) && line.is_info(
                    "⚠ AGMSG_IDENTITY unset: self-guard / own-marker / from-default disabled"@,
                ),
            },
        }
    }

    /// Starts a session: `family` is the lead family of CLI types, `saved` is what the last session
    /// left, and `missing_theme` is a theme that was asked for and is not there. An error while
    /// reading the team ends the session.
    pub fn load(
        paths: Paths,
        family: String,
        identity: Option<String>,
        teams: Vec<TeamSummary>,
        saved: PersistentState,
        bounds: (u16, u16),
        missing_theme: Option<String>,
        clock: Clock,
    ) -> (session: (App, AppAction))
        requires
            saved.usable(),
            bounds.0 <= bounds.1,
            clock.wf(),
        ensures
            exists|start: App, finish: Finish|
                #![trigger App::greets(identity, missing_theme, finish), start.is_new(
                    paths,
                    family,
                    identity,
                    teams,
                    saved,
                    bounds,
                )]
                App::greets(identity, missing_theme, finish) && start.is_new(
                    paths,
                    family,
                    identity,
                    teams,
                    saved,
                    bounds,
                ) && start.proceeds(
                    seq![Task::ReloadTeam, Task::ReloadHistory],
                    finish,
                    OnError::Raise,
                    false,
                    clock,
                    session.0,
                    session.1,
                ),
            session.0.wf(),
    {
        let finish = match &missing_theme {
            Some(theme) => Finish::Status(
                notice(
                    concat3(
                        "⚠ AGMSG_TUI_THEME=",
                        theme.as_str(),
                        " not found in syntect themes, using default",
                    ),
                ),
            ),
            None => match &identity {
                Some(_) => Finish::Nothing,
                None => Finish::Status(
                    info_status(
                        "⚠ AGMSG_IDENTITY unset: self-guard / own-marker / from-default disabled",
                    ),
                ),
            },
        };
        assert(App::greets(identity, missing_theme, finish));
        let mut app = App::new(paths, family, identity, teams, saved, bounds);
        let ghost start = app;
        assert(start.is_new(paths, family, identity, teams, saved, bounds));
        let mut tasks: Vec<Task> = Vec::new();
        tasks.push(Task::ReloadTeam);
        tasks.push(Task::ReloadHistory);
        proof {
            assert(tasks@ =~= seq![Task::ReloadTeam, Task::ReloadHistory]);
        }
        let action = app.proceed(
            Plan { tasks, finish, on_error: OnError::Raise, from_key: false },
            clock,
        );
        (app, action)
    }
}

} // verus!
