//! What the event loop does with the outcome of a script and with its timers.

use crate::agents::AgentOperation;
use crate::app::bulk_screen;
use crate::app::bulk_screen::command_failure_detail;
use crate::app::model::{App, AppAction, Background, Screen};
use crate::bulk::run::BulkRunState;
use crate::bulk::BulkTarget;
use crate::clock::Clock;
use crate::exec::CommandResult;
use vstd::prelude::*;

verus! {

/// How often the audit is read again while it is shown, in seconds.
pub const AUDIT_REFRESH_PERIOD: u64 = 60;

/// How often the health is found out again while it is shown, in seconds.
pub const HEALTH_REFRESH_PERIOD: u64 = 60;

/// How long a frame of the spinner is shown, in milliseconds.
pub const SPINNER_PERIOD: u64 = 100;

/// The outcome of a script that ran in the background; an error says why it could not run.
#[derive(Debug)]
#[allow(inconsistent_fields)]
pub enum Completion {
    Send { outcome: Result<CommandResult, String> },
    MarkRead { outcome: Result<CommandResult, String>, label: String, unread_count: usize },
    Agent { outcome: Result<CommandResult, String>, operation: AgentOperation },
    Bulk { outcome: Result<CommandResult, String> },
}

impl App {
    /// The state in which nothing runs in the background.
    pub open spec fn idle(self) -> App {
        App {
            background: Background { in_flight: None, spinner_frame: 0, ..self.background },
            ..self
        }
    }

    /// The target that the bulk operation waits for.
    pub open spec fn awaited_target(self) -> Option<BulkTarget> {
        match self.bulk.operation {
            Some(operation) => if operation.state is Running {
                operation.current()
            } else {
                None
            },
            None => None,
        }
    }

    /// What the outcome of a target of the bulk operation does. Where no operation waits for one,
    /// only a failure is shown.
    pub open spec fn bulk_outcome_post(
        self,
        outcome: Result<CommandResult, String>,
        clock: Clock,
        after: App,
        action: AppAction,
    ) -> bool {
        match self.awaited_target() {
            Some(target) => self.bulk_target_completed(target, outcome, clock, after, action),
            None => {
                &&& action is Nothing
                &&& if bulk_screen::succeeded(outcome) {
                    after == self
                } else {
                    self.objects(after, bulk_screen::failed_with(outcome))
                }
            },
        }
    }

    /// What the outcome of a script does in a state in which nothing runs in the background.
    pub open spec fn outcome_post(
        self,
        completion: Completion,
        clock: Clock,
        after: App,
        action: AppAction,
    ) -> bool {
        match completion {
            Completion::Send { outcome } => match outcome {
                Ok(result) => self.send_completed(result, clock, after, action),
                Err(error) => self.objects(after, error@) && action is Nothing,
            },
            Completion::MarkRead { outcome, label, unread_count } => match outcome {
                Ok(result) => self.mark_completed(
                    result,
                    label@,
                    unread_count as nat,
                    clock,
                    after,
                    action,
                ),
                Err(error) => self.objects(after, error@) && action is Nothing,
            },
            Completion::Agent { outcome, operation } => match outcome {
                Ok(result) => self.agent_completed(operation, result, clock, after, action),
                Err(error) => self.agent_error_post(error, clock, after, action),
            },
            Completion::Bulk { outcome } => self.bulk_outcome_post(outcome, clock, after, action),
        }
    }

    fn take_bulk_outcome(&mut self, outcome: Result<CommandResult, String>, clock: Clock) -> (action:
        AppAction)
        requires
            old(self).wf(),
            clock.wf(),
        ensures
            old(self).bulk_outcome_post(outcome, clock, *final(self), action),
            final(self).wf(),
    {
        let awaited = match &self.bulk.operation {
            Some(operation) => match &operation.state {
                BulkRunState::Running => match operation.current_target() {
                    Some(target) => Some(target.clone()),
                    None => None,
                },
                _ => None,
            },
            None => None,
        };
        match awaited {
            Some(target) => self.complete_bulk_target(target, outcome, clock),
            None => {
                match &outcome {
                    Ok(result) => if !result.success {
                        let detail = command_failure_detail(result);
                        self.set_error(detail.as_str());
                    },
                    Err(error) => {
                        self.set_error(error.as_str());
                    },
                }
                AppAction::Nothing
            },
        }
    }

    /// Takes the outcome of the script that ran in the background: nothing runs any more, and then
    /// the outcome counts.
    pub fn complete_command(&mut self, completion: Completion, clock: Clock) -> (action: AppAction)
        requires
            old(self).wf(),
            clock.wf(),
        ensures
            old(self).idle().outcome_post(completion, clock, *final(self), action),
            final(self).wf(),
    {
        self.finish_operation();
        match completion {
            Completion::Send { outcome } => match outcome {
                Ok(result) => self.complete_send(&result, clock),
                Err(error) => {
                    self.set_error(error.as_str());
                    AppAction::Nothing
                },
            },
            Completion::MarkRead { outcome, label, unread_count } => match outcome {
                Ok(result) => self.complete_mark_read(&result, label.as_str(), unread_count, clock),
                Err(error) => {
                    self.set_error(error.as_str());
                    AppAction::Nothing
                },
            },
            Completion::Agent { outcome, operation } => match outcome {
                Ok(result) => self.complete_agent_operation(operation, result, clock),
                Err(error) => self.complete_agent_error(error, clock),
            },
            Completion::Bulk { outcome } => self.take_bulk_outcome(outcome, clock),
        }
    }

    /// Takes a tick of the audit's timer: the audit is read again only while it is shown.
    pub fn audit_tick(&mut self) -> (action: AppAction)
        ensures
            if old(self).display.screen == Screen::Audit {
                old(self).request_audit_post(*final(self), action)
            } else {
                *final(self) == *old(self) && action is Nothing
            },
            old(self).wf() ==> final(self).wf(),
    {
        if self.display.screen == Screen::Audit {
            self.request_audit_refresh()
        } else {
            AppAction::Nothing
        }
    }

    /// Takes a tick of the health's timer: it is found out again only while it is shown.
    pub fn health_tick(&mut self) -> (action: AppAction)
        ensures
            if old(self).display.screen == Screen::Health {
                old(self).request_health_post(*final(self), action)
            } else {
                *final(self) == *old(self) && action is Nothing
            },
            old(self).wf() ==> final(self).wf(),
    {
        if self.display.screen == Screen::Health {
            self.request_health_refresh()
        } else {
            AppAction::Nothing
        }
    }
}

} // verus!
