//! Bulk operations at work: what keys do while one runs, and what follows each of its targets.

use crate::app::model::{BulkCancel, BulkScreen};
use crate::app::status;
use crate::app::status::{info_status, last_position, step_down, validation_status, StatusLine};
use crate::bulk::run;
use crate::bulk::target;
use crate::bulk::{BulkKind, BulkOperation, BulkRunState, BulkTarget};
use crate::exec;
use crate::exec::{exit_code_label, CommandResult};
use crate::input::{KeyCode, KeyEvent};
use crate::strings;
use crate::strings::{concat3, concat5, decimal_usize};
use vstd::prelude::*;

verus! {

/// What follows a key or a finished target.
#[derive(Debug)]
pub enum BulkStep {
    /// Nothing more is to be done.
    Wait,
    /// This target is to be worked on.
    Run { target: BulkTarget, force_despawn: bool },
    /// The operation ended; what it changed is to be read again.
    Finished { kind: BulkKind },
}

/// What a failed command reports.
pub open spec fn failure_text(result: CommandResult) -> Seq<char> {
    if result.stderr@.len() > 0 {
        result.stderr@
    } else if result.stdout@.len() > 0 {
        result.stdout@
    } else {
        "agent script failed (exit "@ + exec::exit_code_text(result.exit_code) + ")"@
    }
}

/// What a failed command reports: its error output, else its output, else its exit code.
pub fn command_failure_detail(result: &CommandResult) -> (text: String)
    ensures
        text@ == failure_text(*result),
{
    if !result.stderr.as_str().is_empty() {
        result.stderr.clone()
    } else if !result.stdout.as_str().is_empty() {
        result.stdout.clone()
    } else {
        let code = exit_code_label(result.exit_code);
        concat3("agent script failed (exit ", code.as_str(), ")")
    }
}

/// What the status line says when an operation has ended.
pub open spec fn summary_text(kind: BulkKind, completed: nat, failed: nat) -> Seq<char> {
    let done = strings::decimal(completed);
    let lost = strings::decimal(failed);
    match kind {
        BulkKind::MarkRead => "marked "@ + done + " msgs as read ("@ + lost + " failed)"@,
        BulkKind::Reset => "reset "@ + done + " identities ("@ + lost + " failed)"@,
        BulkKind::Rename => "renamed "@ + done + " identities ("@ + lost + " failed)"@,
        BulkKind::Despawn => "despawned "@ + done + " agents ("@ + lost + " failed)"@,
    }
}

fn summary(kind: BulkKind, completed: usize, failed: usize) -> (text: String)
    ensures
        text@ == summary_text(kind, completed as nat, failed as nat),
{
    let done = decimal_usize(completed);
    let lost = decimal_usize(failed);
    let (verb, noun) = match kind {
        BulkKind::MarkRead => ("marked ", " msgs as read ("),
        BulkKind::Reset => ("reset ", " identities ("),
        BulkKind::Rename => ("renamed ", " identities ("),
        BulkKind::Despawn => ("despawned ", " agents ("),
    };
    concat5(verb, done.as_str(), noun, lost.as_str(), " failed)")
}

/// The line that tells how an operation ended: an error if any target failed.
pub open spec fn summarises(line: Option<StatusLine>, operation: BulkOperation) -> bool {
    match line {
        Some(line) => line.text@ == summary_text(
            operation.kind,
            operation.completed_units as nat,
            operation.failed_units as nat,
        ) && line.is_error == (operation.failed_units > 0),
        None => false,
    }
}

/// The step works on the current target.
pub open spec fn runs_current(operation: BulkOperation, step: BulkStep) -> bool {
    match operation.current() {
        Some(current) => step matches BulkStep::Run { target, force_despawn } && target == current
            && force_despawn == operation.force_despawn,
        None => step is Wait,
    }
}

/// The operation `running` has ended as `after`.
pub open spec fn ended(
    running: BulkOperation,
    aborted: bool,
    after: BulkOperation,
    line: Option<StatusLine>,
    step: BulkStep,
) -> bool {
    &&& after == (BulkOperation { state: BulkRunState::Complete { aborted }, ..running })
    &&& summarises(line, running)
    &&& step matches BulkStep::Finished { kind } && kind == running.kind
}

/// The operation goes on with its next target; without one it ends.
pub open spec fn continued(
    running: BulkOperation,
    after: BulkOperation,
    line: Option<StatusLine>,
    step: BulkStep,
) -> bool {
    if running.current() is Some {
        after == running && line is None && runs_current(running, step)
    } else {
        ended(running, false, after, line, step)
    }
}

/// The operation after its current target was given up.
pub open spec fn skipped(operation: BulkOperation) -> BulkOperation {
    BulkOperation {
        failed_units: (operation.failed_units + operation.current_units()) as usize,
        next_index: (operation.next_index + 1) as usize,
        force_despawn: false,
        state: BulkRunState::Running,
        ..operation
    }
}

/// What a key does to an operation.
pub open spec fn operation_key_post(
    before: BulkOperation,
    key: KeyEvent,
    after: BulkOperation,
    line: Option<StatusLine>,
    step: BulkStep,
) -> bool {
    match before.state {
        BulkRunState::Running => match key.code {
            KeyCode::Esc | KeyCode::Char('q') => {
                &&& after == (BulkOperation { cancel_requested: true, ..before })
                &&& status::tells(line, "bulk abort requested; cancelling current command"@)
                &&& step is Wait
            },
            _ => after == before && line is None && step is Wait,
        },
        BulkRunState::AwaitDecision { .. } => match key.code {
            KeyCode::Char('c') | KeyCode::Char('C') => continued(
                skipped(before),
                after,
                line,
                step,
            ),
            KeyCode::Char('a') | KeyCode::Char('A') | KeyCode::Esc => ended(
                skipped(before),
                true,
                after,
                line,
                step,
            ),
            _ => after == before && line is None && step is Wait,
        },
        BulkRunState::AwaitForce { .. } => match key.code {
            KeyCode::Char('y') | KeyCode::Char('Y') | KeyCode::Char('f') => {
                &&& after == (BulkOperation {
                    force_despawn: true,
                    state: BulkRunState::Running,
                    ..before
                })
                &&& line is None
                &&& runs_current(after, step)
            },
            KeyCode::Char('n') | KeyCode::Char('N') | KeyCode::Esc => ended(
                skipped(before),
                true,
                after,
                line,
                step,
            ),
            _ => after == before && line is None && step is Wait,
        },
        BulkRunState::Complete { .. } => {
            let count = before.results@.len() as int;
            &&& line is None
            &&& step is Wait
            &&& match key.code {
                KeyCode::Char('j') | KeyCode::Down => after == (BulkOperation {
                    results_cursor: status::stepped_down(
                        before.results_cursor as int,
                        count,
                    ) as usize,
                    ..before
                }),
                KeyCode::Char('k') | KeyCode::Up => after == (BulkOperation {
                    results_cursor: if before.results_cursor == 0 {
                        0
                    } else {
                        (before.results_cursor - 1) as usize
                    },
                    ..before
                }),
                KeyCode::Char('g') => after == (BulkOperation { results_cursor: 0, ..before }),
                KeyCode::Char('G') => after == (BulkOperation {
                    results_cursor: status::last_index(count) as usize,
                    ..before
                }),
                _ => after == before,
            }
        },
    }
}

/// The key closes an operation that has ended.
pub open spec fn closes_result(operation: BulkOperation, key: KeyEvent) -> bool {
    operation.state is Complete && (key.code == KeyCode::Esc || key.code == KeyCode::Enter
        || key.code == KeyCode::Char('q'))
}

fn run_current(operation: &BulkOperation) -> (step: BulkStep)
    ensures
        runs_current(*operation, step),
{
    match operation.current_target() {
        Some(target) => BulkStep::Run {
            target: target.clone(),
            force_despawn: operation.force_despawn,
        },
        None => BulkStep::Wait,
    }
}

fn end_operation(operation: &mut BulkOperation, aborted: bool) -> (result: (
    Option<StatusLine>,
    BulkStep,
))
    requires
        old(operation).wf(),
    ensures
        ended(*old(operation), aborted, *final(operation), result.0, result.1),
        final(operation).wf(),
{
    operation.finish(aborted);
    let text = summary(operation.kind, operation.completed_units, operation.failed_units);
    let line = StatusLine { text, is_error: operation.failed_units > 0 };
    (Some(line), BulkStep::Finished { kind: operation.kind })
}

fn continue_operation(operation: &mut BulkOperation) -> (result: (Option<StatusLine>, BulkStep))
    requires
        old(operation).wf(),
    ensures
        continued(*old(operation), *final(operation), result.0, result.1),
        final(operation).wf(),
{
    if operation.current_target().is_some() {
        return (None, run_current(operation));
    }
    end_operation(operation, false)
}

fn skip_current(operation: &mut BulkOperation)
    requires
        old(operation).wf(),
        old(operation).awaits(),
    ensures
        *final(operation) == skipped(*old(operation)),
        final(operation).wf(),
{
    let count: usize = operation.targets.len();
    assert(operation.next_index < count);
    proof {
        run::progress_within_total(*operation);
    }
    operation.skip_failed_and_continue();
    proof {
        run::operation_accounting(*old(operation), *operation);
    }
}

/// Applies a key to an operation that is not closed by it.
pub fn operation_key(operation: &mut BulkOperation, key: KeyEvent) -> (result: (
    Option<StatusLine>,
    BulkStep,
))
    requires
        old(operation).wf(),
    ensures
        operation_key_post(*old(operation), key, *final(operation), result.0, result.1),
        final(operation).wf(),
{
    match operation.state {
        BulkRunState::Running => match key.code {
            KeyCode::Esc | KeyCode::Char('q') => {
                operation.cancel_requested = true;
                (
                    Some(info_status("bulk abort requested; cancelling current command")),
                    BulkStep::Wait,
                )
            },
            _ => (None, BulkStep::Wait),
        },
        BulkRunState::AwaitDecision { .. } => match key.code {
            KeyCode::Char('c') | KeyCode::Char('C') => {
                skip_current(operation);
                continue_operation(operation)
            },
            KeyCode::Char('a') | KeyCode::Char('A') | KeyCode::Esc => {
                skip_current(operation);
                end_operation(operation, true)
            },
            _ => (None, BulkStep::Wait),
        },
        BulkRunState::AwaitForce { .. } => match key.code {
            KeyCode::Char('y') | KeyCode::Char('Y') | KeyCode::Char('f') => {
                operation.retry_force();
                (None, run_current(operation))
            },
            KeyCode::Char('n') | KeyCode::Char('N') | KeyCode::Esc => {
                skip_current(operation);
                end_operation(operation, true)
            },
            _ => (None, BulkStep::Wait),
        },
        BulkRunState::Complete { .. } => {
            match key.code {
                KeyCode::Char('j') | KeyCode::Down => {
                    operation.results_cursor = step_down(
                        operation.results_cursor,
                        operation.results.len(),
                    );
                },
                KeyCode::Char('k') | KeyCode::Up => {
                    if operation.results_cursor > 0 {
                        operation.results_cursor = operation.results_cursor - 1;
                    }
                },
                KeyCode::Char('g') => {
                    operation.results_cursor = 0;
                },
                KeyCode::Char('G') => {
                    operation.results_cursor = last_position(operation.results.len());
                },
                _ => {},
            }
            (None, BulkStep::Wait)
        },
    }
}

/// The command was run and succeeded.
pub open spec fn succeeded(result: Result<CommandResult, String>) -> bool {
    result matches Ok(result) && result.success
}

/// Why the command did not succeed.
pub open spec fn failed_with(result: Result<CommandResult, String>) -> Seq<char> {
    match result {
        Ok(result) => failure_text(result),
        Err(error) => error@,
    }
}

/// The operation after a target was done.
pub open spec fn done(
    before: BulkOperation,
    target: BulkTarget,
    result: CommandResult,
    after: BulkOperation,
) -> bool {
    &&& after == (BulkOperation {
        completed_units: (before.completed_units + target.unit_count()) as usize,
        next_index: (before.next_index + 1) as usize,
        results: after.results,
        results_cursor: after.results_cursor,
        force_despawn: false,
        ..before
    })
    &&& after.recorded(before, target, true, run::detail_text(result, "ok"@))
}

/// The operation after a target was cancelled.
pub open spec fn cancelled(
    before: BulkOperation,
    target: BulkTarget,
    after: BulkOperation,
) -> bool {
    &&& after == (BulkOperation {
        results: after.results,
        results_cursor: after.results_cursor,
        ..before
    })
    &&& after.recorded(before, target, false, "cancelled by user"@)
}

/// The operation after a target failed: a despawn may be forced once, everything else is decided
/// on.
pub open spec fn failed(
    before: BulkOperation,
    target: BulkTarget,
    detail: Seq<char>,
    after: BulkOperation,
) -> bool {
    &&& after == (BulkOperation {
        results: after.results,
        results_cursor: after.results_cursor,
        state: after.state,
        ..before
    })
    &&& after.recorded(before, target, false, detail)
    &&& match after.state {
        BulkRunState::AwaitForce { detail: text } => before.kind == BulkKind::Despawn
            && !before.force_despawn && text@ == detail,
        BulkRunState::AwaitDecision { detail: text } => (before.kind != BulkKind::Despawn
            || before.force_despawn) && text@ == detail,
        _ => false,
    }
}

/// What follows a target: a cancelled operation ends, a failed target is asked about, and otherwise
/// the operation goes on.
pub open spec fn target_completed(
    before: BulkOperation,
    target: BulkTarget,
    result: Result<CommandResult, String>,
    after: BulkOperation,
    line: Option<StatusLine>,
    step: BulkStep,
) -> bool {
    if before.cancel_requested {
        exists|recorded: BulkOperation|
            #![trigger ended(recorded, true, after, line, step)]
            (if succeeded(result) {
                done(before, target, result->Ok_0, recorded)
            } else {
                cancelled(before, target, recorded)
            }) && ended(recorded, true, after, line, step)
    } else if succeeded(result) {
        exists|recorded: BulkOperation|
            #![trigger continued(recorded, after, line, step)]
            done(before, target, result->Ok_0, recorded) && continued(recorded, after, line, step)
    } else {
        &&& failed(before, target, failed_with(result), after)
        &&& status::objects(line, failed_with(result))
        &&& step is Wait
    }
}

fn record_done(operation: &mut BulkOperation, target: BulkTarget, result: &CommandResult)
    requires
        old(operation).wf(),
        old(operation).state is Running,
        old(operation).current() == Some(target),
    ensures
        done(*old(operation), target, *result, *final(operation)),
        final(operation).wf(),
{
    let count: usize = operation.targets.len();
    assert(operation.next_index < count);
    proof {
        run::progress_within_total(*operation);
    }
    operation.record_success(target, result);
    proof {
        run::operation_accounting(*old(operation), *operation);
    }
}

/// Notes what became of the current target of an operation.
pub fn complete_target(
    operation: &mut BulkOperation,
    target: BulkTarget,
    result: Result<CommandResult, String>,
) -> (outcome: (Option<StatusLine>, BulkStep))
    requires
        old(operation).wf(),
        old(operation).state is Running,
        old(operation).current() == Some(target),
    ensures
        target_completed(
            *old(operation),
            target,
            result,
            *final(operation),
            outcome.0,
            outcome.1,
        ),
        final(operation).wf(),
{
    if operation.cancel_requested {
        match &result {
            Ok(result) => if result.success {
                record_done(operation, target, result);
            } else {
                operation.record_cancelled(target);
            },
            Err(_) => {
                operation.record_cancelled(target);
            },
        }
        let ghost recorded = *operation;
        let outcome = end_operation(operation, true);
        assert(ended(recorded, true, *operation, outcome.0, outcome.1));
        return outcome;
    }
    let detail = match &result {
        Ok(result) => {
            if result.success {
                record_done(operation, target, result);
                let ghost recorded = *operation;
                let outcome = continue_operation(operation);
                assert(continued(recorded, *operation, outcome.0, outcome.1));
                return outcome;
            }
            command_failure_detail(result)
        },
        Err(error) => error.clone(),
    };
    operation.record_failure(target, detail.clone());
    (Some(validation_status(detail)), BulkStep::Wait)
}

impl BulkScreen {
    /// Some bulk operation has not ended yet.
    pub open spec fn busy(self) -> bool {
        self.operation matches Some(operation) && !(operation.state is Complete)
    }

    /// Whether some bulk operation has not ended yet.
    pub fn is_busy(&self) -> (busy: bool)
        ensures
            busy == self.busy(),
    {
        match &self.operation {
            Some(operation) => match operation.state {
                BulkRunState::Complete { .. } => false,
                _ => true,
            },
            None => false,
        }
    }

    /// What a key does while an operation is at work or shows its results.
    pub open spec fn operation_post(
        self,
        key: KeyEvent,
        after: BulkScreen,
        line: Option<StatusLine>,
        step: BulkStep,
    ) -> bool {
        match self.operation {
            None => after == self && line is None && step is Wait,
            Some(operation) => if closes_result(operation, key) {
                &&& after == (BulkScreen {
                    operation: None,
                    cancel: BulkCancel::Absent,
                    ..self
                })
                &&& line is None
                &&& step is Wait
            } else {
                &&& after.operation matches Some(new) && operation_key_post(
                    operation,
                    key,
                    new,
                    line,
                    step,
                )
                &&& after == (BulkScreen {
                    operation: after.operation,
                    cancel: if operation.state is Running && (key.code == KeyCode::Esc || key.code
                        == KeyCode::Char('q')) && self.cancel != BulkCancel::Absent {
                        BulkCancel::Requested
                    } else {
                        self.cancel
                    },
                    ..self
                })
            },
        }
    }

    /// Applies a key while an operation is at work or shows its results.
    pub fn operation_key(&mut self, key: KeyEvent) -> (result: (Option<StatusLine>, BulkStep))
        requires
            old(self).wf(),
        ensures
            old(self).operation_post(key, *final(self), result.0, result.1),
            final(self).wf(),
    {
        match self.operation.take() {
            None => (None, BulkStep::Wait),
            Some(operation) => {
                let mut operation = operation;
                let leaving = key.code == KeyCode::Esc || key.code == KeyCode::Char('q');
                let complete = matches!(operation.state, BulkRunState::Complete { .. });
                let running = matches!(operation.state, BulkRunState::Running);
                if complete && (leaving || key.code == KeyCode::Enter) {
                    self.cancel = BulkCancel::Absent;
                    return (None, BulkStep::Wait);
                }
                if running && leaving && self.cancel != BulkCancel::Absent {
                    self.cancel = BulkCancel::Requested;
                }
                let result = operation_key(&mut operation, key);
                self.operation = Some(operation);
                result
            },
        }
    }

    /// What follows a target.
    pub open spec fn completion_post(
        self,
        target: BulkTarget,
        result: Result<CommandResult, String>,
        after: BulkScreen,
        line: Option<StatusLine>,
        step: BulkStep,
    ) -> bool {
        &&& after == (BulkScreen { operation: after.operation, ..self })
        &&& match self.operation {
            None => {
                &&& after.operation is None
                &&& step is Wait
                &&& if succeeded(result) {
                    line is None
                } else {
                    status::objects(line, failed_with(result))
                }
            },
            Some(operation) => after.operation matches Some(new) && target_completed(
                operation,
                target,
                result,
                new,
                line,
                step,
            ),
        }
    }

    /// The target is the one that is being worked on, if any is.
    pub open spec fn awaits_target(self, target: BulkTarget) -> bool {
        self.operation matches Some(operation) ==> operation.state is Running
            && operation.current() == Some(target)
    }

    /// Notes what became of a target.
    pub fn complete_target(
        &mut self,
        target: BulkTarget,
        result: Result<CommandResult, String>,
    ) -> (outcome: (Option<StatusLine>, BulkStep))
        requires
            old(self).wf(),
            old(self).awaits_target(target),
        ensures
            old(self).completion_post(target, result, *final(self), outcome.0, outcome.1),
            final(self).wf(),
    {
        match self.operation.take() {
            None => match &result {
                Ok(result) => if result.success {
                    (None, BulkStep::Wait)
                } else {
                    (Some(validation_status(command_failure_detail(result))), BulkStep::Wait)
                },
                Err(error) => (Some(validation_status(error.clone())), BulkStep::Wait),
            },
            Some(operation) => {
                let mut operation = operation;
                let outcome = complete_target(&mut operation, target, result);
                self.operation = Some(operation);
                outcome
            },
        }
    }

    /// The screen after an operation began.
    pub open spec fn begun(self, kind: BulkKind, targets: Vec<BulkTarget>, after: BulkScreen) -> bool {
        &&& after == (BulkScreen {
            operation: after.operation,
            cancel: BulkCancel::Ready,
            ..self
        })
        &&& after.operation matches Some(operation) && operation.kind == kind && operation.targets
            == targets && operation.next_index == 0 && operation.completed_units == 0
            && operation.failed_units == 0 && operation.results@.len() == 0
            && operation.results_cursor == 0 && operation.state == BulkRunState::Running
            && !operation.cancel_requested && !operation.force_despawn
    }

    /// Begins an operation with its first target.
    pub fn begin(&mut self, kind: BulkKind, targets: Vec<BulkTarget>) -> (step: BulkStep)
        requires
            old(self).wf(),
            targets@.len() > 0,
            target::units_sum(targets@) <= usize::MAX,
        ensures
            old(self).begun(kind, targets, *final(self)),
            step matches BulkStep::Run { target, force_despawn } && target == targets@[0]
                && !force_despawn,
            final(self).wf(),
    {
        let operation = BulkOperation::new(kind, targets);
        let step = run_current(&operation);
        self.cancel = BulkCancel::Ready;
        self.operation = Some(operation);
        step
    }
}

/// A target that was done is counted once, and the operation goes on exactly behind it.
pub proof fn done_targets_are_counted(
    before: BulkOperation,
    target: BulkTarget,
    result: CommandResult,
    after: BulkOperation,
)
    requires
        before.wf(),
        before.targets@.len() <= usize::MAX,
        before.state is Running,
        before.current() == Some(target),
        done(before, target, result, after),
    ensures
        after.wf(),
        after.next_index == before.next_index + 1,
        after.completed_units == before.completed_units + target.unit_count(),
        after.failed_units == before.failed_units,
{
    run::progress_within_total(before);
    run::operation_accounting(before, after);
}

} // verus!
