//! Working through the targets of a bulk operation one by one.

use crate::bulk::target;
use crate::bulk::target::{BulkKind, BulkTarget};
use crate::exec::CommandResult;
use crate::strings;
use crate::strings::{concat4, decimal_usize};
use vstd::prelude::*;

verus! {

/// What became of one target.
#[derive(Debug, PartialEq, Eq)]
pub struct BulkStepResult {
    pub target: BulkTarget,
    pub success: bool,
    pub detail: String,
}

/// Where a bulk operation stands.
#[derive(Debug, PartialEq, Eq)]
pub enum BulkRunState {
    Running,
    AwaitDecision { detail: String },
    AwaitForce { detail: String },
    Complete { aborted: bool },
}

/// A bulk operation: its targets, which one is next, and what has become of the others.
#[derive(Debug)]
pub struct BulkOperation {
    pub kind: BulkKind,
    pub targets: Vec<BulkTarget>,
    pub next_index: usize,
    pub completed_units: usize,
    pub failed_units: usize,
    pub results: Vec<BulkStepResult>,
    pub results_cursor: usize,
    pub state: BulkRunState,
    pub cancel_requested: bool,
    pub force_despawn: bool,
}

/// What a successful command reports: its output, else its error output, else a fallback.
pub open spec fn detail_text(result: CommandResult, fallback: Seq<char>) -> Seq<char> {
    if result.stdout@.len() > 0 {
        result.stdout@
    } else if result.stderr@.len() > 0 {
        result.stderr@
    } else {
        fallback
    }
}

fn command_detail(result: &CommandResult, fallback: &str) -> (text: String)
    ensures
        text@ == detail_text(*result, fallback@),
{
    if !result.stdout.as_str().is_empty() {
        result.stdout.clone()
    } else if !result.stderr.as_str().is_empty() {
        result.stderr.clone()
    } else {
        fallback.to_owned()
    }
}

impl BulkOperation {
    /// A decision about the current target is awaited.
    pub open spec fn awaits(self) -> bool {
        self.state is AwaitDecision || self.state is AwaitForce
    }

    /// The units done and given up are those of the targets before the next one, all the units of
    /// the operation can be counted, and a decision is only awaited while there is a target.
    pub open spec fn wf(self) -> bool {
        &&& self.next_index <= self.targets@.len()
        &&& self.awaits() ==> self.next_index < self.targets@.len()
        &&& self.completed_units + self.failed_units == target::units_sum(
            self.targets@.take(self.next_index as int),
        )
        &&& target::units_sum(self.targets@) <= usize::MAX
    }

    /// The target that is being worked on, or is next.
    pub open spec fn current(self) -> Option<BulkTarget> {
        if self.next_index < self.targets@.len() {
            Some(self.targets@[self.next_index as int])
        } else {
            None
        }
    }

    /// The operation before its first target.
    pub fn new(kind: BulkKind, targets: Vec<BulkTarget>) -> (operation: Self)
        ensures
            operation.kind == kind,
            operation.targets == targets,
            operation.next_index == 0,
            operation.completed_units == 0,
            operation.failed_units == 0,
            operation.results@ == Seq::<BulkStepResult>::empty(),
            operation.results_cursor == 0,
            operation.state == BulkRunState::Running,
            !operation.cancel_requested,
            !operation.force_despawn,
            target::units_sum(targets@) <= usize::MAX ==> operation.wf(),
    {
        proof {
            assert(targets@.take(0) =~= Seq::empty());
        }
        BulkOperation {
            kind,
            targets,
            next_index: 0,
            completed_units: 0,
            failed_units: 0,
            results: Vec::new(),
            results_cursor: 0,
            state: BulkRunState::Running,
            cancel_requested: false,
            force_despawn: false,
        }
    }

    /// The units of all targets.
    pub fn total_units(&self) -> (total: usize)
        requires
            target::units_sum(self.targets@) <= usize::MAX,
        ensures
            total == target::units_sum(self.targets@),
    {
        let mut total: usize = 0;
        let mut index: usize = 0;
        proof {
            assert(self.targets@.take(0) =~= Seq::empty());
        }
        while index < self.targets.len()
            invariant
                index <= self.targets@.len(),
                total == target::units_sum(self.targets@.take(index as int)),
                target::units_sum(self.targets@) <= usize::MAX,
            decreases self.targets@.len() - index,
        {
            proof {
                target::units_of_prefix(self.targets@, index as int);
            }
            total += self.targets[index].units();
            index += 1;
        }
        proof {
            assert(self.targets@.take(index as int) =~= self.targets@);
        }
        total
    }

    /// The target that is being worked on, or is next.
    pub fn current_target(&self) -> (target: Option<&BulkTarget>)
        ensures
            match target {
                Some(target) => self.current() == Some(*target),
                None => self.current() is None,
            },
    {
        if self.next_index < self.targets.len() {
            Some(&self.targets[self.next_index])
        } else {
            None
        }
    }

    /// How much is done, for display.
    pub fn progress_label(&self) -> (label: String)
        requires
            self.completed_units + self.failed_units <= usize::MAX,
            target::units_sum(self.targets@) <= usize::MAX,
        ensures
            label@ == strings::decimal((self.completed_units + self.failed_units) as nat) + "/"@
                + strings::decimal(target::units_sum(self.targets@)) + " complete"@,
    {
        let done = decimal_usize(self.completed_units + self.failed_units);
        let total = decimal_usize(self.total_units());
        concat4(done.as_str(), "/", total.as_str(), " complete")
    }

    /// Some result was added, and the cursor stands on it.
    pub open spec fn recorded(
        self,
        before: BulkOperation,
        target: BulkTarget,
        success: bool,
        detail: Seq<char>,
    ) -> bool {
        &&& self.results@.len() == before.results@.len() + 1
        &&& self.results@.drop_last() == before.results@
        &&& self.results@.last().target == target
        &&& self.results@.last().success == success
        &&& self.results@.last().detail@ == detail
        &&& self.results_cursor == before.results@.len()
    }

    /// Notes that a target was done and goes on to the next one.
    pub fn record_success(&mut self, target: BulkTarget, result: &CommandResult)
        requires
            old(self).completed_units + target.unit_count() <= usize::MAX,
            old(self).next_index < usize::MAX,
        ensures
            *final(self) == (BulkOperation {
                completed_units: (old(self).completed_units + target.unit_count()) as usize,
                next_index: (old(self).next_index + 1) as usize,
                results: final(self).results,
                results_cursor: final(self).results_cursor,
                force_despawn: false,
                ..*old(self)
            }),
            final(self).recorded(*old(self), target, true, detail_text(*result, "ok"@)),
    {
        let units: usize = target.units();
        let detail = command_detail(result, "ok");
        self.completed_units += units;
        self.next_index += 1;
        self.results_cursor = self.results.len();
        self.results.push(BulkStepResult { target, success: true, detail });
        self.force_despawn = false;
        proof {
            assert(self.results@.drop_last() =~= old(self).results@);
        }
    }

    /// Notes that a target failed and asks what to do: a despawn may be forced, everything else
    /// may be skipped.
    pub fn record_failure(&mut self, target: BulkTarget, detail: String)
        ensures
            *final(self) == (BulkOperation {
                results: final(self).results,
                results_cursor: final(self).results_cursor,
                state: final(self).state,
                ..*old(self)
            }),
            final(self).recorded(*old(self), target, false, detail@),
            match final(self).state {
                BulkRunState::AwaitForce { detail: text } => old(self).kind == BulkKind::Despawn
                    && !old(self).force_despawn && text@ == detail@,
                BulkRunState::AwaitDecision { detail: text } => (old(self).kind != BulkKind::Despawn
                    || old(self).force_despawn) && text@ == detail@,
                _ => false,
            },
    {
        self.results_cursor = self.results.len();
        self.results.push(BulkStepResult { target, success: false, detail: detail.clone() });
        self.state = if self.kind == BulkKind::Despawn && !self.force_despawn {
            BulkRunState::AwaitForce { detail }
        } else {
            BulkRunState::AwaitDecision { detail }
        };
        proof {
            assert(self.results@.drop_last() =~= old(self).results@);
        }
    }

    /// Notes that a target was cancelled.
    pub fn record_cancelled(&mut self, target: BulkTarget)
        ensures
            *final(self) == (BulkOperation {
                results: final(self).results,
                results_cursor: final(self).results_cursor,
                ..*old(self)
            }),
            final(self).recorded(*old(self), target, false, "cancelled by user"@),
    {
        self.results_cursor = self.results.len();
        self.results.push(
            BulkStepResult { target, success: false, detail: "cancelled by user".to_owned() },
        );
        proof {
            assert(self.results@.drop_last() =~= old(self).results@);
        }
    }

    /// The units of the current target; none if there is none.
    pub open spec fn current_units(self) -> nat {
        match self.current() {
            Some(target) => target.unit_count(),
            None => 0,
        }
    }

    /// Gives the current target up and goes on to the next one.
    pub fn skip_failed_and_continue(&mut self)
        requires
            old(self).failed_units + old(self).current_units() <= usize::MAX,
            old(self).next_index < usize::MAX,
        ensures
            *final(self) == (BulkOperation {
                failed_units: (old(self).failed_units + old(self).current_units()) as usize,
                next_index: (old(self).next_index + 1) as usize,
                force_despawn: false,
                state: BulkRunState::Running,
                ..*old(self)
            }),
    {
        let units: usize = match self.current_target() {
            Some(target) => target.units(),
            None => 0,
        };
        self.failed_units += units;
        self.next_index += 1;
        self.force_despawn = false;
        self.state = BulkRunState::Running;
    }

    /// Tries the current target again, this time by force.
    pub fn retry_force(&mut self)
        ensures
            *final(self) == (BulkOperation {
                force_despawn: true,
                state: BulkRunState::Running,
                ..*old(self)
            }),
    {
        self.force_despawn = true;
        self.state = BulkRunState::Running;
    }

    /// Ends the operation.
    pub fn finish(&mut self, aborted: bool)
        ensures
            *final(self) == (BulkOperation {
                state: BulkRunState::Complete { aborted },
                ..*old(self)
            }),
    {
        self.state = BulkRunState::Complete { aborted };
    }
}

/// The count of an operation stays right when its current target is done or given up.
pub proof fn operation_accounting(before: BulkOperation, after: BulkOperation)
    requires
        before.wf(),
        before.current() is Some,
        !after.awaits(),
        after.targets == before.targets,
        after.next_index == before.next_index + 1,
        after.completed_units + after.failed_units == before.completed_units + before.failed_units
            + before.current_units(),
    ensures
        after.wf(),
        after.completed_units + after.failed_units <= target::units_sum(after.targets@),
{
    target::units_of_prefix(before.targets@, before.next_index as int);
    target::units_of_prefix_bounded(after.targets@, after.next_index as int);
}

/// What is done and given up is never more than there is to do.
pub proof fn progress_within_total(operation: BulkOperation)
    requires
        operation.wf(),
    ensures
        operation.completed_units + operation.failed_units <= target::units_sum(
            operation.targets@,
        ),
        operation.completed_units + operation.failed_units + operation.current_units()
            <= target::units_sum(operation.targets@),
{
    target::units_of_prefix_bounded(operation.targets@, operation.next_index as int);
    if operation.next_index < operation.targets@.len() {
        target::units_of_prefix(operation.targets@, operation.next_index as int);
        target::units_of_prefix_bounded(operation.targets@, operation.next_index + 1);
    }
}

} // verus!
