//! The targets of bulk operations, and the dialogs in which they are chosen.

use crate::strings;
use crate::strings::decimal_usize;
use vstd::prelude::*;

verus! {

/// A recipient whose messages are to be marked read.
#[derive(Debug, PartialEq, Eq)]
pub struct MarkReadTarget {
    pub team: String,
    pub recipient: String,
    pub message_count: usize,
}

/// An identity that is to be reset.
#[derive(Debug, PartialEq, Eq)]
pub struct ResetTarget {
    pub team: String,
    pub agent: String,
    pub agent_type: String,
    pub project: String,
}

/// An identity that is to be renamed.
#[derive(Debug, PartialEq, Eq)]
pub struct RenameTarget {
    pub team: String,
    pub old: String,
    pub new: String,
    pub agent_type: String,
}

impl Clone for RenameTarget {
    fn clone(&self) -> (copy: Self)
        ensures
            copy == *self,
    {
        RenameTarget {
            team: self.team.clone(),
            old: self.old.clone(),
            new: self.new.clone(),
            agent_type: self.agent_type.clone(),
        }
    }
}

/// An agent that is to be shut down.
#[derive(Debug, PartialEq, Eq)]
pub struct DespawnTarget {
    pub team: String,
    pub from: String,
    pub name: String,
}

/// One target of a bulk operation.
#[derive(Debug, PartialEq, Eq)]
pub enum BulkTarget {
    MarkRead(MarkReadTarget),
    Reset(ResetTarget),
    Rename(RenameTarget),
    Despawn(DespawnTarget),
}

impl Clone for BulkTarget {
    fn clone(&self) -> (copy: Self)
        ensures
            copy == *self,
    {
        match self {
            BulkTarget::MarkRead(target) => BulkTarget::MarkRead(
                MarkReadTarget {
                    team: target.team.clone(),
                    recipient: target.recipient.clone(),
                    message_count: target.message_count,
                },
            ),
            BulkTarget::Reset(target) => BulkTarget::Reset(
                ResetTarget {
                    team: target.team.clone(),
                    agent: target.agent.clone(),
                    agent_type: target.agent_type.clone(),
                    project: target.project.clone(),
                },
            ),
            BulkTarget::Rename(target) => BulkTarget::Rename(target.clone()),
            BulkTarget::Despawn(target) => BulkTarget::Despawn(
                DespawnTarget {
                    team: target.team.clone(),
                    from: target.from.clone(),
                    name: target.name.clone(),
                },
            ),
        }
    }
}

impl BulkTarget {
    /// How a target is shown.
    pub open spec fn label_text(self) -> Seq<char> {
        match self {
            BulkTarget::MarkRead(target) => target.team@ + "/"@ + target.recipient@ + " ("@
                + strings::decimal(target.message_count as nat) + " msgs)"@,
            BulkTarget::Reset(target) => target.team@ + "/"@ + target.agent@ + " ("@
                + target.agent_type@ + ")"@,
            BulkTarget::Rename(target) => target.team@ + "/"@ + target.old@ + " -> "@ + target.new@,
            BulkTarget::Despawn(target) => target.team@ + "/"@ + target.name@ + " (from "@
                + target.from@ + ")"@,
        }
    }

    /// How a target is shown.
    pub fn label(&self) -> (label: String)
        ensures
            label@ == self.label_text(),
    {
        match self {
            BulkTarget::MarkRead(target) => {
                let count = decimal_usize(target.message_count);
                let mut label = target.team.clone();
                label.append("/");
                label.append(target.recipient.as_str());
                label.append(" (");
                label.append(count.as_str());
                label.append(" msgs)");
                label
            },
            BulkTarget::Reset(target) => {
                let mut label = target.team.clone();
                label.append("/");
                label.append(target.agent.as_str());
                label.append(" (");
                label.append(target.agent_type.as_str());
                label.append(")");
                label
            },
            BulkTarget::Rename(target) => {
                let mut label = target.team.clone();
                label.append("/");
                label.append(target.old.as_str());
                label.append(" -> ");
                label.append(target.new.as_str());
                label
            },
            BulkTarget::Despawn(target) => {
                let mut label = target.team.clone();
                label.append("/");
                label.append(target.name.as_str());
                label.append(" (from ");
                label.append(target.from.as_str());
                label.append(")");
                label
            },
        }
    }

    /// How many units of work a target is: its messages if they are to be marked read, else one.
    pub open spec fn unit_count(self) -> nat {
        match self {
            BulkTarget::MarkRead(target) => target.message_count as nat,
            _ => 1,
        }
    }

    /// How many units of work a target is.
    pub fn units(&self) -> (units: usize)
        ensures
            units == self.unit_count(),
    {
        match self {
            BulkTarget::MarkRead(target) => target.message_count,
            _ => 1,
        }
    }
}

/// The units of some targets together.
pub open spec fn units_sum(targets: Seq<BulkTarget>) -> nat
    decreases targets.len(),
{
    if targets.len() == 0 {
        0
    } else {
        units_sum(targets.drop_last()) + targets.last().unit_count()
    }
}

/// One more target adds its units.
pub proof fn units_of_prefix(targets: Seq<BulkTarget>, index: int)
    requires
        0 <= index < targets.len(),
    ensures
        units_sum(targets.take(index + 1)) == units_sum(targets.take(index))
            + targets[index].unit_count(),
        units_sum(targets.take(index + 1)) <= units_sum(targets),
{
    assert(targets.take(index + 1).drop_last() =~= targets.take(index));
    units_of_prefix_bounded(targets, index + 1);
}

/// The first targets have no more units than all of them.
pub proof fn units_of_prefix_bounded(targets: Seq<BulkTarget>, index: int)
    requires
        0 <= index <= targets.len(),
    ensures
        units_sum(targets.take(index)) <= units_sum(targets),
    decreases targets.len(),
{
    if index == targets.len() {
        assert(targets.take(index) =~= targets);
    } else {
        units_of_prefix_bounded(targets.drop_last(), index);
        assert(targets.drop_last().take(index) =~= targets.take(index));
    }
}

/// Targets that count one unit each count as many units as there are targets.
pub proof fn units_of_single(targets: Seq<BulkTarget>)
    requires
        forall|i: int| 0 <= i < targets.len() ==> !(#[trigger] targets[i] is MarkRead),
    ensures
        units_sum(targets) == targets.len(),
    decreases targets.len(),
{
    if targets.len() > 0 {
        units_of_single(targets.drop_last());
    }
}

/// What a bulk operation does to its targets.
#[derive(Clone, Copy, Debug, PartialEq, Eq, Structural)]
pub enum BulkKind {
    MarkRead,
    Reset,
    Rename,
    Despawn,
}

impl BulkKind {
    /// The title of the operation.
    pub fn title(self) -> (title: &'static str)
        ensures
            title@ == match self {
                BulkKind::MarkRead => "bulk mark read"@,
                BulkKind::Reset => "bulk reset"@,
                BulkKind::Rename => "bulk rename"@,
                BulkKind::Despawn => "despawn"@,
            },
    {
        match self {
            BulkKind::MarkRead => "bulk mark read",
            BulkKind::Reset => "bulk reset",
            BulkKind::Rename => "bulk rename",
            BulkKind::Despawn => "despawn",
        }
    }
}

/// The form in which messages are exported.
#[derive(Clone, Copy, Debug, PartialEq, Eq, Structural)]
pub enum ExportFormat {
    Markdown,
    Json,
}

impl ExportFormat {
    /// The extension of the exported file.
    pub open spec fn extension_text(self) -> Seq<char> {
        match self {
            ExportFormat::Markdown => "md"@,
            ExportFormat::Json => "json"@,
        }
    }

    /// The extension of the exported file.
    pub fn extension(self) -> (extension: &'static str)
        ensures
            extension@ == self.extension_text(),
    {
        match self {
            ExportFormat::Markdown => "md",
            ExportFormat::Json => "json",
        }
    }
}

/// The dialog in which a bulk operation is prepared.
#[allow(inconsistent_fields)]
#[derive(Debug, PartialEq, Eq)]
pub enum BulkModal {
    Preview { kind: BulkKind, targets: Vec<BulkTarget>, confirm: String, scroll: usize },
    ExportFormat { selected: ExportFormat },
    RenameEdit { targets: Vec<RenameTarget>, selected: usize, editing: bool },
    RenameConfirm { targets: Vec<RenameTarget>, confirm: String, scroll: usize },
}

impl BulkModal {
    /// A preview shows at least one target, and all its units can be counted.
    pub open spec fn wf(self) -> bool {
        match self {
            BulkModal::Preview { targets, .. } => targets@.len() > 0 && units_sum(targets@)
                <= usize::MAX,
            BulkModal::RenameEdit { targets, .. } => targets@.len() > 0,
            BulkModal::RenameConfirm { targets, .. } => targets@.len() > 0,
            BulkModal::ExportFormat { .. } => true,
        }
    }
}

} // verus!
