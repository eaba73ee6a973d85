//! Bulk operations on messages and agents.

pub mod export;
pub mod filter;
pub mod lock;
pub mod naming;
pub mod run;
pub mod target;
pub mod unread;

pub use filter::{BulkFilterFocus, BulkFilterState, FilterPeriod};
pub use lock::LockStatus;
pub use naming::naming_violations;
pub use run::{BulkOperation, BulkRunState, BulkStepResult};
pub use target::{
    BulkKind, BulkModal, BulkTarget, DespawnTarget, ExportFormat, MarkReadTarget, RenameTarget,
    ResetTarget,
};
pub use unread::mark_read_targets;
