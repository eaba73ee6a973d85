//! The state behind the screens, and what it asks of the event loop.

use crate::agents::{AgentFocus, AgentModal, AgentOperation};
use crate::app::composer::ComposerState;
use crate::app::status::StatusLine;
use crate::audit::AuditReport;
use crate::audit_history::AuditHistorySample;
use crate::bulk::{
    BulkFilterState, BulkModal, BulkOperation, BulkTarget, ExportFormat, LockStatus,
};
use crate::config::Paths;
use crate::db::{
    AgentRegistration, AgentTeamSummary, HistoryPage, MemberSummary, Message, PairMatrix,
    StaleUnread, TeamSummary, ZombieIdentity,
};
use crate::exec::CommandResult;
use crate::health::HealthSnapshot;
use crate::notify::{BurstTracker, NotifySettings, PendingNotification};
use vstd::prelude::*;

verus! {

/// How many messages one page of history holds.
pub const HISTORY_PAGE_SIZE: usize = 200;

/// How many messages half a page is.
pub const HALF_PAGE_MESSAGES: usize = 10;

/// How long the saved state waits for further changes, in nanoseconds.
pub const STATE_DEBOUNCE: u64 = 3_000_000_000;

/// A body with more characters than this is folded.
pub const FOLD_CHAR_THRESHOLD: usize = 500;

/// How many lines of a folded body are shown.
pub const FOLD_PREVIEW_LINES: usize = 20;

/// The list of the main screen that has the focus.
#[derive(Clone, Copy, Debug, PartialEq, Eq, Structural)]
pub enum Focus {
    Teams,
    Members,
    Room,
}

/// The screen that is shown.
#[derive(Clone, Copy, Debug, PartialEq, Eq, Structural)]
pub enum Screen {
    Main,
    Composer,
    Audit,
    Agents,
    Health,
    BulkFilter,
    Help,
}

/// The tab of the audit screen.
#[derive(Clone, Copy, Debug, PartialEq, Eq, Structural)]
pub enum AuditTab {
    Dashboard,
    History,
}

/// Whether keys are commands or search text.
#[derive(Clone, Copy, Debug, PartialEq, Eq, Structural)]
pub enum InputMode {
    Normal,
    Search,
}

/// A message that is to be sent.
#[derive(Debug)]
pub struct SendRequest {
    pub team: String,
    pub from: String,
    pub to: String,
    pub body: String,
}

/// A script that runs in the background.
#[derive(Clone, Copy, Debug, PartialEq, Eq, Structural)]
pub enum InFlightOperation {
    Send,
    MarkRead,
    Agent,
    Bulk,
}

/// The item that is selected on the audit screen.
#[derive(Clone, Copy, Debug)]
pub enum AuditSelection<'a> {
    Zombie(&'a ZombieIdentity),
    Stale(&'a StaleUnread),
}

/// Whether the scripts of a bulk operation can be cancelled.
#[derive(Clone, Copy, Debug, PartialEq, Eq, Structural)]
pub enum BulkCancel {
    /// There is nothing to cancel.
    Absent,
    /// A running script can be cancelled.
    Ready,
    /// The running script is to be cancelled.
    Requested,
}

/// What the event loop is to do next.
#[derive(Debug)]
pub enum AppAction {
    Nothing,
    Quit,
    Send(SendRequest),
    MarkRecipient { team: String, recipient: String, unread_count: usize },
    MarkTeam { team: String, recipients: Vec<String>, unread_count: usize },
    RefreshAudit,
    RefreshHealth,
    ExportReport,
    ExportBulk(ExportFormat),
    RunBulk { target: BulkTarget, force_despawn: bool },
    Yank(String),
    ManageAgent(AgentOperation),
    /// Read this and hand the reply to [`App::supply`].
    Load(Query),
    /// Something that was needed could not be read.
    Fail(String),
}

/// Something to be read.
#[derive(Debug)]
pub enum Query {
    /// There is nothing to read; reply with nothing.
    Nothing,
    TeamSummaries,
    Members { team: String },
    History { team: String, before_id: Option<i64> },
    SearchMatch { team: String, query: String, member: Option<String> },
    Roster { team: String },
    Agents,
    AuditAnalytics { days: u32 },
    PairMatrices { days: u32 },
    AuditHistory,
    AllMessages,
    Registration { team: String, agent: String },
    MemberInfo { team: String, agent: String },
    Lock { team: String, agent: String },
    UnreadCount { team: String, recipient: String },
    UnreadRecipients { team: String },
    CurrentDir,
}

/// What was read.
#[derive(Debug)]
pub enum Reply {
    Nothing,
    Failed(String),
    TeamSummaries(Vec<TeamSummary>),
    Members(Vec<MemberSummary>),
    History(HistoryPage),
    SearchMatch(Option<i64>),
    Roster(Vec<String>),
    Agents(Vec<AgentTeamSummary>),
    AuditAnalytics {
        pairs: Vec<PairMatrix>,
        zombies: Vec<ZombieIdentity>,
        stale: Vec<StaleUnread>,
    },
    PairMatrices(Vec<PairMatrix>),
    AuditHistory(Vec<AuditHistorySample>),
    AllMessages(Vec<Message>),
    Registration(Option<AgentRegistration>),
    MemberInfo { registration: Option<AgentRegistration>, sent: usize, received: usize },
    Lock(LockStatus),
    UnreadCount(usize),
    UnreadRecipients(Vec<String>),
    CurrentDir(String),
}

/// One step of a plan: something is read and taken into the state.
#[derive(Debug)]
pub enum Task {
    RefreshTeams,
    ReloadTeam,
    RefreshMembers,
    ReloadHistory,
    OlderHistory,
    HalfPageHistory { selected_id: Option<i64> },
    FindMatch,
    MatchHistory { target_id: i64 },
    ReloadAgents,
    AuditAnalytics,
    AuditInsights,
    PairWindow { selected_team: Option<String> },
    OpenBulkFilter,
    RefreshBulkFilter,
    OpenComposer,
    OpenMemberComposer { name: String },
    RestoreDraft { team: String },
    CountRecipient { team: String, recipient: String },
    ListRecipients { team: String, unread_count: usize },
    MemberInfo { team: String, member: MemberSummary },
    IdentityInfo { team: String, agent: String },
    ResetCommand { team: String, agent: String },
    JoinHere { team: String, agent: String, agent_type: String },
}

/// What happens when every step of a plan is done.
#[derive(Debug)]
pub enum Finish {
    Nothing,
    Status(StatusLine),
    RequestAudit,
    OpenSpawn,
    OpenRename { member: String },
    OpenBulkReset,
    OpenBulkRename,
    HalfPage { forward: bool },
    FirstMatch,
    Arrivals { count: usize, relevant: usize, latest: Option<Message> },
    AgentDone { operation: AgentOperation, result: CommandResult },
    AuditDone { warning: String },
}

/// What happens when something cannot be read.
#[derive(Debug)]
pub enum OnError {
    /// The event loop ends with the error.
    Raise,
    /// The error is shown.
    Show,
    /// The error is shown after another one.
    ShowAfter { first: String },
    /// The error is shown and the audit is no longer loading.
    ShowAudit,
    /// The error is shown after the plan was tried once more.
    RetryAgent,
}

/// The reads that are still to be made, and what follows them.
#[derive(Debug)]
pub struct Plan {
    pub tasks: Vec<Task>,
    pub finish: Finish,
    pub on_error: OnError,
    /// A key started the plan, so changes count for the saved state.
    pub from_key: bool,
}

/// The message being written for a team that was left.
#[derive(Debug, PartialEq, Eq)]
pub struct Draft {
    pub team: String,
    pub composer: ComposerState,
}

/// A message that is shown in full although it is long.
#[derive(Debug, PartialEq, Eq)]
pub struct ExpandedMessage {
    pub team: String,
    pub id: i64,
}

/// The banner of a burst.
#[derive(Debug, PartialEq, Eq)]
pub struct BurstAlert {
    pub text: String,
    pub until: u64,
}

/// The teams, members and messages of the main screen.
#[derive(Debug)]
pub struct Room {
    pub teams: Vec<TeamSummary>,
    pub selected_team: usize,
    pub active_team: Option<String>,
    pub members: Vec<MemberSummary>,
    pub selected_member: usize,
    pub messages: Vec<Message>,
    pub selected_message: usize,
    pub focus: Focus,
    pub has_more_history: bool,
    pub expanded_messages: Vec<ExpandedMessage>,
    pub member_filter: Option<String>,
    pub search_query: Option<String>,
    pub input_mode: InputMode,
}

/// Which screen is shown and how it is divided.
#[derive(Clone, Copy, Debug, PartialEq, Eq, Structural)]
pub struct Display {
    pub screen: Screen,
    pub help_return_screen: Screen,
    pub help_scroll: u16,
    pub sidebar_pct: u16,
    pub resize_dragging: bool,
}

/// The message being written, and those left unfinished.
#[derive(Debug)]
pub struct Writing {
    pub composer: Option<ComposerState>,
    pub drafts: Vec<Draft>,
}

/// The audit screen.
#[derive(Debug)]
pub struct AuditScreen {
    pub report: Option<AuditReport>,
    pub loading: bool,
    pub tab: AuditTab,
    pub pair_window_days: u32,
    pub history: Vec<AuditHistorySample>,
    pub pair_matrices: Vec<PairMatrix>,
    pub zombies: Vec<ZombieIdentity>,
    pub stale_unreads: Vec<StaleUnread>,
    pub team_index: usize,
    pub selected: usize,
    pub detail: Option<String>,
}

/// The health screen.
#[derive(Debug)]
pub struct HealthScreen {
    pub snapshot: Option<HealthSnapshot>,
    pub loading: bool,
    pub window_days: u32,
    pub team_index: usize,
}

/// Bulk operations: the filter screen, the dialog that prepares one, and the one that runs.
#[derive(Debug)]
pub struct BulkScreen {
    pub filter: Option<BulkFilterState>,
    pub modal: Option<BulkModal>,
    pub operation: Option<BulkOperation>,
    pub cancel: BulkCancel,
}

/// The agents screen.
#[derive(Debug)]
pub struct AgentsScreen {
    /// The lead family of CLI types.
    pub cli_family: String,
    pub teams: Vec<AgentTeamSummary>,
    pub team_index: usize,
    pub identity_index: usize,
    pub focus: AgentFocus,
    pub modal: Option<AgentModal>,
    pub identity_info: Option<String>,
    /// The own name after a rename, until the bridge is restarted.
    pub restart_needed: Option<String>,
}

/// Notifications.
#[derive(Debug)]
pub struct Notices {
    pub settings: NotifySettings,
    pub burst_tracker: BurstTracker,
    pub burst_alert: Option<BurstAlert>,
    pub pending: Vec<PendingNotification>,
    pub popup: Option<usize>,
    pub delivery_warned: bool,
}

/// What goes on in the background.
#[derive(Clone, Copy, Debug, PartialEq, Eq, Structural)]
pub struct Background {
    pub in_flight: Option<InFlightOperation>,
    pub spinner_frame: usize,
    pub poll_offline: bool,
    /// Since when the saved state is out of date.
    pub state_dirty_since: Option<u64>,
}

/// The state behind the screens.
#[derive(Debug)]
pub struct App {
    pub paths: Paths,
    pub current_identity: Option<String>,
    pub status: StatusLine,
    pub display: Display,
    pub room: Room,
    /// What is shown about the selected member.
    pub member_info: Option<String>,
    pub writing: Writing,
    pub audit: AuditScreen,
    pub health: HealthScreen,
    pub bulk: BulkScreen,
    pub agents: AgentsScreen,
    pub notices: Notices,
    pub background: Background,
    pub plan: Plan,
}

/// Every draft's cursor stands in its body, and no team has two drafts.
pub open spec fn drafts_wf(drafts: Seq<Draft>) -> bool {
    &&& forall|i: int| 0 <= i < drafts.len() ==> (#[trigger] drafts[i]).composer.wf()
    &&& forall|i: int, j: int|
        0 <= i < j < drafts.len() ==> #[trigger] drafts[i].team@ != #[trigger] drafts[j].team@
}

impl Writing {
    /// Cursors stand in their texts, and no team has two drafts.
    pub open spec fn wf(self) -> bool {
        &&& self.composer matches Some(composer) ==> composer.wf()
        &&& drafts_wf(self.drafts@)
    }
}

impl AgentsScreen {
    /// The dialog that is open is sound.
    pub open spec fn wf(self) -> bool {
        self.modal matches Some(modal) ==> modal.wf()
    }
}

impl BulkScreen {
    /// The dialog that is open and the operation that runs are sound.
    pub open spec fn wf(self) -> bool {
        &&& self.modal matches Some(modal) ==> modal.wf()
        &&& self.operation matches Some(operation) ==> operation.wf()
    }
}

impl Background {
    /// The spinner shows one of its frames.
    pub open spec fn wf(self) -> bool {
        self.spinner_frame < 4
    }
}

impl App {
    /// What every operation can rely on and keeps: cursors of texts stand in their texts, dialogs
    /// and bulk operations are sound, and the spinner shows one of its frames.
    pub open spec fn wf(self) -> bool {
        &&& self.writing.wf()
        &&& self.agents.wf()
        &&& self.bulk.wf()
        &&& self.background.wf()
    }

    /// Nothing but the status line differs from `after`.
    pub open spec fn status_only(self, after: App) -> bool {
        after == (App { status: after.status, ..self })
    }

    /// Nothing but the status line changes, to the notice `text`.
    pub open spec fn says(self, after: App, text: Seq<char>) -> bool {
        self.status_only(after) && after.status.is_info(text)
    }

    /// Nothing but the status line changes, to the error `text`.
    pub open spec fn objects(self, after: App, text: Seq<char>) -> bool {
        self.status_only(after) && after.status.is_failure(text)
    }
}

} // verus!
