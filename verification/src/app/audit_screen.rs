//! The audit screen: its cursors, and what each key does.

use crate::app::model::{AuditScreen, AuditSelection, AuditTab};
use crate::app::status;
use crate::app::status::{clamp_index, info_status, notice, step_down, StatusLine};
use crate::audit_history::AuditHistorySample;
use crate::db::{PairMatrix, StaleUnread, ZombieIdentity, ANALYTICS_WINDOW_DAYS};
use crate::input::{KeyCode, KeyEvent};
use crate::strings;
use crate::strings::{concat3, decimal_i64, decimal_u64, same_text};
use vstd::prelude::*;

verus! {

/// What a key asks for beyond the audit screen.
#[derive(Debug)]
pub enum AuditRequest {
    Nothing,
    LeaveScreen,
    Help,
    Refresh,
    Export,
    /// Read the pair matrices for the new window and go back to the team.
    PairWindow { selected_team: Option<String> },
    ResetCommand { team: String, agent: String },
    MarkStale,
    BulkReset,
    BulkRename,
}

/// What is shown about a zombie identity.
pub open spec fn zombie_text(zombie: ZombieIdentity) -> Seq<char> {
    "Zombie identity\n\nteam: "@ + zombie.team@ + "\nagent: "@ + zombie.agent@
        + "\nreason: no traffic in "@ + strings::decimal(ANALYTICS_WINDOW_DAYS as nat)
        + " days\n\nD shows its reset.sh command. B previews and batch-confirms every stale/zombie reset before execution."@
}

/// What is shown about a stale message.
pub open spec fn stale_text(stale: StaleUnread) -> Seq<char> {
    "Stale unread #"@ + strings::signed_decimal(stale.id as int) + "\n\nteam: "@ + stale.team@
        + "\nfrom: "@ + stale.from_agent@ + "\nto: "@ + stale.to_agent@ + "\ncreated: "@
        + stale.created_at@ + "\n\n"@ + stale.body@
        + "\n\nM delegates read marking to inbox.sh. B includes its recipient in the reset preview when registered."@
}

fn describe_zombie(zombie: &ZombieIdentity) -> (text: String)
    ensures
        text@ == zombie_text(*zombie),
{
    let days = decimal_u64(ANALYTICS_WINDOW_DAYS as u64);
    let mut text = "Zombie identity\n\nteam: ".to_owned();
    text.append(zombie.team.as_str());
    text.append("\nagent: ");
    text.append(zombie.agent.as_str());
    text.append("\nreason: no traffic in ");
    text.append(days.as_str());
    text.append(
        " days\n\nD shows its reset.sh command. B previews and batch-confirms every stale/zombie reset before execution.",
    );
    text
}

fn describe_stale(stale: &StaleUnread) -> (text: String)
    ensures
        text@ == stale_text(*stale),
{
    let id = decimal_i64(stale.id);
    let mut text = "Stale unread #".to_owned();
    text.append(id.as_str());
    text.append("\n\nteam: ");
    text.append(stale.team.as_str());
    text.append("\nfrom: ");
    text.append(stale.from_agent.as_str());
    text.append("\nto: ");
    text.append(stale.to_agent.as_str());
    text.append("\ncreated: ");
    text.append(stale.created_at.as_str());
    text.append("\n\n");
    text.append(stale.body.as_str());
    text.append(
        "\n\nM delegates read marking to inbox.sh. B includes its recipient in the reset preview when registered.",
    );
    text
}

/// Some matrix is that of the team.
pub open spec fn has_matrix(matrices: Seq<PairMatrix>, team: Seq<char>) -> bool {
    exists|i: int| 0 <= i < matrices.len() && #[trigger] matrices[i].team@ == team
}

/// The matrix of the team stands at `index` first.
pub open spec fn first_matrix(matrices: Seq<PairMatrix>, team: Seq<char>, index: int) -> bool {
    &&& 0 <= index < matrices.len()
    &&& matrices[index].team@ == team
    &&& forall|i: int| 0 <= i < index ==> #[trigger] matrices[i].team@ != team
}

fn matrix_position(matrices: &Vec<PairMatrix>, team: &str) -> (found: Option<usize>)
    ensures
        match found {
            Some(index) => first_matrix(matrices@, team@, index as int),
            None => !has_matrix(matrices@, team@),
        },
{
    let mut index: usize = 0;
    while index < matrices.len()
        invariant
            index <= matrices@.len(),
            forall|i: int| 0 <= i < index ==> #[trigger] matrices@[i].team@ != team@,
        decreases matrices@.len() - index,
    {
        if same_text(matrices[index].team.as_str(), team) {
            return Some(index);
        }
        index += 1;
    }
    None
}

/// The window after this one: a week, a month, a quarter.
pub open spec fn next_window(days: u32) -> u32 {
    if days == 7 {
        30
    } else if days == 30 {
        90
    } else {
        7
    }
}

/// What the status line says about the window.
pub open spec fn window_text(days: u32) -> Seq<char> {
    "pair matrix window: "@ + strings::decimal(days as nat) + "d"@
}

impl AuditScreen {
    /// How many items are listed: first the zombies, then the stale messages.
    pub open spec fn item_count(self) -> int {
        if self.zombies@.len() + self.stale_unreads@.len() > usize::MAX {
            usize::MAX as int
        } else {
            (self.zombies@.len() + self.stale_unreads@.len()) as int
        }
    }

    /// How many items are listed.
    pub fn audit_item_count(&self) -> (count: usize)
        ensures
            count == self.item_count(),
    {
        self.zombies.len().saturating_add(self.stale_unreads.len())
    }

    /// The zombie under the cursor.
    pub open spec fn zombie(self) -> Option<ZombieIdentity> {
        if self.selected < self.zombies@.len() {
            Some(self.zombies@[self.selected as int])
        } else {
            None
        }
    }

    /// The stale message under the cursor.
    pub open spec fn stale(self) -> Option<StaleUnread> {
        let place = self.selected - self.zombies@.len();
        if 0 <= place < self.stale_unreads@.len() {
            Some(self.stale_unreads@[place])
        } else {
            None
        }
    }

    /// The item under the cursor.
    pub fn selected_audit_item(&self) -> (item: Option<AuditSelection<'_>>)
        ensures
            match item {
                Some(AuditSelection::Zombie(zombie)) => self.zombie() == Some(*zombie),
                Some(AuditSelection::Stale(stale)) => self.stale() == Some(*stale),
                None => self.zombie() is None && self.stale() is None,
            },
    {
        if self.selected < self.zombies.len() {
            return Some(AuditSelection::Zombie(&self.zombies[self.selected]));
        }
        let place: usize = self.selected - self.zombies.len();
        if place < self.stale_unreads.len() {
            Some(AuditSelection::Stale(&self.stale_unreads[place]))
        } else {
            None
        }
    }

    /// The matrix under the cursor.
    pub open spec fn matrix(self) -> Option<PairMatrix> {
        if self.team_index < self.pair_matrices@.len() {
            Some(self.pair_matrices@[self.team_index as int])
        } else {
            None
        }
    }

    /// The matrix under the cursor.
    pub fn current_pair_matrix(&self) -> (matrix: Option<&PairMatrix>)
        ensures
            match matrix {
                Some(matrix) => self.matrix() == Some(*matrix),
                None => self.matrix() is None,
            },
    {
        if self.team_index < self.pair_matrices.len() {
            Some(&self.pair_matrices[self.team_index])
        } else {
            None
        }
    }

    /// What new analytics do to the screen.
    pub open spec fn analysed(
        self,
        pairs: Vec<PairMatrix>,
        zombies: Vec<ZombieIdentity>,
        stale: Vec<StaleUnread>,
    ) -> AuditScreen {
        let listed = AuditScreen { pair_matrices: pairs, zombies, stale_unreads: stale, ..self };
        AuditScreen {
            team_index: status::clamped_index(
                self.team_index as int,
                pairs@.len() as int,
            ) as usize,
            selected: status::clamped_index(self.selected as int, listed.item_count()) as usize,
            ..listed
        }
    }

    /// Takes new analytics and keeps the cursors within them.
    pub fn take_analytics(
        &mut self,
        pairs: Vec<PairMatrix>,
        zombies: Vec<ZombieIdentity>,
        stale: Vec<StaleUnread>,
    )
        ensures
            *final(self) == old(self).analysed(pairs, zombies, stale),
    {
        self.pair_matrices = pairs;
        self.zombies = zombies;
        self.stale_unreads = stale;
        self.team_index = clamp_index(self.team_index, self.pair_matrices.len());
        let count = self.audit_item_count();
        self.selected = clamp_index(self.selected, count);
    }

    /// Takes the audits of the last weeks.
    pub fn take_history(&mut self, history: Vec<AuditHistorySample>)
        ensures
            *final(self) == (AuditScreen { history, ..*old(self) }),
    {
        self.history = history;
    }

    /// What the matrices for a new window do: the cursor stays on its team if it is still there.
    pub open spec fn pairs_post(
        self,
        pairs: Vec<PairMatrix>,
        selected_team: Option<String>,
        after: AuditScreen,
        line: Option<StatusLine>,
    ) -> bool {
        &&& after == (AuditScreen { pair_matrices: pairs, team_index: after.team_index, ..self })
        &&& if selected_team matches Some(team) && has_matrix(pairs@, team@) {
            first_matrix(pairs@, selected_team->Some_0@, after.team_index as int)
        } else {
            after.team_index == status::clamped_index(
                self.team_index as int,
                pairs@.len() as int,
            )
        }
        &&& status::tells(line, window_text(self.pair_window_days))
    }

    /// Takes the matrices for a new window.
    pub fn take_pairs(
        &mut self,
        pairs: Vec<PairMatrix>,
        selected_team: &Option<String>,
    ) -> (line: Option<StatusLine>)
        ensures
            old(self).pairs_post(pairs, *selected_team, *final(self), line),
    {
        let fallback = clamp_index(self.team_index, pairs.len());
        self.team_index = match selected_team {
            Some(team) => match matrix_position(&pairs, team.as_str()) {
                Some(index) => {
                    assert(pairs@[index as int].team@ == team@);
                    index
                },
                None => fallback,
            },
            None => fallback,
        };
        self.pair_matrices = pairs;
        let days = decimal_u64(self.pair_window_days as u64);
        Some(notice(concat3("pair matrix window: ", days.as_str(), "d")))
    }

    /// What Enter shows about the item under the cursor.
    pub open spec fn detail_post(self, after: AuditScreen) -> bool {
        &&& after == (AuditScreen { detail: after.detail, ..self })
        &&& match (self.zombie(), self.stale()) {
            (Some(zombie), _) => after.detail matches Some(text) && text@ == zombie_text(zombie),
            (None, Some(stale)) => after.detail matches Some(text) && text@ == stale_text(stale),
            (None, None) => after.detail is None,
        }
    }

    /// Shows the item under the cursor.
    pub fn show_audit_detail(&mut self)
        ensures
            old(self).detail_post(*final(self)),
    {
        let detail = match self.selected_audit_item() {
            Some(AuditSelection::Zombie(zombie)) => Some(describe_zombie(zombie)),
            Some(AuditSelection::Stale(stale)) => Some(describe_stale(stale)),
            None => None,
        };
        self.detail = detail;
    }

    /// What the key for the reset command does: it needs a zombie.
    pub open spec fn reset_command_post(
        self,
        line: Option<StatusLine>,
        request: AuditRequest,
    ) -> bool {
        match self.zombie() {
            Some(zombie) => {
                &&& line is None
                &&& request matches AuditRequest::ResetCommand { team, agent } && team@
                    == zombie.team@ && agent@ == zombie.agent@
            },
            None => status::tells(line, "D is available for zombie identities"@)
                && request is Nothing,
        }
    }

    fn ask_reset_command(&self) -> (result: (Option<StatusLine>, AuditRequest))
        ensures
            self.reset_command_post(result.0, result.1),
    {
        match self.selected_audit_item() {
            Some(AuditSelection::Zombie(zombie)) => (
                None,
                AuditRequest::ResetCommand {
                    team: zombie.team.clone(),
                    agent: zombie.agent.clone(),
                },
            ),
            _ => (Some(info_status("D is available for zombie identities")), AuditRequest::Nothing),
        }
    }

    /// The screen with the next window, before its matrices are read.
    pub open spec fn in_next_window(self) -> AuditScreen {
        AuditScreen { pair_window_days: next_window(self.pair_window_days), ..self }
    }

    /// What a key does on the tab of the history.
    pub open spec fn history_key_post(
        self,
        key: KeyEvent,
        after: AuditScreen,
        request: AuditRequest,
    ) -> bool {
        match key.code {
            KeyCode::Esc | KeyCode::Char('q') | KeyCode::Tab => after == self
                && request is LeaveScreen,
            KeyCode::Char('D') => after == (AuditScreen { tab: AuditTab::Dashboard, ..self })
                && request is Nothing,
            KeyCode::Char('R') | KeyCode::Char('a') => after == self && request is Refresh,
            KeyCode::Char('E') | KeyCode::Char('x') => after == self && request is Export,
            KeyCode::Char('?') => after == self && request is Help,
            _ => after == self && request is Nothing,
        }
    }

    fn history_key(&mut self, key: KeyEvent) -> (request: AuditRequest)
        ensures
            old(self).history_key_post(key, *final(self), request),
    {
        match key.code {
            KeyCode::Esc | KeyCode::Char('q') | KeyCode::Tab => AuditRequest::LeaveScreen,
            KeyCode::Char('D') => {
                self.tab = AuditTab::Dashboard;
                AuditRequest::Nothing
            },
            KeyCode::Char('R') | KeyCode::Char('a') => AuditRequest::Refresh,
            KeyCode::Char('E') | KeyCode::Char('x') => AuditRequest::Export,
            KeyCode::Char('?') => AuditRequest::Help,
            _ => AuditRequest::Nothing,
        }
    }

    /// What a key does on the tab of the dashboard.
    pub open spec fn dashboard_key_post(
        self,
        key: KeyEvent,
        after: AuditScreen,
        line: Option<StatusLine>,
        request: AuditRequest,
    ) -> bool {
        let quiet = line is None && request is Nothing;
        let matrices = self.pair_matrices@.len() as int;
        match key.code {
            KeyCode::Esc | KeyCode::Char('q') | KeyCode::Tab => after == self && line is None
                && request is LeaveScreen,
            KeyCode::Char('l') | KeyCode::Right => quiet && after == if matrices == 0 {
                self
            } else {
                AuditScreen {
                    team_index: status::ring_next(self.team_index as int, matrices) as usize,
                    ..self
                }
            },
            KeyCode::Char('h') | KeyCode::Left => quiet && after == if matrices == 0 {
                self
            } else {
                AuditScreen {
                    team_index: if self.team_index == 0 {
                        (matrices - 1) as usize
                    } else {
                        (self.team_index - 1) as usize
                    },
                    ..self
                }
            },
            KeyCode::Char('R') | KeyCode::Char('a') => after == self && line is None
                && request is Refresh,
            KeyCode::Char('t') => {
                &&& after == self.in_next_window()
                &&& line is None
                &&& request matches AuditRequest::PairWindow { selected_team } && match (
                    selected_team,
                    self.matrix(),
                ) {
                    (Some(team), Some(matrix)) => team@ == matrix.team@,
                    (None, None) => true,
                    _ => false,
                }
            },
            KeyCode::Char('E') | KeyCode::Char('x') => after == self && line is None
                && request is Export,
            KeyCode::Char('j') | KeyCode::Down => quiet && after == (AuditScreen {
                selected: status::stepped_down(self.selected as int, self.item_count()) as usize,
                ..self
            }),
            KeyCode::Char('k') | KeyCode::Up => quiet && after == (AuditScreen {
                selected: if self.selected == 0 {
                    0
                } else {
                    (self.selected - 1) as usize
                },
                ..self
            }),
            KeyCode::Char('g') => quiet && after == (AuditScreen { selected: 0, ..self }),
            KeyCode::Char('D') => after == self && self.reset_command_post(line, request),
            KeyCode::Char('B') => after == self && line is None && request is BulkReset,
            KeyCode::Char('W') => after == self && line is None && request is BulkRename,
            KeyCode::Char('M') => after == self && line is None && request is MarkStale,
            KeyCode::Enter => quiet && self.detail_post(after),
            KeyCode::Char('?') => after == self && line is None && request is Help,
            _ => quiet && after == self,
        }
    }

    #[verifier::rlimit(30)]
    fn dashboard_key(&mut self, key: KeyEvent) -> (result: (Option<StatusLine>, AuditRequest))
        ensures
            old(self).dashboard_key_post(key, *final(self), result.0, result.1),
    {
        match key.code {
            KeyCode::Esc | KeyCode::Char('q') | KeyCode::Tab => (None, AuditRequest::LeaveScreen),
            KeyCode::Char('l') | KeyCode::Right => {
                if self.pair_matrices.len() > 0 {
                    self.team_index = status::next_index(
                        self.team_index,
                        self.pair_matrices.len(),
                    );
                }
                (None, AuditRequest::Nothing)
            },
            KeyCode::Char('h') | KeyCode::Left => {
                if self.pair_matrices.len() > 0 {
                    self.team_index = if self.team_index == 0 {
                        self.pair_matrices.len() - 1
                    } else {
                        self.team_index - 1
                    };
                }
                (None, AuditRequest::Nothing)
            },
            KeyCode::Char('R') | KeyCode::Char('a') => (None, AuditRequest::Refresh),
            KeyCode::Char('t') => {
                let selected_team = match self.current_pair_matrix() {
                    Some(matrix) => Some(matrix.team.clone()),
                    None => None,
                };
                self.pair_window_days = if self.pair_window_days == 7 {
                    30
                } else if self.pair_window_days == 30 {
                    90
                } else {
                    7
                };
                (None, AuditRequest::PairWindow { selected_team })
            },
            KeyCode::Char('E') | KeyCode::Char('x') => (None, AuditRequest::Export),
            KeyCode::Char('j') | KeyCode::Down => {
                let count = self.audit_item_count();
                self.selected = step_down(self.selected, count);
                (None, AuditRequest::Nothing)
            },
            KeyCode::Char('k') | KeyCode::Up => {
                if self.selected > 0 {
                    self.selected = self.selected - 1;
                }
                (None, AuditRequest::Nothing)
            },
            KeyCode::Char('g') => {
                self.selected = 0;
                (None, AuditRequest::Nothing)
            },
            KeyCode::Char('D') => self.ask_reset_command(),
            KeyCode::Char('B') => (None, AuditRequest::BulkReset),
            KeyCode::Char('W') => (None, AuditRequest::BulkRename),
            KeyCode::Char('M') => (None, AuditRequest::MarkStale),
            KeyCode::Enter => {
                self.show_audit_detail();
                (None, AuditRequest::Nothing)
            },
            KeyCode::Char('?') => (None, AuditRequest::Help),
            _ => (None, AuditRequest::Nothing),
        }
    }

    /// What a key does: the detail that is shown takes the keys that close it, and the tab takes
    /// the others.
    pub open spec fn key_post(
        self,
        key: KeyEvent,
        after: AuditScreen,
        line: Option<StatusLine>,
        request: AuditRequest,
    ) -> bool {
        if self.detail is Some && (key.code == KeyCode::Esc || key.code == KeyCode::Enter
            || key.code == KeyCode::Char('q')) {
            after == (AuditScreen { detail: None, ..self }) && line is None && request is Nothing
        } else if key.is_control('a') {
            after == self && line is None && request is LeaveScreen
        } else if key.code == KeyCode::Char('H') {
            after == (AuditScreen { tab: AuditTab::History, ..self }) && line is None
                && request is Nothing
        } else if self.tab == AuditTab::History {
            self.history_key_post(key, after, request) && line is None
        } else {
            self.dashboard_key_post(key, after, line, request)
        }
    }

    /// Applies a key to the screen.
    pub fn key(&mut self, key: KeyEvent) -> (result: (Option<StatusLine>, AuditRequest))
        ensures
            old(self).key_post(key, *final(self), result.0, result.1),
    {
        if self.detail.is_some() && (key.code == KeyCode::Esc || key.code == KeyCode::Enter
            || key.code == KeyCode::Char('q')) {
            self.detail = None;
            return (None, AuditRequest::Nothing);
        }
        if key.control_char('a') {
            return (None, AuditRequest::LeaveScreen);
        }
        if key.code == KeyCode::Char('H') {
            self.tab = AuditTab::History;
            return (None, AuditRequest::Nothing);
        }
        if self.tab == AuditTab::History {
            return (None, self.history_key(key));
        }
        self.dashboard_key(key)
    }
}

/// Three changes of the window come back to the first one.
pub proof fn windows_cycle(days: u32)
    requires
        days == 7 || days == 30 || days == 90,
    ensures
        next_window(next_window(next_window(days))) == days,
{
}

} // verus!
