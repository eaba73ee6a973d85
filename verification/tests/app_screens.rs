use agmsg_tui::agents::{AgentFocus, AgentModal, AgentOperation};
use agmsg_tui::app::composer::{BodySizeLevel, ComposerState};
use agmsg_tui::app::effects::Effect;
use agmsg_tui::app::event_loop::Completion;
use agmsg_tui::app::model::{
    App, AppAction, BulkCancel, Draft, Focus, InFlightOperation, InputMode, Query, Reply, Screen,
    FOLD_CHAR_THRESHOLD, FOLD_PREVIEW_LINES, HISTORY_PAGE_SIZE,
};
use agmsg_tui::app::status::StatusLine;
use agmsg_tui::app::views::fold_preview;
use agmsg_tui::audit::AuditReport;
use agmsg_tui::bulk::lock::{absent_lock_status, find_lock, lock_owner, LockLookup};
use agmsg_tui::bulk::{
    BulkKind, BulkRunState, BulkTarget, DespawnTarget, ExportFormat, FilterPeriod, MarkReadTarget,
};
use agmsg_tui::clock::{Clock, Timestamp, SECOND_NANOS};
use agmsg_tui::config::Paths;
use agmsg_tui::db::inventory::{read_config, AgentStats, TeamInput};
use agmsg_tui::db::traffic::TeamCount;
use agmsg_tui::db::{Database, MemberSummary, Message};
use agmsg_tui::exec::{CommandResult, ScriptRunner};
use agmsg_tui::input::{KeyCode, KeyEvent, KeyEventKind, KeyModifiers};
use agmsg_tui::notify::{PendingNotification, BURST_ALERT_DURATION};
use agmsg_tui::state::PersistentState;

const BOUNDS: (u16, u16) = (20, 60);

fn main_agent() -> String {
    "chief-main".to_owned()
}

fn clock() -> Clock {
    Clock {
        utc: Timestamp { secs: 1_784_600_000, nanos: 0 },
        instant: 7_000 * SECOND_NANOS,
    }
}

/// The messages and configurations that the screens are filled from.
struct Store {
    messages: Vec<Message>,
    configs: Vec<(String, String)>,
    locks: Vec<(String, String)>,
}

impl Store {
    fn config(&self, team: &str) -> Option<String> {
        self.configs
            .iter()
            .find(|entry| entry.0 == team)
            .map(|entry| entry.1.clone())
    }

    fn roster(&self, team: &str) -> Vec<String> {
        let mut names: Vec<String> = match read_config(&self.config(team), "config.json") {
            Ok(agents) => agents.into_iter().map(|agent| agent.name).collect(),
            Err(_) => Vec::new(),
        };
        names.sort();
        names
    }

    fn of_team(&self, team: &str) -> Vec<Message> {
        let mut rows: Vec<Message> = Vec::new();
        for message in &self.messages {
            if message.team == team {
                rows.push(message.clone());
            }
        }
        rows
    }

    fn team_names(&self) -> Vec<String> {
        let directories = self.configs.iter().map(|entry| entry.0.clone()).collect();
        let stored = self.messages.iter().map(|row| row.team.clone()).collect();
        Database::team_names(&directories, &stored)
    }

    fn teams(&self) -> Vec<agmsg_tui::db::TeamSummary> {
        let counts = self
            .team_names()
            .into_iter()
            .map(|team| TeamCount {
                count: self.of_team(&team).iter().filter(|row| row.read_at.is_none()).count()
                    as i64,
                team,
            })
            .collect();
        Database::team_summaries(self.team_names(), &counts)
    }

    fn answer(&self, query: &Query) -> Reply {
        match query {
            Query::Nothing => Reply::Nothing,
            Query::TeamSummaries => Reply::TeamSummaries(self.teams()),
            Query::Members { team } => {
                let rows = self.of_team(team);
                Reply::Members(
                    self.roster(team)
                        .into_iter()
                        .map(|name| MemberSummary {
                            last_message_at: rows
                                .iter()
                                .filter(|row| row.from_agent == name || row.to_agent == name)
                                .map(|row| row.created_at.clone())
                                .max(),
                            unread_count: rows
                                .iter()
                                .filter(|row| row.to_agent == name && row.read_at.is_none())
                                .count(),
                            name,
                        })
                        .collect(),
                )
            }
            Query::History { team, before_id } => {
                let mut rows = self.of_team(team);
                if let Some(id) = before_id {
                    rows.retain(|row| row.id < *id);
                }
                rows.reverse();
                Reply::History(Database::history(&rows, HISTORY_PAGE_SIZE))
            }
            Query::SearchMatch { team, query, member } => {
                let wanted = query.to_lowercase();
                let found = self.of_team(team).into_iter().find(|row| {
                    let texts = [&row.body, &row.from_agent, &row.to_agent];
                    texts.iter().any(|text| text.to_lowercase().contains(&wanted))
                        && member
                            .as_ref()
                            .map_or(true, |name| row.from_agent == *name || row.to_agent == *name)
                });
                Reply::SearchMatch(found.map(|row| row.id))
            }
            Query::Roster { team } => Reply::Roster(self.roster(team)),
            Query::Agents => {
                let mut teams = Vec::new();
                for team in self.team_names() {
                    let config = read_config(&self.config(&team), "config.json");
                    let stats = match &config {
                        Ok(agents) => agents
                            .iter()
                            .map(|agent| AgentStats {
                                name: agent.name.clone(),
                                last_seen_at: None,
                                sent: 0,
                                received: 0,
                            })
                            .collect(),
                        Err(_) => Vec::new(),
                    };
                    teams.push(TeamInput { team, config, stats });
                }
                Reply::Agents(Database::agent_inventory(teams))
            }
            Query::AuditAnalytics { .. } => Reply::AuditAnalytics {
                pairs: Vec::new(),
                zombies: Vec::new(),
                stale: Vec::new(),
            },
            Query::PairMatrices { .. } => Reply::PairMatrices(Vec::new()),
            Query::AuditHistory => Reply::AuditHistory(Vec::new()),
            Query::AllMessages => Reply::AllMessages(self.messages.iter().cloned().collect()),
            Query::Registration { team, agent } => {
                match Database::agent_registration(&self.config(team), "config.json", agent) {
                    Ok(found) => Reply::Registration(found),
                    Err(error) => Reply::Failed(error),
                }
            }
            Query::MemberInfo { team, agent } => Reply::MemberInfo {
                registration: Database::agent_registration(
                    &self.config(team),
                    "config.json",
                    agent,
                )
                .unwrap_or(None),
                sent: 0,
                received: 0,
            },
            Query::Lock { team, agent } => {
                let names = self.locks.iter().map(|lock| Some(lock.0.clone())).collect();
                Reply::Lock(match find_lock(&names, team, agent) {
                    LockLookup::Found(index) => lock_owner(Some(&self.locks[index].1)),
                    LockLookup::Free => absent_lock_status(false),
                    LockLookup::Unclear => absent_lock_status(true),
                })
            }
            Query::UnreadCount { team, recipient } => Reply::UnreadCount(
                self.of_team(team)
                    .iter()
                    .filter(|row| row.to_agent == *recipient && row.read_at.is_none())
                    .count(),
            ),
            Query::UnreadRecipients { team } => {
                let mut names: Vec<String> = self
                    .of_team(team)
                    .into_iter()
                    .filter(|row| row.read_at.is_none())
                    .map(|row| row.to_agent)
                    .collect();
                names.sort();
                names.dedup();
                Reply::UnreadRecipients(names)
            }
            Query::CurrentDir => Reply::CurrentDir("/tmp/ops".to_owned()),
        }
    }

    /// Answers what an action asks for until it asks for nothing more.
    fn settle(&self, app: &mut App, action: AppAction) -> AppAction {
        let mut action = action;
        loop {
            match action {
                AppAction::Load(query) => {
                    action = app.supply(self.answer(&query), clock());
                }
                AppAction::Fail(error) => panic!("{error}"),
                other => return other,
            }
        }
    }

    fn press(&self, app: &mut App, code: KeyCode) -> AppAction {
        let action = app.handle_key(KeyEvent::new(code, KeyModifiers::none()), clock());
        self.settle(app, action)
    }

    fn character(&self, app: &mut App, character: char) -> AppAction {
        self.press(app, KeyCode::Char(character))
    }

    fn control(&self, app: &mut App, character: char) -> AppAction {
        let key = KeyEvent::new(KeyCode::Char(character), KeyModifiers::ctrl());
        let action = app.handle_key(key, clock());
        self.settle(app, action)
    }

    fn type_text(&self, app: &mut App, text: &str) {
        for character in text.chars() {
            self.character(app, character);
        }
    }

    fn start(&self, saved: PersistentState, identity: Option<String>) -> App {
        let (mut app, action) = App::load(
            paths(),
            "chief".to_owned(),
            identity,
            self.teams(),
            saved,
            BOUNDS,
            None,
            clock(),
        );
        let done = self.settle(&mut app, action);
        assert!(matches!(done, AppAction::Nothing));
        app
    }
}

fn paths() -> Paths {
    Paths {
        db: "/t/messages.db".to_owned(),
        teams_dir: "/t/teams".to_owned(),
        scripts_dir: "/t/scripts".to_owned(),
        audit_script: "/t/agmsg-audit".to_owned(),
        report_dir: "/t/reports".to_owned(),
        state_file: "/t/state.json".to_owned(),
    }
}

fn agent_entry(name: &str, agent_type: &str) -> String {
    format!(r#""{name}":{{"registrations":[{{"type":"{agent_type}","project":"/tmp/ops"}}]}}"#)
}

fn fixture_app_with_messages(rows: &[(&str, &str, &str)]) -> (Store, App) {
    let messages = rows
        .iter()
        .enumerate()
        .map(|(index, (from, to, body))| Message {
            id: index as i64 + 1,
            team: "ops".to_owned(),
            from_agent: (*from).to_owned(),
            to_agent: (*to).to_owned(),
            body: (*body).to_owned(),
            created_at: format!("2026-01-01T00:{index:02}:00Z"),
            read_at: None,
        })
        .collect();
    let config = format!(
        r#"{{"agents":{{{},{},{}}}}}"#,
        agent_entry(&main_agent(), "chief-code"),
        agent_entry("codex-worker", "codex"),
        agent_entry("cursor-1", "cursor"),
    );
    let store = Store {
        messages,
        configs: vec![("ops".to_owned(), config)],
        locks: Vec::new(),
    };
    let app = store.start(PersistentState::fresh(30), None);
    (store, app)
}

fn fixture_app() -> (Store, App) {
    let config = format!(
        r#"{{"agents":{{{},{}}}}}"#,
        agent_entry(&main_agent(), "chief-code"),
        agent_entry("codex-worker", "codex"),
    );
    let store = Store {
        messages: Vec::new(),
        configs: vec![("ops".to_owned(), config)],
        locks: Vec::new(),
    };
    let app = store.start(PersistentState::fresh(30), None);
    (store, app)
}

fn outcome(success: bool, code: i32, stdout: &str, stderr: &str) -> CommandResult {
    CommandResult {
        success,
        exit_code: Some(code),
        stdout: stdout.to_owned(),
        stderr: stderr.to_owned(),
    }
}

fn is_expanded(app: &App, team: &str, id: i64) -> bool {
    app.room
        .expanded_messages
        .iter()
        .any(|expanded| expanded.team == team && expanded.id == id)
}

fn is_folded(app: &App) -> bool {
    let message = app.selected_message().expect("seed message");
    app.body_is_folded(message, message.body.chars().count())
}

#[test]
fn composer_preflight_uses_utf8_bytes_and_boundary_levels() {
    let mut composer = ComposerState {
        roster: Vec::new(),
        from_index: 0,
        to_index: 0,
        body: "a".repeat(2_048),
        cursor: 0,
    };
    assert_eq!(composer.body_size_level(), BodySizeLevel::Normal);
    composer.body.push('あ');
    assert_eq!(composer.body_bytes(), 2_051);
    assert_eq!(composer.body_size_level(), BodySizeLevel::Warning);
    composer.body = "a".repeat(4_097);
    assert_eq!(composer.body_size_level(), BodySizeLevel::Blocked);
}

#[test]
fn composer_blocks_send_above_hard_limit() {
    let (store, mut app) = fixture_app();
    store.character(&mut app, 'c');
    app.writing.composer.as_mut().expect("composer").body = "a".repeat(4_097);
    let action = store.control(&mut app, 's');
    assert!(matches!(action, AppAction::Nothing));
    assert_eq!(app.display.screen, Screen::Composer);
    assert!(app.status.is_error);
}

#[test]
fn audit_navigation_requests_once_and_tab_returns_main() {
    let (store, mut app) = fixture_app();
    let action = store.control(&mut app, 'a');
    assert!(matches!(action, AppAction::RefreshAudit));
    assert_eq!(app.display.screen, Screen::Audit);
    assert!(app.audit.loading);
    let duplicate = store.character(&mut app, 'R');
    assert!(matches!(duplicate, AppAction::Nothing));
    app.complete_audit_error("failed".to_owned());
    store.press(&mut app, KeyCode::Tab);
    assert_eq!(app.display.screen, Screen::Main);
}

#[test]
fn member_filter_toggle_restricts_room_navigation_to_matching_messages() {
    let main = main_agent();
    let (store, mut app) = fixture_app_with_messages(&[
        (&main, "codex-worker", "hello"),
        ("cursor-1", "codex-worker", "unrelated"),
        ("codex-worker", &main, "reply"),
    ]);
    app.room.focus = Focus::Members;
    app.room.selected_member = app
        .room
        .members
        .iter()
        .position(|member| member.name == "cursor-1")
        .expect("cursor-1 present in roster");
    store.character(&mut app, 'F');
    assert_eq!(app.room.member_filter.as_deref(), Some("cursor-1"));

    app.room.focus = Focus::Room;
    app.room.selected_message = 0;
    store.character(&mut app, 'j');
    let selected = app.selected_message().expect("a message stays selected");
    assert!(
        selected.from_agent == "cursor-1" || selected.to_agent == "cursor-1",
        "j should skip messages that don't involve the filtered member"
    );

    app.room.focus = Focus::Members;
    store.character(&mut app, 'F');
    assert!(app.room.member_filter.is_none(), "re-pressing F clears the filter");
}

#[test]
fn body_fold_state_toggles_via_x_key_and_tracks_by_message_id() {
    let long_body = format!("{}{}", "line\n".repeat(30), "x".repeat(600));
    let (store, mut app) =
        fixture_app_with_messages(&[(&main_agent(), "codex-worker", &long_body)]);
    let message_id = app.selected_message().expect("seed message").id;
    assert!(is_folded(&app));

    let (preview, trimmed) = fold_preview(&long_body);
    assert!(trimmed > 0, "a >500-char body must report trimmed chars");
    assert!(preview.split('\n').count() <= FOLD_PREVIEW_LINES);

    app.room.focus = Focus::Room;
    store.character(&mut app, 'X');
    assert!(is_expanded(&app, "ops", message_id));
    assert!(!is_folded(&app));

    store.character(&mut app, 'X');
    assert!(!is_expanded(&app, "ops", message_id));
}

#[test]
fn incremental_search_is_case_insensitive_and_n_cycles_across_fields() {
    let (store, mut app) = fixture_app_with_messages(&[
        (&main_agent(), "codex-worker", "ordinary"),
        ("REVise-bot", "codex-worker", "from hit"),
        ("cursor-1", "review-bot", "to hit"),
        ("cursor-1", "codex-worker", "body has RevISION"),
    ]);
    app.room.focus = Focus::Room;
    for key in [
        KeyCode::Char('/'),
        KeyCode::Char('r'),
        KeyCode::Char('e'),
        KeyCode::Char('v'),
        KeyCode::Enter,
    ] {
        store.press(&mut app, key);
    }

    assert_eq!(app.room.input_mode, InputMode::Normal);
    assert_eq!(app.room.search_query.as_deref(), Some("rev"));
    assert_eq!(app.room.selected_message, 1, "Enter jumps to the first hit");
    store.character(&mut app, 'n');
    assert_eq!(app.room.selected_message, 2, "n advances to the to-agent hit");
    store.character(&mut app, 'N');
    assert_eq!(app.room.selected_message, 1, "N returns to the previous hit");

    app.room.member_filter = Some("codex-worker".to_owned());
    store.character(&mut app, 'n');
    assert_eq!(
        app.room.selected_message, 3,
        "search and member filters must compose with AND"
    );
}

#[test]
fn escape_clears_search_and_restores_unfiltered_navigation() {
    let main = main_agent();
    let (store, mut app) = fixture_app_with_messages(&[
        (&main, "codex-worker", "first"),
        ("cursor-1", "codex-worker", "ordinary"),
        (&main, "codex-worker", "needle"),
    ]);
    app.room.focus = Focus::Room;
    for key in [
        KeyCode::Char('/'),
        KeyCode::Char('n'),
        KeyCode::Char('e'),
        KeyCode::Char('e'),
        KeyCode::Enter,
    ] {
        store.press(&mut app, key);
    }
    assert_eq!(app.room.selected_message, 2);

    let action = store.press(&mut app, KeyCode::Esc);
    assert!(matches!(action, AppAction::Nothing));
    assert!(app.room.search_query.is_none());
    assert_eq!(app.display.screen, Screen::Main);
    app.room.selected_message = 0;
    store.character(&mut app, 'j');
    assert_eq!(app.room.selected_message, 1);
}

#[test]
fn main_escape_does_not_quit_and_composer_draft_is_restored() {
    let (store, mut app) = fixture_app();
    let action = store.press(&mut app, KeyCode::Esc);
    assert!(matches!(action, AppAction::Nothing));
    assert_eq!(app.display.screen, Screen::Main);

    store.character(&mut app, 'c');
    store.type_text(&mut app, "draft body");
    store.press(&mut app, KeyCode::Esc);
    assert_eq!(app.display.screen, Screen::Main);
    assert!(app.writing.composer.is_none());

    store.character(&mut app, 'c');
    assert_eq!(app.display.screen, Screen::Composer);
    assert_eq!(app.writing.composer.as_ref().expect("composer").body, "draft body");
    assert_eq!(app.status.text, "draft restored (Ctrl-K to clear)");
}

#[test]
fn yank_source_is_full_body_even_when_message_is_folded() {
    let long_body = format!("{}{}", "line\n".repeat(30), "tail".repeat(150));
    let (store, mut app) =
        fixture_app_with_messages(&[(&main_agent(), "codex-worker", &long_body)]);
    app.room.focus = Focus::Room;
    assert!(is_folded(&app));
    assert_eq!(app.selected_message_body(), Some(long_body.as_str()));

    match store.character(&mut app, 'y') {
        AppAction::Yank(body) => assert_eq!(body, long_body),
        _ => panic!("Room y must request a full-body yank"),
    }
}

#[test]
fn agents_toggle_is_lazy_and_preserves_main_selection_state() {
    let (store, mut app) = fixture_app();
    app.room.focus = Focus::Members;
    app.room.selected_member = 1;
    assert!(app.agents.teams.is_empty(), "inventory must be lazy");

    store.character(&mut app, 'A');
    assert_eq!(app.display.screen, Screen::Agents);
    assert_eq!(app.agents.teams.len(), 1);
    assert_eq!(app.agents.teams[0].identities.len(), 2);

    store.character(&mut app, '?');
    assert_eq!(app.display.screen, Screen::Help);
    store.press(&mut app, KeyCode::Esc);
    assert_eq!(app.display.screen, Screen::Agents);

    store.press(&mut app, KeyCode::Esc);
    assert_eq!(app.display.screen, Screen::Main);
    assert_eq!(app.room.focus, Focus::Members);
    assert_eq!(app.room.selected_member, 1);
}

#[test]
fn members_pane_n_opens_spawn_wizard_with_team_default() {
    let (store, mut app) = fixture_app();
    app.room.focus = Focus::Members;
    assert!(app.agents.teams.is_empty(), "inventory must be lazy");

    store.character(&mut app, 'n');

    assert_eq!(app.display.screen, Screen::Agents);
    match &app.agents.modal {
        Some(AgentModal::Spawn(state)) => {
            assert_eq!(state.team_index, app.agents.team_index);
            assert_eq!(app.agents.teams[state.team_index].name, "ops");
        }
        other => panic!("expected spawn modal, got {other:?}"),
    }
}

#[test]
fn members_pane_r_opens_rename_modal_for_selected_member() {
    let (store, mut app) = fixture_app();
    app.room.focus = Focus::Members;
    app.room.selected_member = 0;
    let expected_name = app.room.members[0].name.clone();

    store.character(&mut app, 'R');

    assert_eq!(app.display.screen, Screen::Agents);
    match &app.agents.modal {
        Some(AgentModal::Rename { target, input, confirming, .. }) => {
            assert_eq!(target.name, expected_name);
            assert!(input.is_empty());
            assert!(!confirming);
        }
        other => panic!("expected rename modal, got {other:?}"),
    }
}

#[test]
fn rename_requires_enter_then_y_and_marks_self_for_bridge_restart() {
    let (store, mut app) = fixture_app();
    app.current_identity = Some(main_agent());
    store.character(&mut app, 'A');
    store.character(&mut app, 'R');
    assert!(matches!(
        app.agents.modal,
        Some(AgentModal::Rename { self_rename: true, .. })
    ));

    let premature = store.character(&mut app, 'y');
    assert!(matches!(premature, AppAction::Nothing));
    store.press(&mut app, KeyCode::Esc);
    store.character(&mut app, 'R');
    store.type_text(&mut app, "chief-code-lead");
    store.press(&mut app, KeyCode::Enter);
    let action = store.character(&mut app, 'y');
    assert!(matches!(
        action,
        AppAction::ManageAgent(AgentOperation::Rename { self_rename: true, .. })
    ));
}

#[test]
fn reset_refuses_self_and_requires_exact_uppercase_yes() {
    let (store, mut app) = fixture_app();
    app.current_identity = Some(main_agent());
    store.character(&mut app, 'A');
    store.character(&mut app, 'X');
    assert!(matches!(
        app.agents.modal,
        Some(AgentModal::Reset { blocked: true, .. })
    ));
    let blocked = store.press(&mut app, KeyCode::Enter);
    assert!(matches!(blocked, AppAction::Nothing));

    store.press(&mut app, KeyCode::Esc);
    app.current_identity = Some("other-agent".to_owned());
    store.character(&mut app, 'X');
    store.type_text(&mut app, "yes");
    let rejected = store.press(&mut app, KeyCode::Enter);
    assert!(matches!(rejected, AppAction::Nothing));
    for _ in 0..3 {
        store.press(&mut app, KeyCode::Backspace);
    }
    store.type_text(&mut app, "YES");
    let accepted = store.press(&mut app, KeyCode::Enter);
    assert!(matches!(
        accepted,
        AppAction::ManageAgent(AgentOperation::Reset { .. })
    ));
}

fn leaves(app: &App, wanted: &str) -> bool {
    matches!(
        &app.agents.modal,
        Some(AgentModal::Leave { team, agent, .. }) if team == "ops" && agent == wanted
    )
}

#[test]
fn identity_focus_leave_opens_modal_with_selected_agent() {
    let (store, mut app) = fixture_app();
    store.character(&mut app, 'A');
    assert_eq!(app.agents.focus, AgentFocus::Identities);
    store.character(&mut app, 'L');
    assert!(leaves(&app, &main_agent()));
    store.type_text(&mut app, "YES");
    let action = store.press(&mut app, KeyCode::Enter);
    assert!(matches!(
        action,
        AppAction::ManageAgent(AgentOperation::Leave { .. })
    ));
}

#[test]
fn team_focus_leave_defaults_to_first_identity_when_env_unset() {
    let (store, mut app) = fixture_app();
    assert!(app.current_identity.is_none());
    store.character(&mut app, 'A');
    store.character(&mut app, 't');
    store.character(&mut app, 'L');
    assert!(leaves(&app, &main_agent()));
}

#[test]
fn team_focus_leave_uses_env_identity_when_set() {
    let (store, mut app) = fixture_app();
    app.current_identity = Some("codex-worker".to_owned());
    store.character(&mut app, 'A');
    store.character(&mut app, 't');
    assert_eq!(app.agents.focus, AgentFocus::Teams);
    store.character(&mut app, 'L');
    assert!(leaves(&app, "codex-worker"));
}

#[test]
fn team_focus_leave_falls_back_to_first_identity_when_env_is_not_registered() {
    let (store, mut app) = fixture_app();
    app.current_identity = Some("stranger".to_owned());
    store.character(&mut app, 'A');
    store.character(&mut app, 't');
    store.character(&mut app, 'L');
    assert!(leaves(&app, &main_agent()));
    assert!(!app.status.is_error);
}

#[test]
fn team_focus_leave_errors_when_team_has_no_identities() {
    let store = Store {
        messages: Vec::new(),
        configs: vec![("empty-team".to_owned(), r#"{"agents":{}}"#.to_owned())],
        locks: Vec::new(),
    };
    let mut app = store.start(PersistentState::fresh(30), None);

    store.character(&mut app, 'A');
    store.character(&mut app, 't');
    store.character(&mut app, 'L');
    assert!(app.agents.modal.is_none());
    assert!(app.status.is_error);
    assert_eq!(app.status.text, "empty-team has no identities to leave");
}

#[test]
fn rename_identity_from_teams_focus_opens_modal() {
    let (store, mut app) = fixture_app();
    store.character(&mut app, 'A');
    store.character(&mut app, 't');
    assert_eq!(app.agents.focus, AgentFocus::Teams);
    store.character(&mut app, 'R');
    assert!(matches!(
        &app.agents.modal,
        Some(AgentModal::Rename { target, .. }) if target.name == main_agent()
    ));
}

#[test]
fn rename_team_from_identity_focus_opens_modal() {
    let (store, mut app) = fixture_app();
    store.character(&mut app, 'A');
    assert_eq!(app.agents.focus, AgentFocus::Identities);
    store.character(&mut app, 'T');
    assert!(matches!(
        &app.agents.modal,
        Some(AgentModal::RenameTeam { old, .. }) if old == "ops"
    ));
}

#[test]
fn reset_from_teams_focus_sets_guidance_status() {
    let (store, mut app) = fixture_app();
    store.character(&mut app, 'A');
    store.character(&mut app, 't');
    store.character(&mut app, 'X');
    assert!(app.agents.modal.is_none());
    assert!(app.status.is_error);
    assert_eq!(
        app.status.text,
        "X: switch to identity focus (Tab) and select a target"
    );
}

#[test]
fn yank_from_teams_focus_returns_yank_action() {
    let (store, mut app) = fixture_app_with_messages(&[(&main_agent(), "codex-worker", "hi")]);
    assert_eq!(app.room.focus, Focus::Teams);
    let action = store.character(&mut app, 'y');
    assert!(matches!(action, AppAction::Yank(body) if body == "hi"));
}

#[test]
fn yank_without_message_sets_status() {
    let (store, mut app) = fixture_app_with_messages(&[]);
    let action = store.character(&mut app, 'y');
    assert!(matches!(action, AppAction::Nothing));
    assert!(app.status.is_error);
    assert_eq!(app.status.text, "no message selected");
}

#[test]
fn startup_without_identity_sets_warning_status() {
    let (_store, app) = fixture_app();
    assert!(app.current_identity.is_none());
    assert!(app.status.text.starts_with("⚠ AGMSG_IDENTITY unset"));
    assert!(!app.status.is_error);
}

#[test]
fn composer_c_defaults_from_to_current_identity() {
    let (store, mut app) = fixture_app();
    app.current_identity = Some("codex-worker".to_owned());
    store.character(&mut app, 'c');
    let composer = app.writing.composer.as_ref().expect("composer open");
    assert_eq!(composer.from_agent(), Some("codex-worker"));
}

#[test]
fn agent_command_errors_fall_back_to_stdout_and_reset_noop_warns() {
    let (store, mut app) = fixture_app();
    store.character(&mut app, 'A');
    let rename = AgentOperation::Rename {
        team: "ops".to_owned(),
        old: "codex-worker".to_owned(),
        new: "codex-review".to_owned(),
        self_rename: false,
    };
    let action = app.complete_agent_operation(
        rename,
        outcome(false, 1, "Agent codex-worker not in team", ""),
        clock(),
    );
    store.settle(&mut app, action);
    assert_eq!(app.status.text, "Agent codex-worker not in team");
    assert!(app.status.is_error);

    let join = AgentOperation::Join {
        team: "new-team".to_owned(),
        agent: "codex-worker".to_owned(),
        agent_type: "codex".to_owned(),
        project: "/tmp/ops".to_owned(),
    };
    let action = app.complete_agent_operation(
        join,
        outcome(false, 1, "", "'codex-worker' was renamed to 'codex-review'"),
        clock(),
    );
    store.settle(&mut app, action);
    assert!(matches!(app.agents.modal, Some(AgentModal::JoinForce { .. })));
    let force = store.character(&mut app, 'y');
    assert!(matches!(
        force,
        AppAction::ManageAgent(AgentOperation::JoinForce { .. })
    ));

    let reset = AgentOperation::Reset {
        project: "/tmp/ops".to_owned(),
        agent_type: "codex".to_owned(),
        agent: "codex-worker".to_owned(),
    };
    let action = app.complete_agent_operation(
        reset,
        outcome(true, 0, "No registrations removed.", ""),
        clock(),
    );
    store.settle(&mut app, action);
    assert_eq!(app.status.text, "⚠ No registrations removed.");
    assert!(!app.status.is_error);
}

fn unread_message(id: i64, from: &str) -> Message {
    Message {
        id,
        team: "ops".to_owned(),
        from_agent: from.to_owned(),
        to_agent: main_agent(),
        body: format!("ping {id}"),
        created_at: "2026-01-01T01:00:00Z".to_owned(),
        read_at: None,
    }
}

#[test]
fn new_unread_message_for_selected_team_queues_bell_and_desktop_notification() {
    let (store, mut app) = fixture_app();
    let action = app.receive_new_messages(vec![unread_message(1, "codex-worker")], clock());
    store.settle(&mut app, action);
    let queued = app.drain_pending_notifications();
    assert_eq!(
        queued,
        vec![
            PendingNotification::Bell,
            PendingNotification::Desktop {
                from: "codex-worker".to_owned(),
                body: "ping 1".to_owned(),
            },
        ]
    );
}

#[test]
fn muted_bell_setting_suppresses_only_the_bell_notification() {
    let (store, mut app) = fixture_app();
    app.notices.settings.bell = false;
    let action = app.receive_new_messages(vec![unread_message(1, "codex-worker")], clock());
    store.settle(&mut app, action);
    let queued = app.drain_pending_notifications();
    assert_eq!(
        queued,
        vec![PendingNotification::Desktop {
            from: "codex-worker".to_owned(),
            body: "ping 1".to_owned(),
        }]
    );
}

#[test]
fn ctrl_b_toggles_bell_mute_and_reports_status() {
    let (store, mut app) = fixture_app();
    assert!(app.notices.settings.bell);
    store.control(&mut app, 'b');
    assert!(!app.notices.settings.bell);
    assert_eq!(app.status.text, "terminal bell muted");
    store.control(&mut app, 'b');
    assert!(app.notices.settings.bell);
    assert_eq!(app.status.text, "terminal bell unmuted");
}

#[test]
fn ctrl_n_opens_popup_and_enter_toggles_selected_row() {
    let (store, mut app) = fixture_app();
    store.control(&mut app, 'n');
    assert_eq!(app.notices.popup, Some(0));
    assert!(app.notices.settings.desktop);

    store.character(&mut app, 'j');
    assert_eq!(app.notices.popup, Some(1));
    store.press(&mut app, KeyCode::Enter);
    assert!(!app.notices.settings.desktop);

    store.press(&mut app, KeyCode::Esc);
    assert_eq!(app.notices.popup, None);
}

#[test]
fn burst_of_messages_sets_alert_and_suppresses_bell_and_desktop() {
    let (_store, mut app) = fixture_app();
    let now = clock().instant;
    let flood: Vec<Message> = (1..=25)
        .map(|id| unread_message(id, "codex-worker"))
        .collect();
    app.notices.notify_for_arrivals(flood.len(), flood.last().cloned(), now);
    assert!(app.notices.burst_alert.is_some());
    assert!(app.is_burst_active(now));
    assert!(app.drain_pending_notifications().is_empty());
}

#[test]
fn burst_alert_expires_after_its_display_window() {
    let (_store, mut app) = fixture_app();
    let now = clock().instant;
    app.notices
        .notify_for_arrivals(25, Some(unread_message(1, "codex-worker")), now);
    assert!(app.is_burst_active(now));
    let later = now + BURST_ALERT_DURATION + SECOND_NANOS;
    assert!(!app.is_burst_active(later));
    assert!(app.notices.expire_burst_alert(later));
    assert!(app.notices.burst_alert.is_none());
}

#[test]
fn in_flight_suppresses_duplicate_send_and_mark_and_reports_recipient_scope() {
    let (store, mut app) =
        fixture_app_with_messages(&[(&main_agent(), "codex-worker", "unread")]);
    app.room.focus = Focus::Room;
    let mark = store.character(&mut app, 'r');
    assert!(matches!(mark, AppAction::MarkRecipient { unread_count: 1, .. }));
    assert!(app.start_operation(InFlightOperation::MarkRead));
    let duplicate = store.character(&mut app, 'r');
    assert!(matches!(duplicate, AppAction::Nothing));
    app.finish_operation();
    let action = app.complete_mark_read(&outcome(true, 0, "", ""), "codex-worker", 1, clock());
    store.settle(&mut app, action);
    assert_eq!(
        app.status.text,
        "marked read: all for codex-worker (1 msgs)"
    );

    store.character(&mut app, 'c');
    app.writing.composer.as_mut().expect("composer").body = "hello".to_owned();
    let send = store.control(&mut app, 's');
    assert!(matches!(send, AppAction::Send(_)));
    assert!(app.start_operation(InFlightOperation::Send));
    let duplicate = store.control(&mut app, 's');
    assert!(matches!(duplicate, AppAction::Nothing));
    assert!(app.advance_spinner());
    assert!(app.status.text.starts_with("sending... "));
}

#[test]
fn robust_navigation_and_database_search_cover_unloaded_history() {
    let (mut store, mut app) = fixture_app();
    for index in 0..215 {
        let from = if matches!(index, 20 | 150) {
            "cursor-1".to_owned()
        } else {
            main_agent()
        };
        let body = if index == 0 {
            "needle outside initial page"
        } else {
            "ordinary"
        };
        let read_at = (!matches!(index, 20 | 80)).then_some("2026-01-02T00:00:00Z".to_owned());
        store.messages.push(Message {
            id: index + 1,
            team: "ops".to_owned(),
            from_agent: from,
            to_agent: "codex-worker".to_owned(),
            body: body.to_owned(),
            created_at: format!("2026-01-01T00:{index:03}:00Z"),
            read_at,
        });
    }
    app.room.focus = Focus::Teams;
    store.press(&mut app, KeyCode::Enter);
    assert_eq!(app.room.messages.len(), 200);

    app.room.focus = Focus::Room;
    app.room.member_filter = Some("cursor-1".to_owned());
    store.character(&mut app, 'g');
    assert_eq!(
        app.selected_message().expect("first").from_agent,
        "cursor-1"
    );
    let first_cursor_id = app.selected_message().expect("first").id;
    store.control(&mut app, 'u');
    assert_eq!(
        app.selected_message().expect("filtered first stays selected").id,
        first_cursor_id
    );
    store.character(&mut app, 'G');
    assert_eq!(app.selected_message().expect("last").from_agent, "cursor-1");
    assert_ne!(app.selected_message().expect("last").id, first_cursor_id);

    app.room.member_filter = None;
    app.room.selected_message = 0;
    store.control(&mut app, 'd');
    assert_eq!(app.room.selected_message, 10);
    store.control(&mut app, 'u');
    assert_eq!(app.room.selected_message, 0);
    store.character(&mut app, 'u');
    assert_eq!(app.selected_message().expect("unread").read_at, None);

    for key in [
        KeyCode::Char('/'),
        KeyCode::Char('n'),
        KeyCode::Char('e'),
        KeyCode::Char('e'),
        KeyCode::Char('d'),
        KeyCode::Char('l'),
        KeyCode::Char('e'),
        KeyCode::Enter,
    ] {
        store.press(&mut app, key);
    }
    assert_eq!(
        app.selected_message().expect("global hit").body,
        "needle outside initial page"
    );
    assert!(app.room.messages.len() > 200);
}

#[test]
fn fold_state_survives_team_round_trip_and_app_state_restores() {
    let long_body = "x".repeat(600);
    let (mut store, mut app) =
        fixture_app_with_messages(&[(&main_agent(), "codex-worker", &long_body)]);
    store.configs.push((
        "zeta".to_owned(),
        format!(r#"{{"agents":{{"{}":{{}},"codex-worker":{{}}}}}}"#, main_agent()),
    ));
    store.messages.push(Message {
        id: 2,
        team: "zeta".to_owned(),
        from_agent: main_agent(),
        to_agent: "codex-worker".to_owned(),
        body: "zeta".to_owned(),
        created_at: "2026-01-02T00:00:00Z".to_owned(),
        read_at: None,
    });
    app.room.take_teams(store.teams());

    app.room.focus = Focus::Room;
    let expanded_id = app.selected_message().expect("ops message").id;
    store.character(&mut app, 'X');
    store.character(&mut app, ']');
    assert_eq!(app.selected_team_name(), Some("zeta"));
    store.character(&mut app, '[');
    assert_eq!(app.selected_team_name(), Some("ops"));
    assert!(is_expanded(&app, "ops", expanded_id));

    app.display.sidebar_pct = 47;
    app.notices.settings.desktop = false;
    app.writing.drafts.push(Draft {
        team: "ops".to_owned(),
        composer: ComposerState {
            roster: vec![main_agent(), "codex-worker".to_owned()],
            from_index: 0,
            to_index: 1,
            body: "saved for ops".to_owned(),
            cursor: 13,
        },
    });
    store.character(&mut app, ']');
    let saved = app.persistence_snapshot();

    let restored = store.start(saved, None);
    assert_eq!(restored.display.sidebar_pct, 47);
    assert_eq!(restored.selected_team_name(), Some("zeta"));
    assert!(!restored.notices.settings.desktop);
    assert_eq!(
        restored
            .writing
            .drafts
            .iter()
            .find(|draft| draft.team == "ops")
            .map(|draft| draft.composer.body.as_str()),
        Some("saved for ops")
    );
}

#[test]
fn agent_operation_start_returns_control_immediately_and_blocks_reentry() {
    let (store, mut app) = fixture_app();
    store.character(&mut app, 'A');
    store.character(&mut app, 't');
    store.character(&mut app, 'T');
    store.type_text(&mut app, "ops2");
    store.press(&mut app, KeyCode::Enter);
    let action = store.character(&mut app, 'y');
    assert!(matches!(
        action,
        AppAction::ManageAgent(AgentOperation::RenameTeam { .. })
    ));

    assert!(app.start_operation(InFlightOperation::Agent));
    let reentry = store.character(&mut app, 'n');
    assert!(matches!(reentry, AppAction::Nothing));
    assert!(
        app.agents.modal.is_none(),
        "reentry must not open a second modal while the first op is running"
    );
    assert!(app.advance_spinner());
    assert!(app.status.text.starts_with("running agent op... "));

    app.finish_operation();
    assert!(app.start_operation(InFlightOperation::Agent));
}

#[test]
fn fold_all_toggles_every_foldable_message_in_the_team() {
    let main = main_agent();
    let long_body = "x".repeat(FOLD_CHAR_THRESHOLD + 10);
    let (store, mut app) = fixture_app_with_messages(&[
        (&main, "codex-worker", &long_body),
        ("codex-worker", &main, &long_body),
        (&main, "codex-worker", "short"),
    ]);
    let team = app.selected_team_name().unwrap().to_owned();
    let expanded = |app: &App| {
        app.room.expanded_messages.iter().filter(|entry| entry.team == team).count()
    };
    assert_eq!(expanded(&app), 0, "starts collapsed");

    store.character(&mut app, 'f');
    assert_eq!(expanded(&app), 2);
    assert!(app.status.text.starts_with("unfolded"));

    store.character(&mut app, 'f');
    assert_eq!(expanded(&app), 0);
    assert!(app.status.text.starts_with("folded"));
}

#[test]
fn jump_to_sender_selects_nearest_message_from_same_sender() {
    let main = main_agent();
    let (store, mut app) = fixture_app_with_messages(&[
        (&main, "codex-worker", "one"),
        ("codex-worker", &main, "two"),
        (&main, "codex-worker", "three"),
    ]);
    app.room.focus = Focus::Room;
    app.room.selected_message = 0;
    store.character(&mut app, 's');
    assert_eq!(app.room.selected_message, 2);
    assert_eq!(app.status.text, format!("jumped to {main}"));
}

#[test]
fn jump_to_sender_without_another_match_sets_status() {
    let main = main_agent();
    let (store, mut app) = fixture_app_with_messages(&[(&main, "codex-worker", "one")]);
    app.room.focus = Focus::Room;
    store.character(&mut app, 's');
    assert_eq!(app.room.selected_message, 0);
    assert_eq!(app.status.text, format!("no other message from {main}"));
}

#[test]
fn audit_x_exports_and_g_jumps_to_top() {
    let (store, mut app) = fixture_app();
    app.display.screen = Screen::Audit;
    let export = store.character(&mut app, 'x');
    assert!(matches!(export, AppAction::ExportReport));

    app.audit.selected = 3;
    store.character(&mut app, 'g');
    assert_eq!(app.audit.selected, 0);
}

#[test]
fn member_rename_without_selection_sets_status() {
    let (store, mut app) = fixture_app_with_messages(&[]);
    assert!(!app.room.members.is_empty(), "fixture roster seeds MEMBER rows");
    app.room.selected_member = app.room.members.len();
    app.room.focus = Focus::Members;
    store.character(&mut app, 'R');
    assert_eq!(app.display.screen, Screen::Main);
    assert!(app.status.is_error);
    assert_eq!(app.status.text, "no member selected");
}

#[test]
fn search_next_without_query_sets_hint() {
    let (store, mut app) = fixture_app_with_messages(&[(&main_agent(), "codex-worker", "hi")]);
    app.room.focus = Focus::Room;
    let next = store.character(&mut app, 'n');
    assert!(matches!(next, AppAction::Nothing));
    assert!(!app.status.is_error);
    assert_eq!(app.status.text, "no active search (press /)");

    let previous = store.character(&mut app, 'N');
    assert!(matches!(previous, AppAction::Nothing));
    assert_eq!(app.status.text, "no active search (press /)");
}

#[test]
fn fold_toggle_on_short_message_sets_status() {
    let (store, mut app) = fixture_app_with_messages(&[(&main_agent(), "codex-worker", "short")]);
    app.room.focus = Focus::Room;
    store.character(&mut app, 'X');
    assert!(!app.status.is_error);
    assert_eq!(app.status.text, "message too short to fold");
}

#[test]
fn fold_toggle_without_message_sets_status() {
    let (store, mut app) = fixture_app_with_messages(&[]);
    app.room.focus = Focus::Room;
    store.character(&mut app, 'x');
    assert!(app.status.is_error);
    assert_eq!(app.status.text, "no message selected");
}

#[test]
fn identities_focus_enter_opens_and_closes_identity_info_popup() {
    let (store, mut app) = fixture_app();
    store.character(&mut app, 'A');
    assert_eq!(app.agents.focus, AgentFocus::Identities);

    store.press(&mut app, KeyCode::Enter);
    let info = app.agents.identity_info.clone().expect("info popup open");
    assert!(info.contains(&format!("Agent: {}", main_agent())));

    store.character(&mut app, 'T');
    assert!(app.agents.modal.is_none());

    store.press(&mut app, KeyCode::Esc);
    assert!(app.agents.identity_info.is_none());
}

#[test]
fn complete_yank_fallback_logs_body_and_reports_path() {
    let (_store, mut app) = fixture_app();
    let path = app.yank_fallback_path();
    app.complete_yank_fallback(Ok(()));
    assert!(!app.status.is_error);
    assert!(app.status.text.starts_with("clipboard unavailable, message logged to"));
    assert!(app.status.text.ends_with(&path));
    assert_eq!(path, "/t/reports/agmsg-tui-clipboard-fallback.txt");
    app.complete_yank_fallback(Err("disk full".to_owned()));
    assert!(app.status.is_error);
}

#[test]
fn warn_notify_failure_once_fires_a_single_time() {
    let (_store, mut app) = fixture_app();
    app.status = StatusLine { text: "ready".to_owned(), is_error: false };
    app.warn_notify_failure_once();
    assert_eq!(app.status.text, "⚠ notification unavailable");
    app.status = StatusLine { text: "something else".to_owned(), is_error: false };
    app.warn_notify_failure_once();
    assert_eq!(app.status.text, "something else", "second warning must be muted");
}

fn run_state(app: &App) -> Option<&BulkRunState> {
    app.bulk.operation.as_ref().map(|operation| &operation.state)
}

#[test]
fn bulk_mark_read_requires_exact_yes_then_tracks_message_progress() {
    let (store, mut app) =
        fixture_app_with_messages(&[(&main_agent(), "codex-worker", "bulk me")]);
    store.control(&mut app, 'f');
    let filter = app.bulk.filter.as_mut().expect("filter loaded");
    filter.period = FilterPeriod::All;
    filter.recompute(clock().utc);
    store.character(&mut app, 'M');
    store.type_text(&mut app, "YES");
    let action = store.press(&mut app, KeyCode::Enter);
    assert!(matches!(
        action,
        AppAction::RunBulk { target: BulkTarget::MarkRead(_), force_despawn: false }
    ));
    let target = app
        .bulk
        .operation
        .as_ref()
        .and_then(|operation| operation.current_target())
        .cloned()
        .expect("target");
    let next = app.complete_bulk_target(
        target,
        Ok(outcome(true, 0, "1 new message(s)", "")),
        clock(),
    );
    let next = store.settle(&mut app, next);
    assert!(matches!(next, AppAction::Nothing));
    assert_eq!(app.status.text, "marked 1 msgs as read (0 failed)");
    assert!(matches!(run_state(&app), Some(BulkRunState::Complete { aborted: false })));
}

fn mark_target(recipient: &str, message_count: usize) -> BulkTarget {
    BulkTarget::MarkRead(MarkReadTarget {
        team: "ops".to_owned(),
        recipient: recipient.to_owned(),
        message_count,
    })
}

#[test]
fn bulk_failure_waits_for_continue_before_dispatching_next_target() {
    let (store, mut app) = fixture_app();
    app.display.screen = Screen::BulkFilter;
    let first = mark_target("codex-worker", 2);
    let second = mark_target(&main_agent(), 1);
    app.bulk.begin(BulkKind::MarkRead, vec![first.clone(), second.clone()]);
    let action = app.complete_bulk_target(
        first,
        Ok(outcome(false, 2, "", "inbox failed")),
        clock(),
    );
    store.settle(&mut app, action);
    assert!(matches!(run_state(&app), Some(BulkRunState::AwaitDecision { .. })));
    let continue_action = store.character(&mut app, 'c');
    assert!(matches!(
        continue_action,
        AppAction::RunBulk { target, .. } if target == second
    ));
    assert_eq!(
        app.bulk.operation.as_ref().map(|operation| operation.failed_units),
        Some(2)
    );
}

#[test]
fn graceful_despawn_failure_requires_explicit_force_choice() {
    let (store, mut app) = fixture_app();
    app.display.screen = Screen::Agents;
    let target = BulkTarget::Despawn(DespawnTarget {
        team: "ops".to_owned(),
        from: main_agent(),
        name: "codex-worker".to_owned(),
    });
    app.bulk.begin(BulkKind::Despawn, vec![target.clone()]);
    let action = app.complete_bulk_target(
        target.clone(),
        Ok(outcome(false, 3, "status=timeout", "retry with --force")),
        clock(),
    );
    store.settle(&mut app, action);
    assert!(matches!(run_state(&app), Some(BulkRunState::AwaitForce { .. })));
    let force = store.character(&mut app, 'y');
    assert!(matches!(
        force,
        AppAction::RunBulk { target: force_target, force_despawn: true } if force_target == target
    ));
}

#[test]
fn escape_signals_bulk_cancel_channel_and_finishes_aborted() {
    let (store, mut app) = fixture_app();
    app.display.screen = Screen::BulkFilter;
    let target = mark_target("codex-worker", 1);
    app.bulk.begin(BulkKind::MarkRead, vec![target.clone()]);
    assert_eq!(app.bulk.cancel, BulkCancel::Ready);
    store.press(&mut app, KeyCode::Esc);
    assert_eq!(app.bulk.cancel, BulkCancel::Requested);
    let action =
        app.complete_bulk_target(target, Err("cancelled: inbox.sh".to_owned()), clock());
    store.settle(&mut app, action);
    assert!(matches!(run_state(&app), Some(BulkRunState::Complete { aborted: true })));
    assert_eq!(
        app.bulk.operation.as_ref().map(|operation| operation.failed_units),
        Some(0)
    );
}

#[test]
fn identity_info_reports_actas_lock_owner() {
    let (mut store, mut app) =
        fixture_app_with_messages(&[(&main_agent(), "codex-worker", "hello")]);
    store.locks.push((
        "actas.ops__codex-worker.session".to_owned(),
        "session-owner.123\n".to_owned(),
    ));
    store.character(&mut app, 'A');
    app.agents.focus = AgentFocus::Identities;
    app.agents.identity_index = app
        .selected_agent_team()
        .and_then(|team| {
            team.identities
                .iter()
                .position(|identity| identity.name == "codex-worker")
        })
        .expect("codex identity");
    store.press(&mut app, KeyCode::Enter);
    assert!(app
        .agents
        .identity_info
        .as_deref()
        .is_some_and(|info| info.contains("Actas lock: session-owner.123")));
}

fn scripts() -> ScriptRunner {
    ScriptRunner::new("/t/scripts".to_owned(), "/t/agmsg-audit".to_owned())
}

#[test]
fn actions_name_the_script_that_is_run() {
    let (store, mut app) =
        fixture_app_with_messages(&[(&main_agent(), "codex-worker", "unread")]);
    app.room.focus = Focus::Room;
    let mark = store.character(&mut app, 'r');
    match app.execute_action(mark, &scripts(), clock().utc) {
        Effect::MarkRecipient { call, label, unread_count } => {
            assert_eq!(call.path, "/t/scripts/inbox.sh");
            assert_eq!(label, "codex-worker");
            assert_eq!(unread_count, 1);
        }
        other => panic!("unexpected effect {other:?}"),
    }
    assert_eq!(app.background.in_flight, Some(InFlightOperation::MarkRead));
    let reset = AppAction::ManageAgent(AgentOperation::Reset {
        project: "/tmp/ops".to_owned(),
        agent_type: "codex".to_owned(),
        agent: "codex-worker".to_owned(),
    });
    assert!(matches!(
        app.execute_action(reset, &scripts(), clock().utc),
        Effect::Nothing
    ));
    let action = app.complete_command(
        Completion::MarkRead {
            outcome: Ok(outcome(false, 3, "", "")),
            label: "codex-worker".to_owned(),
            unread_count: 1,
        },
        clock(),
    );
    store.settle(&mut app, action);
    assert_eq!(app.background.in_flight, None);
    assert_eq!(app.status.text, "inbox.sh failed (exit Some(3))");
    assert!(app.status.is_error);
}

#[test]
fn a_failed_send_keeps_the_message() {
    let (store, mut app) = fixture_app();
    store.character(&mut app, 'c');
    store.type_text(&mut app, "hello");
    let send = store.control(&mut app, 's');
    match app.execute_action(send, &scripts(), clock().utc) {
        Effect::Send { call } => {
            assert_eq!(call.args.last().map(String::as_str), Some("hello"));
        }
        other => panic!("unexpected effect {other:?}"),
    }
    let action = app.complete_command(
        Completion::Send { outcome: Err("timeout: send.sh (10s)".to_owned()) },
        clock(),
    );
    store.settle(&mut app, action);
    assert_eq!(app.status.text, "timeout: send.sh (10s)");
    assert_eq!(app.writing.composer.as_ref().expect("kept").body, "hello");
    let action =
        app.complete_command(Completion::Send { outcome: Ok(outcome(true, 0, "", "")) }, clock());
    store.settle(&mut app, action);
    assert!(app.writing.composer.is_none());
    assert_eq!(app.status.text, "sent");
}

#[test]
fn reports_need_an_audit_and_a_time() {
    let (_store, mut app) = fixture_app();
    assert!(matches!(app.export_audit_report(), Effect::Nothing));
    assert_eq!(app.status.text, "audit未取得です。Rでrefreshしてください");
    app.audit.report = Some(AuditReport {
        ts: "2026-07-20T11:29:58Z".to_owned(),
        window_days: 30,
        score: 83,
        total_msg: 739,
        total_teams: 5,
        total_agents: 26,
        unread: 23,
        unread_stale: 13,
        body_p95: 2396,
        burst_days: 0,
        asymmetric_pairs: 0,
        zombie_identities: 0,
        stale_run_files: 0,
        max_team_pct: 46,
        axes: Vec::new(),
    });
    match app.export_audit_report() {
        Effect::Write { directory, path, content, directory_error, file_error } => {
            assert_eq!(directory, "/t/reports");
            assert_eq!(directory_error, "reportディレクトリを作成できません: /t/reports");
            assert_eq!(file_error, format!("reportを書き込めません: {path}"));
            assert_eq!(path, "/t/reports/agmsg-report-20260720-1129.md");
            assert!(content.contains("Total score: **83/100**"));
            app.complete_export(&path, Ok(()));
            assert_eq!(app.status.text, format!("exported: {path}"));
        }
        other => panic!("unexpected effect {other:?}"),
    }
}

#[test]
fn exports_need_found_messages() {
    let (store, mut app) =
        fixture_app_with_messages(&[(&main_agent(), "codex-worker", "bulk me")]);
    let now = clock().utc;
    assert!(matches!(app.export_bulk_filter(ExportFormat::Json, now), Effect::Nothing));
    assert_eq!(app.status.text, "bulk filter is not loaded");
    store.control(&mut app, 'f');
    let filter = app.bulk.filter.as_mut().expect("filter loaded");
    filter.period = FilterPeriod::SevenDays;
    filter.recompute(now);
    assert!(matches!(app.export_bulk_filter(ExportFormat::Json, now), Effect::Nothing));
    assert_eq!(app.status.text, "filter has no results");
    let filter = app.bulk.filter.as_mut().expect("filter loaded");
    filter.period = FilterPeriod::All;
    filter.recompute(now);
    match app.export_bulk_filter(ExportFormat::Json, now) {
        Effect::Write { path, content, .. } => {
            assert!(path.starts_with("/t/reports/agmsg-bulk-2026"));
            assert!(content.contains("bulk me"));
        }
        other => panic!("unexpected effect {other:?}"),
    }
}

#[test]
fn timers_count_only_on_their_own_screen() {
    let (store, mut app) = fixture_app();
    assert!(matches!(app.audit_tick(), AppAction::Nothing));
    assert!(matches!(app.health_tick(), AppAction::Nothing));
    let opened = store.character(&mut app, 'H');
    assert!(matches!(opened, AppAction::RefreshHealth));
    assert!(matches!(app.health_tick(), AppAction::Nothing));
    app.complete_health_error("failed".to_owned());
    assert!(matches!(app.health_tick(), AppAction::RefreshHealth));
}

#[test]
fn only_presses_count_and_changes_are_noted() {
    let (store, mut app) = fixture_app();
    let mut key = KeyEvent::new(KeyCode::Char('q'), KeyModifiers::none());
    key.kind = KeyEventKind::Release;
    assert!(matches!(app.handle_key(key, clock()), AppAction::Nothing));
    assert_eq!(app.background.state_dirty_since, None);
    store.control(&mut app, 'b');
    assert_eq!(app.background.state_dirty_since, Some(clock().instant));
    assert!(app.persist_state_if_due(clock().instant).is_none());
    assert!(app.persist_state_if_due(clock().instant + 3 * SECOND_NANOS).is_some());
    app.save_state(true, clock().instant);
    assert_eq!(app.background.state_dirty_since, None);
    assert!(matches!(store.character(&mut app, 'q'), AppAction::Quit));
}

#[test]
fn bulk_outcomes_go_to_the_operation_that_waits() {
    let (store, mut app) = fixture_app();
    app.display.screen = Screen::BulkFilter;
    let target = mark_target("codex-worker", 1);
    app.bulk.begin(BulkKind::MarkRead, vec![target.clone()]);
    let run = AppAction::RunBulk { target, force_despawn: false };
    assert!(matches!(
        app.execute_action(run, &scripts(), clock().utc),
        Effect::Bulk { .. }
    ));
    let action =
        app.complete_command(Completion::Bulk { outcome: Ok(outcome(true, 0, "", "")) }, clock());
    store.settle(&mut app, action);
    assert!(matches!(run_state(&app), Some(BulkRunState::Complete { aborted: false })));
}
