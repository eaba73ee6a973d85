use agmsg_tui::bulk::export::{
    build_markdown, escape_markdown, export_bulk_messages, export_file_name,
};
use agmsg_tui::bulk::lock::{
    absent_lock_status, find_lock, lock_owner, percent_decode, LockLookup,
};
use agmsg_tui::bulk::naming::{is_naming_violation, suggested_name};
use agmsg_tui::bulk::{
    mark_read_targets, naming_violations, BulkFilterState, ExportFormat, FilterPeriod, LockStatus,
};
use agmsg_tui::clock::{parse_rfc3339, Timestamp};
use agmsg_tui::db::{AgentIdentitySummary, AgentTeamSummary, Message};

fn message(id: i64, from: &str, to: &str, body: &str, created_at: &str) -> Message {
    Message {
        id,
        team: "ops-hub".to_owned(),
        from_agent: from.to_owned(),
        to_agent: to.to_owned(),
        body: body.to_owned(),
        created_at: created_at.to_owned(),
        read_at: None,
    }
}

fn noon() -> Timestamp {
    parse_rfc3339("2026-07-21T12:00:00Z").expect("time")
}

#[test]
fn filter_matches_agent_from_or_to_case_insensitively() {
    let now = noon();
    let other = "chief";
    let mut state = BulkFilterState::new(
        vec![
            message(1, "Codex", other, "one", "2026-07-20T00:00:00Z"),
            message(2, other, "codex-review", "two", "2026-07-20T00:00:00Z"),
            message(3, "kimi", other, "three", "2026-07-20T00:00:00Z"),
        ],
        now,
    );
    state.agent = "CODEX".to_owned();
    state.recompute(now);
    assert_eq!(
        state.messages().iter().map(|row| row.id).collect::<Vec<_>>(),
        [1, 2]
    );
}

#[test]
fn filter_applies_period_and_all_mode() {
    let now = noon();
    let mut state = BulkFilterState::new(
        vec![
            message(1, "a", "b", "new", "2026-07-20T00:00:00Z"),
            message(2, "a", "b", "old", "2026-06-01T00:00:00Z"),
        ],
        now,
    );
    assert_eq!(state.results.len(), 1);
    state.period = FilterPeriod::All;
    state.recompute(now);
    assert_eq!(state.results.len(), 2);
}

#[test]
fn filter_matches_body_substring() {
    let now = noon();
    let mut state = BulkFilterState::new(
        vec![
            message(1, "a", "b", "Deploy READY", "2026-07-20T00:00:00Z"),
            message(2, "a", "b", "waiting", "2026-07-20T00:00:00Z"),
        ],
        now,
    );
    state.body = "ready".to_owned();
    state.recompute(now);
    assert_eq!(state.selected_message().map(|row| row.id), Some(1));
}

#[test]
fn preview_targets_group_unread_by_team_and_recipient() {
    let rows = vec![
        message(1, "a", "codex", "one", "2026-07-20T00:00:00Z"),
        message(2, "b", "codex", "two", "2026-07-20T00:00:00Z"),
        message(3, "b", "chief", "three", "2026-07-20T00:00:00Z"),
    ];
    let targets = mark_read_targets(&rows);
    assert_eq!(targets.len(), 2);
    assert_eq!(
        targets.iter().map(|target| target.units()).sum::<usize>(),
        3
    );
}

#[test]
fn export_writes_selected_format_with_timestamped_name() {
    let now = parse_rfc3339("2026-07-21T12:34:56Z").expect("time");
    let content = export_bulk_messages(
        &vec![message(1, "a", "b", "hello", "2026-07-20T00:00:00Z")],
        ExportFormat::Json,
        now,
    )
    .expect("export");
    assert_eq!(
        export_file_name(now, ExportFormat::Json),
        "agmsg-bulk-20260721-123456.json"
    );
    assert!(content.contains("\"message_count\": 1"));
}

#[test]
fn a_json_export_can_be_read_again() {
    let now = noon();
    let rows = vec![message(7, "a", "b", "say \"hi\"\nnow", "2026-07-20T00:00:00Z")];
    let content = export_bulk_messages(&rows, ExportFormat::Json, now).expect("export");
    let value: serde_json::Value = serde_json::from_str(&content).expect("json");
    assert_eq!(value["messages"][0]["body"], "say \"hi\"\nnow");
    assert_eq!(value["messages"][0]["id"], 7);
    assert!(value["messages"][0]["read_at"].is_null());
}

#[test]
fn a_markdown_export_names_the_messages() {
    let now = noon();
    let rows = vec![message(1, "x|y", "b", "hello", "2026-07-20T00:00:00Z")];
    let text = build_markdown(&rows, now);
    assert_eq!(
        export_bulk_messages(&rows, ExportFormat::Markdown, now),
        Some(text.clone())
    );
    assert!(text.contains("x\\|y"));
    assert_eq!(export_file_name(now, ExportFormat::Markdown), "agmsg-bulk-20260721-120000.md");
    assert_eq!(escape_markdown("a\nb").lines().count(), 1);
}

fn lock_status(files: &[(&str, &str)], team: &str, agent: &str) -> LockStatus {
    let names = files.iter().map(|file| Some(file.0.to_owned())).collect();
    match find_lock(&names, team, agent) {
        LockLookup::Found(index) => lock_owner(Some(files[index].1)),
        LockLookup::Free => absent_lock_status(false),
        LockLookup::Unclear => absent_lock_status(true),
    }
}

#[test]
fn actas_lock_scan_decodes_owner_and_falls_back_on_bad_file() {
    let lock = ("actas.ops%20hub__codex-worker.session", "session.123\n");
    assert_eq!(
        lock_status(&[lock], "ops hub", "codex-worker"),
        LockStatus::Owned("session.123".to_owned())
    );
    let bad = ("actas.bad.session", "owner\n");
    assert_eq!(
        lock_status(&[lock, bad], "missing", "agent"),
        LockStatus::ParseError
    );
}

#[test]
fn locks_that_are_free_or_unreadable_are_told_apart() {
    assert_eq!(lock_status(&[], "ops", "codex"), LockStatus::Unlocked);
    assert_eq!(lock_owner(None), LockStatus::ParseError);
    assert_eq!(percent_decode("a%2Fb"), Some("a/b".to_owned()));
    assert_eq!(percent_decode("a%2"), None);
}

#[test]
fn the_period_cycles_both_ways() {
    assert_eq!(FilterPeriod::SevenDays.cycle(1), FilterPeriod::ThirtyDays);
    assert_eq!(FilterPeriod::SevenDays.cycle(-1), FilterPeriod::All);
    assert_eq!(FilterPeriod::All.cycle(1).cycle(-1), FilterPeriod::All);
    assert_eq!(FilterPeriod::SevenDays.label(), "7d");
}

fn identity(name: &str, agent_type: &str) -> AgentIdentitySummary {
    AgentIdentitySummary {
        team: "ops".to_owned(),
        name: name.to_owned(),
        agent_type: agent_type.to_owned(),
        project: "/repo".to_owned(),
        last_seen_at: None,
        sent_30d: 0,
        received_30d: 0,
    }
}

#[test]
fn names_of_the_lead_family_break_the_naming_rules() {
    let teams = vec![AgentTeamSummary {
        name: "ops".to_owned(),
        identities: vec![
            identity("chief", "chief-code"),
            identity("chief-sub12", "chief"),
            identity("chief-code-lead", "chief-code"),
            identity("chief", "-"),
        ],
        broken_config: None,
    }];
    let targets = naming_violations("chief", &teams);
    let names: Vec<&str> = targets.iter().map(|target| target.old.as_str()).collect();
    assert_eq!(names, ["chief", "chief-sub12"]);
    assert!(is_naming_violation("codex", &identity("codex-sub3", "codex")));
    assert!(!is_naming_violation("chief", &identity("codex-sub3", "codex")));
    assert!(!is_naming_violation("codex", &identity("codex-sub", "codex")));
}

#[test]
fn names_that_break_the_rules_get_a_free_suggestion() {
    let teams = vec![AgentTeamSummary {
        name: "ops".to_owned(),
        identities: vec![
            identity("codex", "codex"),
            identity("codex-worker", "codex"),
            identity("kimi-7", "kimi"),
        ],
        broken_config: None,
    }];
    let targets = naming_violations("chief", &teams);
    assert_eq!(targets.len(), 2);
    assert_eq!(targets[0].old, "codex");
    assert_eq!(targets[1].old, "kimi-7");
    for target in &targets {
        assert!(teams[0].identities.iter().all(|known| known.name != target.new));
    }
    assert_ne!(
        suggested_name(&teams[0].identities[0], &teams),
        "codex-worker"
    );
}
