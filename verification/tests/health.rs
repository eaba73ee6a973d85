use std::collections::BTreeSet;

use agmsg_tui::clock::{parse_rfc3339, Timestamp};
use agmsg_tui::exec::{CommandResult, ScriptRunner};
use agmsg_tui::health::bridges::{
    bridge_alive_map, map_bridges_to_teams, parse_alive_pids, IdentityAlive,
};
use agmsg_tui::health::delivery::{
    aggregate_delivery_modes, delivery_queries, parse_delivery_mode, shown_mode, team_delivery,
    DeliveryAnswer,
};
use agmsg_tui::health::pidfiles::{bridge_agent_type, discover_bridges, RawBridge, RunFile};
use agmsg_tui::health::registrations::{load_registrations, Registration, TeamConfig};
use agmsg_tui::health::snapshot::{health_snapshot, HealthInputs, TeamFigures, TeamStamp};
use agmsg_tui::health::DeliveryMode;

fn registration(team: &str, agent: &str, agent_type: &str, project: &str) -> Registration {
    Registration {
        team: team.to_owned(),
        agent: agent.to_owned(),
        agent_type: agent_type.to_owned(),
        project: project.to_owned(),
    }
}

fn file(name: &str, content: &str) -> RunFile {
    RunFile { name: name.to_owned(), content: Some(content.to_owned()) }
}

fn alive(map: &[IdentityAlive], team: &str, agent: &str) -> Option<bool> {
    map.iter()
        .find(|entry| entry.team == team && entry.agent == agent)
        .map(|entry| entry.alive)
}

#[test]
fn delivery_modes_are_read_from_what_the_script_prints() {
    let scripts = ScriptRunner::new("/s".to_owned(), "/a".to_owned());
    let call = scripts.delivery_status("codex", "/tmp/fixture project");
    assert_eq!(call.args.join(" "), "status codex /tmp/fixture project");
    assert_eq!(parse_delivery_mode("mode=monitor\n"), DeliveryMode::Monitor);
    assert_eq!(parse_delivery_mode("mode: both\n"), DeliveryMode::Both);
    assert_eq!(parse_delivery_mode("mode=surprise"), DeliveryMode::Unknown);
    assert_eq!(parse_delivery_mode(""), DeliveryMode::Unknown);
}

#[test]
fn run_fixture_extracts_cc_instance_and_pidfile_pids() {
    let bridges = discover_bridges("chief", vec![
        file("cc-instance.123", "session.123\n"),
        file("cursor-bridge.hash.pid", "456\n"),
        file("broken.pid", "not-a-pid\n"),
        file("cc-instance.nope", "ignored\n"),
    ]);
    assert_eq!(
        bridges.iter().map(|bridge| bridge.pid).collect::<Vec<_>>(),
        vec![123, 456]
    );
}

#[test]
fn ps_output_maps_only_numeric_alive_pids() {
    let alive = parse_alive_pids("  PID\n  123\n456\nnot-a-pid\n");
    assert!(alive.contains(&123));
    assert!(alive.contains(&456));
    assert!(!alive.contains(&789));
}

#[test]
fn bridge_alive_map_prefers_identity_hint_and_falls_back_to_project_type() {
    let main = "chief-main";
    let registrations = vec![
        registration("ops", "codex-worker", "codex", "/repo/ops"),
        registration("ops", main, "chief-code", "/repo/ops"),
    ];
    let bridges = vec![
        RawBridge {
            label: "codex/codex-worker".to_owned(),
            pid: 10,
            team_hint: Some("ops".to_owned()),
            agent_hint: Some("codex-worker".to_owned()),
            project_hint: None,
        },
        RawBridge {
            label: "chief-code".to_owned(),
            pid: 20,
            team_hint: None,
            agent_hint: None,
            project_hint: Some("/repo/ops".to_owned()),
        },
    ];
    let running = BTreeSet::from([10, 20]);
    let map = bridge_alive_map("chief", &bridges, &registrations, &running);
    assert_eq!(alive(&map, "ops", "codex-worker"), Some(true));
    assert_eq!(alive(&map, "ops", main), Some(true));
}

#[test]
fn project_fallback_requires_a_unique_registered_identity() {
    let registrations = vec![
        registration("one", "chief-one", "chief-code", "/repo/shared"),
        registration("two", "chief-two", "chief-code", "/repo/shared"),
    ];
    let bridges = vec![RawBridge {
        label: "chief-code".to_owned(),
        pid: 20,
        team_hint: None,
        agent_hint: None,
        project_hint: Some("/repo/shared".to_owned()),
    }];
    let map = bridge_alive_map("chief", &bridges, &registrations, &BTreeSet::from([20]));
    assert!(map.iter().all(|entry| !entry.alive));
}

#[test]
fn codex_role_session_marker_overrides_generic_pid_identity() {
    let bridge = discover_bridges("chief", vec![
        file("codex-bridge.ops.codex.pid", "789\n"),
        file("codex-bridge.ops.codex.meta", "team=ops\nproject=/repo/ops\n"),
        file(
            "role-session.ops__codex-worker",
            "team=ops\nagent=codex-worker\ntype=codex\nproject=/repo/ops\n",
        ),
    ])
    .into_iter()
    .find(|bridge| bridge.pid == 789)
    .expect("bridge");
    assert_eq!(bridge.agent_hint.as_deref(), Some("codex-worker"));
}

#[test]
fn labels_tell_the_type_of_a_bridge() {
    assert_eq!(bridge_agent_type("chief", "cursor-bridge.x").as_deref(), Some("cursor"));
    assert_eq!(bridge_agent_type("chief", "chief-code.1").as_deref(), Some("chief-code"));
    assert_eq!(bridge_agent_type("chief", "other"), None);
}

#[test]
fn modes_are_brought_together() {
    assert_eq!(aggregate_delivery_modes(&Vec::new()), DeliveryMode::Unknown);
    assert_eq!(
        aggregate_delivery_modes(&vec![DeliveryMode::Turn, DeliveryMode::Turn]),
        DeliveryMode::Turn
    );
    assert_eq!(
        aggregate_delivery_modes(&vec![DeliveryMode::Turn, DeliveryMode::Off]),
        DeliveryMode::Mixed
    );
    assert_eq!(shown_mode(&None), DeliveryMode::Unknown);
    let failed = CommandResult::from_output(false, Some(1), "mode=off", "");
    assert_eq!(shown_mode(&Some(failed)), DeliveryMode::Unknown);
    assert_eq!(DeliveryMode::Monitor.label(), "monitor");
}

#[test]
fn configurations_and_bridges_make_a_snapshot() {
    let registrations = load_registrations(&vec![
        TeamConfig {
            team: "ops".to_owned(),
            config: Some(
                r#"{"agents":{"codex-worker":{"registrations":[{"type":"codex","project":"/repo"}]}}}"#
                    .to_owned(),
            ),
        },
        TeamConfig { team: "broken".to_owned(), config: Some("{".to_owned()) },
    ]);
    assert_eq!(
        registrations,
        vec![registration("ops", "codex-worker", "codex", "/repo")]
    );
    let queries = delivery_queries(&registrations);
    assert_eq!(queries.len(), 1);
    let answers = vec![DeliveryAnswer {
        agent_type: queries[0].agent_type.clone(),
        project: queries[0].project.clone(),
        mode: DeliveryMode::Both,
    }];
    assert_eq!(team_delivery(&registrations, &answers, "ops"), DeliveryMode::Both);
    let bridges = vec![RawBridge {
        label: "codex".to_owned(),
        pid: 10,
        team_hint: Some("ops".to_owned()),
        agent_hint: Some("codex-worker".to_owned()),
        project_hint: None,
    }];
    let running = BTreeSet::from([10]);
    let statuses = map_bridges_to_teams(
        "chief",
        &bridges,
        &registrations,
        &vec!["ops".to_owned()],
        &running,
        "ops",
    );
    assert_eq!(statuses.len(), 1);
    assert!(statuses[0].alive);

    let now = parse_rfc3339("2026-07-21T12:00:00Z").expect("time");
    let inputs = HealthInputs {
        family: "chief".to_owned(),
        team_names: vec!["ops".to_owned()],
        registrations,
        answers,
        latest: vec![TeamStamp {
            team: "ops".to_owned(),
            created_at: "2026-07-21T11:00:00Z".to_owned(),
        }],
        unread: Vec::new(),
        stale_teams: vec!["ops".to_owned()],
        bridges,
        alive: running,
        silent: Vec::new(),
        burst_threshold: 150,
        silent_days: 7,
        now,
    };
    let figures = vec![TeamFigures {
        name: "ops".to_owned(),
        has_directory: true,
        traffic_7d: Vec::new(),
        traffic_30d: Vec::new(),
        agents_7d: Vec::new(),
        agents_30d: Vec::new(),
    }];
    let snapshot = health_snapshot(&inputs, figures, Vec::new(), Vec::new());
    assert_eq!(snapshot.teams.len(), 1);
    let team = &snapshot.teams[0];
    assert!(!team.orphan);
    assert!(team.stale_unread);
    assert_eq!(team.delivery, DeliveryMode::Both);
    assert_eq!(team.last_msg_age.map(|age| age.secs), Some(3600));
    assert_eq!(team.bridges.len(), 1);
    assert_eq!(snapshot.refreshed_at, "12:00:00");
    let inputs = HealthInputs { now: Timestamp { secs: -1, nanos: 1_500_000_000 }, ..inputs };
    let snapshot = health_snapshot(&inputs, Vec::new(), Vec::new(), Vec::new());
    assert_eq!(snapshot.refreshed_at, "23:59:60");
}
