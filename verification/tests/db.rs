use agmsg_tui::clock::parse_rfc3339;
use agmsg_tui::db::inventory::{
    effective_registrations, read_config, team_inventory, AgentStats, RegistrationFields,
    TeamInput,
};
use agmsg_tui::db::pairs::{PairRow, RosterRow};
use agmsg_tui::db::traffic::{
    burst_threshold, count_of_team, fetch_limit, search_pattern, window_text, DayCount, TeamCount,
};
use agmsg_tui::db::{Database, Message, DEFAULT_BURST_THRESHOLD};

fn day(date: &str, count: i64) -> DayCount {
    DayCount { date: date.to_owned(), count }
}

#[test]
fn daily_traffic_zero_fills_and_flags_days_over_threshold() {
    let now = parse_rfc3339("2026-07-21T12:00:00Z").expect("time");
    let counts = vec![day("2026-07-19", 151), day("2026-07-21", 1)];
    let traffic = Database::daily_traffic(&counts, 4, now, DEFAULT_BURST_THRESHOLD);
    assert_eq!(traffic.len(), 4);
    assert_eq!(
        traffic.iter().map(|day| day.count).collect::<Vec<_>>(),
        vec![0, 151, 0, 1]
    );
    assert_eq!(
        traffic.iter().map(|day| day.burst).collect::<Vec<_>>(),
        vec![false, true, false, false]
    );
}

#[test]
fn the_burst_threshold_comes_from_a_setting() {
    assert_eq!(burst_threshold(&None), 150);
    assert_eq!(burst_threshold(&Some("20".to_owned())), 20);
    assert_eq!(burst_threshold(&Some("many".to_owned())), 150);
}

#[test]
fn search_patterns_escape_wildcards() {
    assert_eq!(search_pattern("50%_\\"), "%50\\%\\_\\\\%");
    assert_eq!(window_text(30), "-30 days");
    assert_eq!(fetch_limit(200), Ok(201));
}

fn message(id: i64) -> Message {
    Message {
        id,
        team: "ops".to_owned(),
        from_agent: "a".to_owned(),
        to_agent: "b".to_owned(),
        body: "x".to_owned(),
        created_at: "2026-01-01T00:00:00Z".to_owned(),
        read_at: None,
    }
}

#[test]
fn a_page_of_history_is_cut_and_turned_round() {
    let page = Database::history(&vec![message(3), message(2), message(1)], 2);
    assert!(page.has_more);
    assert_eq!(page.messages.iter().map(|row| row.id).collect::<Vec<_>>(), vec![2, 3]);
    let page = Database::history(&vec![message(2), message(1)], 2);
    assert!(!page.has_more);
    assert_eq!(page.messages.len(), 2);
}

#[test]
fn teams_are_listed_once_and_in_order() {
    let names = Database::team_names(
        &vec!["zeta".to_owned(), "ops".to_owned()],
        &vec!["ops".to_owned(), "alpha".to_owned()],
    );
    assert_eq!(names, vec!["alpha".to_owned(), "ops".to_owned(), "zeta".to_owned()]);
    let counts = vec![TeamCount { team: "ops".to_owned(), count: 3 }];
    assert_eq!(count_of_team(&counts, "ops"), 3);
    let teams = Database::team_summaries(names, &counts);
    assert_eq!(teams[1].unread_count, 3);
    assert_eq!(teams[2].unread_count, 0);
}

#[test]
fn the_schema_must_hold_every_column() {
    let columns: Vec<String> = ["id", "team", "from_agent", "to_agent", "body", "created_at", "read_at"]
        .iter()
        .map(|name| (*name).to_owned())
        .collect();
    assert!(Database::validate_schema(&columns).is_ok());
    assert!(Database::validate_schema(&columns[..6].to_vec()).is_err());
}

fn pair(from: &str, to: &str, count: i64) -> PairRow {
    PairRow { team: "ops".to_owned(), from: from.to_owned(), to: to.to_owned(), count }
}

#[test]
fn pair_matrices_count_and_compare_both_directions() {
    let matrices = Database::pair_matrices(&vec![
        pair("a", "b", 10),
        pair("b", "a", 2),
        pair("a", "c", 5),
        pair("c", "a", 5),
    ]);
    assert_eq!(matrices.len(), 1);
    let matrix = &matrices[0];
    assert_eq!(matrix.agents, vec!["a".to_owned(), "b".to_owned(), "c".to_owned()]);
    assert_eq!(matrix.count("a", "b"), 10);
    assert_eq!(matrix.count("b", "c"), 0);
    assert!(matrix.is_asymmetric("a", "b"));
    assert!(matrix.is_asymmetric("b", "a"));
    assert!(!matrix.is_asymmetric("a", "c"));
}

#[test]
fn silent_agents_are_zombies() {
    let rows = vec![
        RosterRow { team: "ops".to_owned(), agent: "a".to_owned(), count: 0 },
        RosterRow { team: "ops".to_owned(), agent: "b".to_owned(), count: 2 },
    ];
    let zombies = Database::zombie_identities(&rows);
    assert_eq!(zombies.len(), 1);
    assert_eq!(zombies[0].agent, "a");
}

const CONFIG: &str = r#"{"agents":{"codex-worker":{"registrations":[{"type":"codex","project":"/repo"},{"type":"codex","project":"/other"}]},"bare":{}}}"#;

#[test]
fn registrations_are_read_from_the_configuration() {
    let config = Some(CONFIG.to_owned());
    let found = Database::agent_registration(&config, "config.json", "codex-worker")
        .expect("readable")
        .expect("registered");
    assert_eq!(found.agent_type, "codex");
    assert_eq!(found.project, "/repo");
    assert_eq!(Database::agent_registration(&None, "config.json", "x"), Ok(None));
    assert!(Database::agent_registration(&Some("{".to_owned()), "config.json", "x").is_err());
}

#[test]
fn every_registration_is_a_row_of_the_inventory() {
    let agents = read_config(&Some(CONFIG.to_owned()), "config.json");
    let names: Vec<String> = match &agents {
        Ok(agents) => agents.iter().map(|agent| agent.name.clone()).collect(),
        Err(error) => panic!("{error}"),
    };
    let stats = names
        .iter()
        .map(|name| AgentStats {
            name: name.clone(),
            last_seen_at: None,
            sent: 2,
            received: 1,
        })
        .collect();
    let team = team_inventory("ops", agents, &stats);
    assert!(team.broken_config.is_none());
    assert_eq!(team.identities.len(), 3);
    assert!(team.identities.iter().all(|identity| identity.sent_30d == 2));
    let broken = team_inventory("ops", Err("no".to_owned()), &Vec::new());
    assert!(broken.broken_config.is_some());
    assert!(broken.identities.is_empty());
}

#[test]
fn an_agent_without_registrations_stands_for_itself() {
    let own = RegistrationFields { agent_type: Some("kimi".to_owned()), project: None };
    let rows = effective_registrations(&Vec::new(), true, &own);
    assert_eq!(rows.len(), 1);
    assert_eq!(rows[0].agent_type, "kimi");
    assert_eq!(rows[0].project, "-");
}

#[test]
fn teams_are_listed_by_name_and_a_broken_one_leaves_the_others_alone() {
    let input = |team: &str, config: &str| {
        let config = read_config(&Some(config.to_owned()), "config.json");
        let stats = match &config {
            Ok(agents) => agents
                .iter()
                .map(|agent| AgentStats {
                    name: agent.name.clone(),
                    last_seen_at: Some("2026-07-20T00:00:00Z".to_owned()),
                    sent: 4,
                    received: 3,
                })
                .collect(),
            Err(_) => Vec::new(),
        };
        TeamInput { team: team.to_owned(), config, stats }
    };
    let list = Database::agent_inventory(vec![
        input("zeta", r#"{"agents":{"b":{},"a":{}}}"#),
        input("mid", "{"),
        input("alpha", r#"{"agents":{"x":{"type":"codex","project":"/repo"}}}"#),
        input("lacking", "{}"),
    ]);
    let names: Vec<&str> = list.iter().map(|team| team.name.as_str()).collect();
    assert_eq!(names, ["alpha", "lacking", "mid", "zeta"]);
    assert_eq!(list[0].identities[0].agent_type, "codex");
    assert_eq!(list[0].identities[0].sent_30d, 4);
    assert_eq!(
        list[1].broken_config.as_deref(),
        Some("config.json: agents object is missing")
    );
    assert!(list[2].broken_config.is_some() && list[2].identities.is_empty());
    let agents: Vec<&str> = list[3].identities.iter().map(|row| row.name.as_str()).collect();
    assert_eq!(agents, ["a", "b"]);
    assert!(Database::agent_inventory(Vec::new()).is_empty());
}

#[test]
fn the_roster_is_read_in_order() {
    let roster = |text: &str| Database::load_roster(&Some(text.to_owned()), "c.json");
    assert_eq!(
        roster(r#"{"agents":{"b":{},"a":{"type":"codex"}}}"#),
        Ok(vec!["a".to_owned(), "b".to_owned()])
    );
    assert_eq!(roster("{}"), Ok(Vec::new()));
    assert_eq!(Database::load_roster(&None, "c.json"), Ok(Vec::new()));
    for broken in ["{", "7", r#"{"agents":[]}"#] {
        assert_eq!(roster(broken), Err("roster JSONが不正です: c.json".to_owned()));
    }
}

#[test]
fn identities_that_wrote_nothing_are_silent() {
    let rows = vec![
        RosterRow { team: "ops".to_owned(), agent: "a".to_owned(), count: 3 },
        RosterRow { team: "ops".to_owned(), agent: "b".to_owned(), count: 0 },
    ];
    let silent = Database::silent_identities(&rows);
    assert_eq!(silent.len(), 1);
    assert_eq!((silent[0].team.as_str(), silent[0].agent.as_str()), ("ops", "b"));
}

#[test]
fn no_count_of_zero_is_stored() {
    let matrices = Database::pair_matrices(&vec![pair("a", "b", 0), pair("b", "a", 2)]);
    assert_eq!(matrices[0].counts.len(), 1);
    assert_eq!(matrices[0].count("a", "b"), 0);
    assert_eq!(matrices[0].agents, vec!["a".to_owned(), "b".to_owned()]);
}
