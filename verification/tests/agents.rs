use agmsg_tui::agents::{
    lead_cli_type, registered_family, validate_agent_name, validate_team_name, SpawnModalState, CLI_TYPES,
    CLI_TYPE_COUNT,
};
use agmsg_tui::db::AgentIdentitySummary;

#[test]
fn agent_name_validation_enforces_type_role_and_blacklist() {
    assert!(validate_agent_name("codex-worker", "codex").is_ok());
    assert!(validate_agent_name("chief", "chief-code").is_err());
    assert!(validate_agent_name("chief-code-2", "chief-code").is_err());
    assert!(validate_agent_name("chief-code-review", "chief-code").is_ok());
    assert!(validate_agent_name("a.b", "codex").is_err());
}

#[test]
fn the_lead_cli_type_is_spelled_with_its_family() {
    assert_eq!(lead_cli_type("chief"), "chief-code");
    assert_eq!(CLI_TYPES[0], "codex");
    assert_eq!(CLI_TYPES.len() + 1, CLI_TYPE_COUNT);
}

#[test]
fn team_names_are_checked() {
    assert!(validate_team_name("ops-hub").is_ok());
    assert!(validate_team_name("").is_err());
    assert!(validate_team_name("a/b").is_err());
}

#[test]
fn the_last_cli_type_is_shown_beyond_the_end() {
    let mut state = SpawnModalState::new(2);
    assert_eq!(state.team_index, 2);
    assert_eq!(state.agent_type("chief"), "chief-code");
    state.type_index = 1;
    assert_eq!(state.agent_type("chief"), "codex");
    state.type_index = 9;
    assert_eq!(state.agent_type("chief"), "grok-build");
    state.type_index = 99;
    assert_eq!(state.agent_type("chief"), "grok-build");
}

#[test]
fn the_lead_family_is_that_of_a_registered_agent() {
    let identity = |agent_type: &str| AgentIdentitySummary {
        team: "ops".to_owned(),
        name: "x".to_owned(),
        agent_type: agent_type.to_owned(),
        project: "/repo".to_owned(),
        last_seen_at: None,
        sent_30d: 0,
        received_30d: 0,
    };
    let types = vec![identity("codex"), identity("-code"), identity("chief-code")];
    assert_eq!(registered_family(&types).as_deref(), Some("chief"));
    assert_eq!(registered_family(&vec![identity("opencode")]), None);
}
