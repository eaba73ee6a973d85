use agmsg_tui::exec::{
    despawn_command_display, exit_code_label, reset_command_display, shell_quote, CommandResult,
    ScriptRunner, TeamReadRun, TeamReadStep, DESPAWN_TIMEOUT, SCRIPT_TIMEOUT,
};

fn runner() -> ScriptRunner {
    ScriptRunner::new("/s/scripts".to_owned(), "/s/agmsg-audit".to_owned())
}

fn result(success: bool, stdout: &str) -> CommandResult {
    CommandResult::from_output(success, Some(if success { 0 } else { 1 }), stdout, "")
}

#[test]
fn audit_is_called_with_json_and_fix() {
    let call = runner().audit();
    assert_eq!(call.path, "/s/agmsg-audit");
    assert_eq!(call.args.join(" "), "--json --fix");
    assert_eq!(call.timeout, SCRIPT_TIMEOUT);
}

#[test]
fn spawn_ends_with_no_wait() {
    let call = runner().spawn("ops-hub", "codex", "codex-worker", &Vec::new());
    assert_eq!(call.name, "spawn.sh");
    assert_eq!(
        call.args.iter().map(|arg| format!("<{arg}>")).collect::<Vec<_>>().join("\n"),
        "<codex>\n<codex-worker>\n<--team>\n<ops-hub>\n<--no-wait>"
    );
}

#[test]
fn reset_keeps_the_project() {
    let call = runner().reset("/tmp/project with space", "codex", "codex-worker");
    assert_eq!(
        call.envs,
        vec![("AGMSG_RESOLVE_PROJECT".to_owned(), "0".to_owned())]
    );
    assert_eq!(
        call.args.iter().map(|arg| format!("<{arg}>")).collect::<Vec<_>>().join("\n"),
        "</tmp/project with space>\n<codex>\n<codex-worker>"
    );
}

#[test]
fn despawn_ends_with_force_only_when_asked() {
    let main = "chief-main";
    let graceful = runner().despawn("ops-hub", main, "codex-worker", false);
    assert_eq!(
        graceful.args,
        vec!["ops-hub".to_owned(), main.to_owned(), "codex-worker".to_owned()]
    );
    assert_eq!(graceful.timeout, DESPAWN_TIMEOUT);
    let force = runner().despawn("ops-hub", main, "codex-worker", true);
    assert_eq!(force.args.last().map(String::as_str), Some("--force"));
}

#[test]
fn timeouts_and_cancellations_name_the_script() {
    let runner = runner().with_timeout(20_000_000);
    let send = runner.send("ops", "codex", "chief", "hello");
    assert_eq!(send.timeout_error(), "timeout: send.sh (20ms)");
    let mark = runner.mark_recipient_read("ops", "codex");
    assert_eq!(mark.cancelled_error(), "cancelled: inbox.sh");
    assert_eq!(mark.args, vec!["ops".to_owned(), "codex".to_owned(), "--quiet".to_owned()]);
}

#[test]
fn a_team_is_marked_one_recipient_after_the_other() {
    let scripts = runner();
    let mut run = TeamReadRun::new("ops".to_owned(), vec!["a".to_owned(), "b".to_owned()]);
    match run.current(&scripts) {
        TeamReadStep::Call(call) => assert_eq!(call.args[1], "a"),
        TeamReadStep::Done(_) => panic!("a is first"),
    }
    assert!(run.advance(&result(true, "one")).is_none());
    match run.current(&scripts) {
        TeamReadStep::Call(call) => assert_eq!(call.args[1], "b"),
        TeamReadStep::Done(_) => panic!("b is second"),
    }
    assert!(run.advance(&result(true, "two")).is_none());
    match run.current(&scripts) {
        TeamReadStep::Call(_) => panic!("nobody is left"),
        TeamReadStep::Done(done) => {
            assert!(done.success);
            assert!(done.stdout.contains("one"));
            assert!(done.stdout.contains("two"));
        }
    }
    let mut failing = TeamReadRun::new("ops".to_owned(), vec!["a".to_owned(), "b".to_owned()]);
    assert!(failing.advance(&result(false, "no")).is_some());
}

#[test]
fn shown_commands_are_quoted() {
    assert_eq!(shell_quote("/a/b-c_d.e"), "/a/b-c_d.e");
    assert_eq!(shell_quote(""), "''");
    assert_eq!(shell_quote("it's"), "'it'\"'\"'s'");
    assert!(reset_command_display("/s", "/my repo", "codex", "codex-worker")
        .contains("'/my repo' codex codex-worker"));
    assert!(despawn_command_display("/s", "ops", "a", "b", true).ends_with("ops a b --force"));
    assert_eq!(
        despawn_command_display("/my scripts", "o p", "$a", "b", false),
        "'/my scripts/despawn.sh' 'o p' '$a' b"
    );
}

#[test]
fn exit_codes_and_processes_are_named() {
    assert_eq!(exit_code_label(Some(3)), "Some(3)");
    assert!(runner().process_status(&Vec::new()).is_none());
    let call = runner().process_status(&vec![10, 20]).expect("call");
    assert!(call.args.iter().any(|arg| arg.contains("10") && arg.contains("20")));
}
