use agmsg_tui::clock::Timestamp;
use agmsg_tui::db::LOCAL_HOST;
use agmsg_tui::remote::{
    accept_run, default_db_path, fetch_args, fetch_interval, fetch_outcome, promote_snapshot,
    quick_check, snapshot_path, snapshot_tmp_path, status_label, FetchRun, HostConfig,
    HostFetchOutcome, HostRuntime, HostStatus, HostsFile, HostsRead, RawHosts,
    DEFAULT_REFRESH_SECS, LOCAL_HOST_ID, MIN_REFRESH_SECS,
};
use chrono::Utc;

fn now() -> Timestamp {
    Timestamp { secs: Utc::now().timestamp(), nanos: 0 }
}

fn host(name: &str, ssh: &str) -> HostConfig {
    HostConfig { name: name.to_owned(), ssh: ssh.to_owned(), db_path: default_db_path() }
}

fn read_hosts(content: &str) -> HostsRead {
    let table: toml::Table = match toml::from_str(content) {
        Ok(table) => table,
        Err(error) => return HostsRead::Broken(error.to_string()),
    };
    let mut hosts = Vec::new();
    if let Some(list) = table.get("hosts").and_then(|value| value.as_array()) {
        for entry in list {
            hosts.push(host(entry["name"].as_str().unwrap(), entry["ssh"].as_str().unwrap()));
        }
    }
    let refresh_secs = table
        .get("refresh_secs")
        .and_then(|value| value.as_integer())
        .map(|secs| secs as u64);
    HostsRead::Parsed(RawHosts { refresh_secs, hosts })
}

fn load(content: &str) -> (HostsFile, Vec<String>) {
    HostsFile::load(read_hosts(content), "hosts.toml")
}

#[test]
fn local_host_id_matches_db_local_host_tag() {
    assert_eq!(LOCAL_HOST_ID, LOCAL_HOST);
}

#[test]
fn missing_file_yields_local_only_no_warnings() {
    let (file, warnings) = HostsFile::load(HostsRead::Missing, "/nonexistent/agmsg-tui/hosts.toml");
    assert!(warnings.is_empty());
    assert!(file.hosts.is_empty());
    assert_eq!(file.refresh_secs, DEFAULT_REFRESH_SECS);
}

#[test]
fn happy_path_parses_hosts_and_refresh_secs() {
    let (file, warnings) =
        load("refresh_secs = 120\n\n[[hosts]]\nname = \"vps\"\nssh = \"root@162.43.15.67\"\n");
    assert!(warnings.is_empty(), "unexpected warnings: {warnings:?}");
    assert_eq!(file.refresh_secs, 120);
    assert_eq!(file.hosts.len(), 1);
    assert_eq!(file.hosts[0].name, "vps");
    assert_eq!(file.hosts[0].ssh, "root@162.43.15.67");
    assert_eq!(file.hosts[0].db_path, "~/.agents/agmsg.db");
}

#[test]
fn malformed_toml_falls_back_to_local_only_with_warning() {
    let (file, warnings) = load("this is [ not valid");
    assert!(file.hosts.is_empty());
    assert_eq!(warnings.len(), 1);
}

#[test]
fn refresh_secs_below_minimum_is_clamped_with_warning() {
    let (file, warnings) = load("refresh_secs = 5\n");
    assert_eq!(file.refresh_secs, MIN_REFRESH_SECS);
    assert!(warnings.iter().any(|w| w.contains("clamped")));
}

#[test]
fn reserved_local_name_is_skipped_with_warning() {
    let (file, warnings) = load("[[hosts]]\nname = \"local\"\nssh = \"whatever\"\n");
    assert!(file.hosts.is_empty());
    assert!(warnings.iter().any(|w| w.contains("reserved")));
}

#[test]
fn duplicate_host_name_keeps_first_and_warns() {
    let (file, warnings) =
        load("[[hosts]]\nname = \"vps\"\nssh = \"a\"\n[[hosts]]\nname = \"vps\"\nssh = \"b\"\n");
    assert_eq!(file.hosts.len(), 1);
    assert_eq!(file.hosts[0].ssh, "a");
    assert!(warnings.iter().any(|w| w.contains("duplicate")));
}

#[test]
fn status_transitions_ok_degraded_offline_recovers() {
    let mut runtime = HostRuntime::new(host("vps", "unused"), now());
    assert!(matches!(runtime.status, HostStatus::Offline { .. }));

    let fail = |ts: Timestamp| HostFetchOutcome {
        name: "vps".to_owned(),
        ok: false,
        err: Some("boom".to_owned()),
        ts,
    };
    runtime.apply_outcome(&fail(now()), "/remote");
    assert!(matches!(runtime.status, HostStatus::Degraded { .. }), "1st failure -> degraded");
    runtime.apply_outcome(&fail(now()), "/remote");
    assert!(matches!(runtime.status, HostStatus::Degraded { .. }), "2nd failure -> still degraded");
    runtime.apply_outcome(&fail(now()), "/remote");
    assert!(matches!(runtime.status, HostStatus::Offline { .. }), "3rd failure -> offline");

    let ok = HostFetchOutcome { name: "vps".to_owned(), ok: true, err: None, ts: now() };
    runtime.apply_outcome(&ok, "/remote");
    assert!(matches!(runtime.status, HostStatus::Online { .. }), "success recovers immediately");
    assert!(runtime.db.is_some());
}

#[test]
fn the_status_follows_the_outcomes() {
    let outcome = |ok: bool, err: Option<&str>, secs: i64| HostFetchOutcome {
        name: "vps".to_owned(),
        ok,
        err: err.map(str::to_owned),
        ts: Timestamp { secs, nanos: 0 },
    };
    let mut runtime = HostRuntime::new(host("vps", "unused"), Timestamp { secs: 1, nanos: 0 });
    runtime.apply_outcome(&outcome(false, Some("boom"), 2), "/remote");
    assert_eq!(runtime.status, HostStatus::Degraded { reason: "boom".to_owned() });
    assert!(runtime.db.is_none());
    runtime.apply_outcome(&outcome(true, None, 3), "/remote");
    let third = Timestamp { secs: 3, nanos: 0 };
    assert_eq!(runtime.status, HostStatus::Online { fetched_at: third });
    runtime.apply_outcome(&outcome(false, Some("boom"), 4), "/remote");
    runtime.apply_outcome(&outcome(false, None, 5), "/remote");
    assert_eq!(runtime.status, HostStatus::Degraded { reason: "unknown error".to_owned() });
    for secs in 6..9 {
        runtime.apply_outcome(&outcome(false, Some("gone"), secs), "/remote");
        let since = Timestamp { secs, nanos: 0 };
        let last_err = "gone".to_owned();
        assert_eq!(runtime.status, HostStatus::Offline { since, last_err });
    }
    assert_eq!(runtime.db.as_ref().map(|db| db.path.as_str()), Some("/remote/vps.db"));
    assert_eq!(runtime.config, host("vps", "unused"));
}

#[test]
fn runs_that_bring_nothing_are_failures() {
    let exited = |success: bool, has_output: bool| FetchRun::Exited {
        success,
        code: Some(if success { 0 } else { 255 }),
        has_output,
        stderr: String::new(),
    };
    assert!(accept_run("vps", &exited(true, true)).is_ok());
    assert!(accept_run("vps", &exited(true, false)).is_err());
    assert!(accept_run("vps", &exited(false, false)).is_err());
    assert!(accept_run("vps", &FetchRun::NotRun).is_err());
    assert!(accept_run("vps", &FetchRun::TimedOut).is_err());
}

#[test]
fn only_sound_snapshots_are_promoted() {
    assert!(quick_check("ok").is_ok());
    let error = promote_snapshot("vps", quick_check("malformed")).expect_err("refused");
    assert!(error.contains("quick_check"));
    let outcome = fetch_outcome(&host("vps", "unused"), Err(error), now());
    assert!(!outcome.ok);
    assert!(outcome.err.as_deref().unwrap_or_default().contains("quick_check"));
    assert!(fetch_outcome(&host("vps", "unused"), Ok(()), now()).ok);
}

#[test]
fn hosts_are_reached_over_ssh() {
    let args = fetch_args(&host("vps", "root@vps"));
    assert!(args.iter().any(|arg| arg == "root@vps"));
    assert!(args.iter().any(|arg| arg.contains("ConnectTimeout=5")));
    assert_eq!(fetch_interval(5), 60);
    assert_eq!(fetch_interval(120), 120);
    assert_eq!(snapshot_path("/remote", "vps"), "/remote/vps.db");
    assert_ne!(snapshot_tmp_path("/remote", "vps"), snapshot_path("/remote", "vps"));
    assert_eq!(snapshot_path("/remote", "/x"), "/x.db");
    assert_eq!(snapshot_tmp_path("/remote", "/x"), "/x.db.tmp");
    assert_eq!(snapshot_path("/remote/", "a/b"), "/remote/a/b.db");
    assert_eq!(snapshot_path("/remote", ""), "/remote/.db");
}

#[test]
fn snapshots_of_an_earlier_session_are_taken_up() {
    let found = HostRuntime::from_existing_snapshot(host("vps", "x"), "/remote", true, now());
    assert_eq!(found.db.map(|db| db.path), Some("/remote/vps.db".to_owned()));
    let lost = HostRuntime::from_existing_snapshot(host("vps", "x"), "/remote", false, now());
    assert!(lost.status.is_offline());
    assert!(status_label(&lost.status).contains("offline"));
    assert_eq!(
        lost.status,
        HostStatus::Offline { since: now(), last_err: "not fetched yet".to_owned() }
    );
}
