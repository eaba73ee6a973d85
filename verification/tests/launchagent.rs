use std::cell::RefCell;

use agmsg_tui::clock::Timestamp;
use agmsg_tui::launchagent::{
    default_plist_path, next_run_from_plist_json, parse_launchctl_pid, probe_with_os, toggle,
    CommandRunner, LaState, LocalTime, RunOutput, AUDIT_DAILY_LABEL,
};
use chrono::{Local, TimeZone, Utc};

fn output(success: bool, stdout: &str, stderr: &str) -> RunOutput {
    RunOutput { success, stdout: stdout.to_owned(), stderr: stderr.to_owned() }
}

struct FakeRunner {
    calls: RefCell<Vec<(String, Vec<String>)>>,
    launchctl_list: (bool, &'static str, &'static str),
    plutil: (bool, &'static str, &'static str),
    toggle_result: (bool, &'static str, &'static str),
}

impl FakeRunner {
    fn new() -> Self {
        FakeRunner {
            calls: RefCell::new(Vec::new()),
            launchctl_list: (false, "", ""),
            plutil: (false, "", ""),
            toggle_result: (false, "", ""),
        }
    }
}

impl CommandRunner for FakeRunner {
    fn run(&self, program: &str, args: &Vec<String>) -> RunOutput {
        self.calls.borrow_mut().push((program.to_owned(), args.clone()));
        let (success, stdout, stderr) = match program {
            "plutil" => self.plutil,
            "launchctl" if args.first().map(String::as_str) == Some("list") => self.launchctl_list,
            "launchctl" => self.toggle_result,
            _ => (false, "", ""),
        };
        output(success, stdout, stderr)
    }
}

const PLIST: &str = "/plists/com.remma.agmsg-audit-daily.plist";

fn at(hour: u32) -> Timestamp {
    let time = Local.with_ymd_and_hms(2026, 7, 20, hour, 0, 0).unwrap();
    Timestamp { secs: time.timestamp(), nanos: 0 }
}

fn now() -> Timestamp {
    Timestamp { secs: Utc::now().timestamp(), nanos: 0 }
}

fn shown(time: LocalTime) -> String {
    Local
        .timestamp_opt(time.instant.secs, time.instant.nanos)
        .unwrap()
        .format("%Y-%m-%d %H:%M")
        .to_string()
}

#[test]
fn parses_pid_from_loaded_with_pid_output() {
    let stdout = "{\n\t\"PID\" = 12345;\n\t\"Label\" = \"com.remma.agmsg-audit-daily\";\n}";
    assert_eq!(parse_launchctl_pid(stdout), Some(12345));
}

#[test]
fn loaded_idle_has_no_pid_line() {
    let stdout = "{\n\t\"Label\" = \"com.remma.agmsg-audit-daily\";\n\t\"LastExitStatus\" = 0;\n}";
    assert_eq!(parse_launchctl_pid(stdout), None);
}

#[test]
fn single_interval_returns_next_matching_time_today_or_tomorrow() {
    let json = r#"{ "StartCalendarInterval": { "Hour": 9, "Minute": 15 } }"#;
    let next = next_run_from_plist_json(json, at(8)).expect("next run");
    assert_eq!(shown(next), "2026-07-20 09:15");
}

#[test]
fn single_interval_rolls_to_tomorrow_when_todays_slot_already_passed() {
    let json = r#"{ "StartCalendarInterval": { "Hour": 9, "Minute": 15 } }"#;
    let next = next_run_from_plist_json(json, at(10)).expect("next run");
    assert_eq!(shown(next), "2026-07-21 09:15");
}

#[test]
fn array_of_intervals_returns_soonest_across_all_of_them() {
    let json = r#"{
        "StartCalendarInterval": [
            { "Hour": 22, "Minute": 0 },
            { "Hour": 9, "Minute": 15 }
        ]
    }"#;
    let next = next_run_from_plist_json(json, at(8)).expect("next run");
    assert_eq!(shown(next), "2026-07-20 09:15");
}

#[test]
fn weekday_field_crossing_the_week_boundary() {
    let json = r#"{ "StartCalendarInterval": { "Hour": 9, "Minute": 0, "Weekday": 0 } }"#;
    let next = next_run_from_plist_json(json, at(8)).expect("next run");
    assert_eq!(next.weekday, 0);
    assert!(next.instant.secs > at(8).secs);
}

#[test]
fn days_and_months_are_those_of_the_calendar() {
    let next = |fields: &str| {
        next_run_from_plist_json(&format!(r#"{{"StartCalendarInterval":{{{fields}}}}}"#), at(8))
    };
    let sunday = next(r#""Hour":9,"Minute":5,"Weekday":7"#).expect("a sunday");
    assert_eq!(shown(sunday), "2026-07-26 09:05");
    assert_eq!((sunday.month, sunday.day, sunday.weekday), (7, 26, 0));
    assert_eq!((sunday.hour, sunday.minute), (9, 5));
    let new_year = next(r#""Hour":12,"Day":1,"Month":1"#).expect("a new year");
    assert_eq!(shown(new_year), "2027-01-01 12:00");
    assert_eq!((new_year.month, new_year.day, new_year.weekday), (1, 1, 5));
    assert_eq!(next(r#""Hour":12,"Day":29,"Month":2"#), None);
}

#[test]
fn malformed_interval_returns_none() {
    assert_eq!(
        next_run_from_plist_json(r#"{ "StartCalendarInterval": "not-a-dict" }"#, now()),
        None
    );
    assert_eq!(
        next_run_from_plist_json(r#"{ "StartCalendarInterval": { "Hour": 99 } }"#, now()),
        None
    );
    assert_eq!(next_run_from_plist_json("{}", now()), None);
}

#[test]
fn probe_reports_loaded_true_with_correctly_formatted_next_run() {
    let mut runner = FakeRunner::new();
    runner.launchctl_list = (true, "{\n\t\"PID\" = 555;\n}", "");
    runner.plutil = (true, r#"{"StartCalendarInterval":{"Hour":9,"Minute":15}}"#, "");

    let status = probe_with_os(true, &runner, AUDIT_DAILY_LABEL, PLIST, true, now());

    assert!(status.is_loaded());
    assert_eq!(status.state, LaState::Loaded { pid: Some(555) });
    assert_eq!(status.next_run_label().len(), 11);
    assert!(status.next_run.is_some());
}

#[test]
fn probe_reports_missing_when_plist_absent() {
    let runner = FakeRunner::new();
    let status = probe_with_os(true, &runner, AUDIT_DAILY_LABEL, "/nope.plist", false, now());
    assert_eq!(status.state, LaState::Missing);
    assert_eq!(status.next_run_label(), "-");
}

#[test]
fn probe_reports_unloaded_on_nonzero_launchctl_list_exit() {
    let mut runner = FakeRunner::new();
    runner.launchctl_list = (false, "", "Could not find service");
    let status = probe_with_os(true, &runner, AUDIT_DAILY_LABEL, PLIST, true, now());
    assert_eq!(status.state, LaState::Unloaded);
}

#[test]
fn probe_reports_unsupported_off_macos_regardless_of_plist_or_runner() {
    let runner = FakeRunner::new();
    let status = probe_with_os(false, &runner, AUDIT_DAILY_LABEL, PLIST, true, now());
    assert_eq!(status.state, LaState::Unsupported);
    assert!(status.plist.is_none());
    assert!(runner.calls.borrow().is_empty(), "must not shell out when unsupported");
}

#[test]
fn toggle_from_loaded_state_issues_launchctl_unload() {
    let mut runner = FakeRunner::new();
    runner.toggle_result = (true, "", "");

    let result = toggle(&runner, Some(PLIST), true).expect("toggle");

    assert!(result.success);
    let calls = runner.calls.borrow();
    assert_eq!(calls.len(), 1);
    let (program, args) = &calls[0];
    assert_eq!(program, "launchctl");
    assert_eq!(args[0], "unload");
    assert_eq!(args[1], "-w");
    assert_eq!(args[2], PLIST);
}

#[test]
fn toggle_from_unloaded_state_issues_launchctl_load() {
    let runner = FakeRunner::new();

    toggle(&runner, Some(PLIST), false).expect("toggle");

    let calls = runner.calls.borrow();
    assert_eq!(calls[0].1[0], "load");
}

#[test]
fn a_path_that_is_no_text_cannot_be_toggled() {
    assert!(toggle(&FakeRunner::new(), None, true).is_err());
    assert_eq!(
        default_plist_path(&Some("/home/me".to_owned()), AUDIT_DAILY_LABEL),
        "/home/me/Library/LaunchAgents/com.remma.agmsg-audit-daily.plist"
    );
}
