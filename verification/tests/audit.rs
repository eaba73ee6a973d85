use agmsg_tui::audit::{
    audit_json, build_markdown, build_markdown_for_window, parse_audit_stdout, report_stamp,
    AuditAxis, AuditReport, NamedAxis, AXIS_ORDER,
};
use agmsg_tui::audit_history::{
    detect_chatter_trend, find_trend, parse_history_line, read_audit_history, AuditHistorySample,
    ChatterTrend, AUDIT_HISTORY_MAX_SAMPLES,
};
use agmsg_tui::clock::{parse_rfc3339, Timestamp};
use serde_json::Value;

const SAMPLE: &str = r#"{"ts":"2026-07-20T11:29:58Z","window_days":30,"score":83,"total_msg":739,"total_teams":5,"total_agents":26,"unread":23,"unread_stale":13,"body_p95":2396,"burst_days":0,"asymmetric_pairs":0,"zombie_identities":0,"stale_run_files":0,"max_team_pct":46,"axes":{"team_naming":{"score":10,"note":"OK"},"agent_naming":{"score":4,"note":"3 anonymous"},"body_size":{"score":7,"note":"soft-over"},"burst_control":{"score":10,"note":"OK"},"loop_prevention":{"score":10,"note":"OK"},"unread_hygiene":{"score":2,"note":"13 stale"},"zombie_cleanup":{"score":10,"note":"OK"},"state_hygiene":{"score":10,"note":"OK"},"traffic_spread":{"score":10,"note":"max 46%"},"activity":{"score":10,"note":"739 msgs"}}}"#;

fn number(value: &Value, name: &str) -> usize {
    value[name].as_u64().expect("number") as usize
}

fn read_report(json: &str) -> Option<AuditReport> {
    let value: Value = serde_json::from_str(json).ok()?;
    let mut axes = Vec::new();
    for (name, axis) in value["axes"].as_object()? {
        axes.push(NamedAxis {
            name: name.clone(),
            axis: AuditAxis {
                score: number(axis, "score") as u16,
                note: axis["note"].as_str()?.to_owned(),
            },
        });
    }
    Some(AuditReport {
        ts: value["ts"].as_str()?.to_owned(),
        window_days: number(&value, "window_days") as u32,
        score: number(&value, "score") as u16,
        total_msg: number(&value, "total_msg"),
        total_teams: number(&value, "total_teams"),
        total_agents: number(&value, "total_agents"),
        unread: number(&value, "unread"),
        unread_stale: number(&value, "unread_stale"),
        body_p95: number(&value, "body_p95"),
        burst_days: number(&value, "burst_days"),
        asymmetric_pairs: number(&value, "asymmetric_pairs"),
        zombie_identities: number(&value, "zombie_identities"),
        stale_run_files: number(&value, "stale_run_files"),
        max_team_pct: number(&value, "max_team_pct"),
        axes,
    })
}

fn parse(stdout: &str) -> Result<AuditReport, String> {
    let parsed = match audit_json(stdout) {
        Some(json) => read_report(&json),
        None => None,
    };
    parse_audit_stdout(stdout, parsed)
}

#[test]
fn parses_json_from_last_stdout_line() {
    let report = parse(&format!("diagnostic\n{SAMPLE}\n")).expect("report");
    assert_eq!(report.score, 83);
    assert_eq!(report.axes.len(), 10);
}

#[test]
fn report_stamp_uses_required_filename_shape() {
    assert_eq!(
        report_stamp("2026-07-20T11:29:58Z").expect("stamp"),
        "20260720-1129"
    );
}

#[test]
fn report_stamp_refuses_a_short_time() {
    assert_eq!(
        report_stamp("2026-07"),
        Err("audit timestamp が不正です: 2026-07".to_owned())
    );
}

#[test]
fn markdown_contains_audit_and_stats_sections() {
    let report = parse(SAMPLE).expect("report");
    let markdown = build_markdown(&report, &Vec::new(), &Vec::new(), &Vec::new());
    assert!(markdown.contains("Total score: **83/100**"));
    assert!(markdown.contains("## Summary stats"));
    assert!(markdown.contains("## Pair matrices (30 days)"));
}

#[test]
fn the_document_names_its_window() {
    let report = parse(SAMPLE).expect("report");
    let markdown =
        build_markdown_for_window(&report, &Vec::new(), &Vec::new(), &Vec::new(), 7);
    assert!(markdown.contains("## Pair matrices (7 days)"));
}

#[test]
fn output_without_json_is_refused() {
    assert!(audit_json("nothing here\n").is_none());
    assert!(parse("nothing here\n").is_err());
    assert_eq!(AXIS_ORDER[0], "team_naming");
}

fn time(text: &str) -> Timestamp {
    parse_rfc3339(text).expect("time")
}

fn sample(day: u32, asymmetry: usize) -> AuditHistorySample {
    AuditHistorySample {
        timestamp: time(&format!("2026-07-{day:02}T09:00:00Z")),
        score: Some(80),
        total_msg: Some(700),
        unread: Some(10),
        body_p95: Some(2_000),
        asymmetric_pairs: Some(asymmetry),
        zombie_identities: Some(0),
    }
}

#[test]
fn parses_legacy_aliases_and_partial_metrics() {
    let old = parse_history_line(r#"{"timestamp":"2026-07-20T07:32:54Z","total":48}"#)
        .expect("old sample");
    assert_eq!(old.score, Some(48));
    assert_eq!(old.total_msg, None);

    let compact = parse_history_line(
        r#"{"ts":"2026-07-20T09:34:30Z","score":74,"msg":739,"zombies":4,"asym":2}"#,
    )
    .expect("compact sample");
    assert_eq!(compact.total_msg, Some(739));
    assert_eq!(compact.zombie_identities, Some(4));
    assert_eq!(compact.asymmetric_pairs, Some(2));
    assert!(parse_history_line("not json").is_none());
}

#[test]
fn reader_skips_invalid_lines_and_caps_tail_to_thirty_samples() {
    let mut lines = vec!["broken".to_owned()];
    for day in 1..=31 {
        lines.push(format!(
            r#"{{"ts":"2026-07-{day:02}T09:00:00Z","score":{day}}}"#
        ));
    }
    let now = time("2026-07-31T09:00:00Z");
    let history = read_audit_history(&Some(lines.join("\n")), now);
    assert_eq!(history.len(), AUDIT_HISTORY_MAX_SAMPLES);
    assert_eq!(history[0].score, Some(2));
    assert_eq!(history.last().and_then(|row| row.score), Some(31));
}

#[test]
fn a_missing_history_is_empty() {
    assert!(read_audit_history(&None, time("2026-07-31T09:00:00Z")).is_empty());
}

#[test]
fn detects_monotonic_and_average_ratio_chatter_trends() {
    let now = time("2026-07-21T09:00:00Z");
    assert_eq!(
        detect_chatter_trend(&vec![sample(15, 1), sample(17, 2), sample(20, 4)], now),
        Some(ChatterTrend { start: 1, end: 4 })
    );
    assert_eq!(
        detect_chatter_trend(
            &vec![sample(15, 2), sample(16, 1), sample(17, 5), sample(20, 6)],
            now,
        ),
        Some(ChatterTrend { start: 2, end: 6 })
    );
    assert_eq!(
        detect_chatter_trend(&vec![sample(15, 0), sample(17, 0), sample(20, 0)], now),
        None
    );
    assert_eq!(
        detect_chatter_trend(
            &vec![
                sample(15, 1),
                sample(16, 1),
                sample(17, 10),
                sample(18, 10),
                sample(20, 1),
            ],
            now,
        ),
        Some(ChatterTrend { start: 1, end: 7 })
    );
}

#[test]
fn trends_of_huge_counts_are_found_exactly() {
    let most = usize::MAX;
    assert_eq!(find_trend(&vec![most / 2, 0, most, most]).map(|trend| trend.end), Some(most));
    assert_eq!(find_trend(&vec![most, most, most - 1, most]), None);
    assert_eq!(find_trend(&vec![3, 1, 3, 3]).map(|trend| (trend.start, trend.end)), None);
    assert_eq!(find_trend(&vec![3, 1, 3, 4]).map(|trend| (trend.start, trend.end)), Some((2, 4)));
}
