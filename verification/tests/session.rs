use agmsg_tui::app::composer::ComposerState;
use agmsg_tui::app::model::Draft;
use agmsg_tui::clock::{parse_rfc3339, Span, Timestamp, SECOND_NANOS};
use agmsg_tui::db::Message;
use agmsg_tui::notify::NotifySettings;
use agmsg_tui::pane::PaneIdx;
use agmsg_tui::poll::{LivePoller, NORMAL_POLL_INTERVAL};
use agmsg_tui::state::{PersistentState, STATE_SCHEMA_VERSION};
use agmsg_tui::timefmt::{format_timestamp, is_within};
use chrono::{Duration, Utc};

const NOW: u64 = 5_000_000_000_000;

#[test]
fn failures_back_off_to_thirty_seconds_and_success_recovers() {
    let mut poller = LivePoller::new(0, NOW);
    let delays: Vec<u64> = (0..7)
        .map(|_| poller.record_failure(NOW) / SECOND_NANOS)
        .collect();
    assert_eq!(delays, vec![1, 2, 4, 8, 16, 30, 30]);

    poller.record_success(NOW + 31 * SECOND_NANOS);
    assert!(poller.take_recovered());
    assert!(!poller.take_recovered());
    assert_eq!(poller.record_failure(NOW) / SECOND_NANOS, 1);
}

#[test]
fn the_poller_remembers_the_latest_message() {
    let mut poller = LivePoller::new(3, NOW);
    assert!(!poller.is_due(NOW));
    assert!(poller.is_due(NOW + NORMAL_POLL_INTERVAL));
    let message = Message {
        id: 9,
        team: "ops".to_owned(),
        from_agent: "a".to_owned(),
        to_agent: "b".to_owned(),
        body: "x".to_owned(),
        created_at: "2026-01-01T00:00:00Z".to_owned(),
        read_at: None,
    };
    poller.accept(&vec![message], NOW);
    assert_eq!(poller.last_seen_id, 9);
}

#[test]
fn state_round_trip_and_schema_mismatch_fallback() {
    let mut state = PersistentState::fresh(38);
    state.sidebar_pct = 47;
    state.last_team = Some("ops-hub".to_owned());
    let mut same = PersistentState::fresh(38);
    same.sidebar_pct = 47;
    same.last_team = Some("ops-hub".to_owned());
    assert_eq!(PersistentState::load(Some(state), 38), same);

    let mut future = PersistentState::fresh(38);
    future.schema_version = 99;
    future.sidebar_pct = 55;
    future.last_team = Some("stale".to_owned());
    assert_eq!(PersistentState::load(Some(future), 38), PersistentState::fresh(38));
    assert_eq!(PersistentState::load(None, 38), PersistentState::fresh(38));
}

fn draft(team: &str, body: &str) -> Draft {
    Draft {
        team: team.to_owned(),
        composer: ComposerState {
            roster: Vec::new(),
            from_index: 0,
            to_index: 0,
            body: body.to_owned(),
            cursor: 0,
        },
    }
}

#[test]
fn states_are_compared_whatever_the_order_of_drafts() {
    let state = |drafts: Vec<Draft>| PersistentState {
        schema_version: STATE_SCHEMA_VERSION,
        sidebar_pct: 30,
        last_team: None,
        drafts,
        notify_settings: NotifySettings::default(),
    };
    let one = state(vec![draft("a", "x"), draft("b", "y")]);
    let two = state(vec![draft("b", "y"), draft("a", "x")]);
    let other = state(vec![draft("b", "z"), draft("a", "x")]);
    assert!(one.same(&two));
    assert!(!one.same(&other));
}

fn stamp(time: chrono::DateTime<Utc>) -> Timestamp {
    Timestamp { secs: time.timestamp(), nanos: time.timestamp_subsec_nanos() }
}

#[test]
fn under_an_hour_is_rendered_as_minutes_ago() {
    let now = Utc::now();
    let created = (now - Duration::minutes(5)).to_rfc3339();
    assert_eq!(format_timestamp(&created, stamp(now)), "5m ago");
}

#[test]
fn between_one_and_twenty_four_hours_is_rendered_as_hours_ago() {
    let now = Utc::now();
    let created = (now - Duration::hours(3)).to_rfc3339();
    assert_eq!(format_timestamp(&created, stamp(now)), "3h ago");
}

#[test]
fn past_twenty_four_hours_falls_back_to_absolute_date() {
    let now = Utc::now();
    let past = now - Duration::hours(30);
    let expected = past.format("%b-%d %H:%M").to_string();
    assert_eq!(format_timestamp(&past.to_rfc3339(), stamp(now)), expected);
}

#[test]
fn is_within_respects_the_requested_window() {
    let now = Utc::now();
    let recent = (now - Duration::minutes(10)).to_rfc3339();
    let stale = (now - Duration::hours(2)).to_rfc3339();
    let hour = Span { secs: 3600, nanos: 0 };
    assert!(is_within(&recent, stamp(now), hour));
    assert!(!is_within(&stale, stamp(now), hour));
}

#[test]
fn times_that_cannot_be_read_are_shown_as_they_are() {
    let now = parse_rfc3339("2026-07-21T12:00:00.5+09:00").expect("time");
    assert_eq!(now.secs, 1_784_602_800);
    assert_eq!(now.nanos, 500_000_000);
    assert_eq!(parse_rfc3339("yesterday"), None);
    assert_eq!(format_timestamp("yesterday", now), "yesterday");
    let hour = Span { secs: 3600, nanos: 0 };
    assert!(!is_within("yesterday", now, hour));
    let back = Span { secs: -60, nanos: 0 };
    assert!(!is_within("2026-07-21T12:00:00+09:00", now, back));
    assert!(is_within("2026-07-21T12:02:00+09:00", now, back));
}

#[test]
fn the_other_pane_is_found_both_ways() {
    assert_eq!(PaneIdx::First.other(), PaneIdx::Second);
    assert_eq!(PaneIdx::Second.other().other(), PaneIdx::Second);
}

#[test]
fn a_cursor_behind_its_draft_is_put_at_the_end() {
    let mut state = PersistentState::fresh(38);
    state.sidebar_pct = 41;
    state.drafts = vec![draft("a", "abc"), draft("b", "xyz")];
    state.drafts[0].composer.cursor = 9;
    state.drafts[1].composer.cursor = 2;
    let loaded = PersistentState::load(Some(state), 38);
    assert_eq!(loaded.drafts[0].composer.cursor, 9);
    assert_eq!(loaded.drafts[1].composer.cursor, 2);
    let loaded = loaded.mended();
    assert_eq!(loaded.schema_version, 1);
    assert_eq!(loaded.sidebar_pct, 41);
    assert_eq!(loaded.drafts.len(), 2);
    assert_eq!(loaded.drafts[0].composer.body, "abc");
    assert_eq!(loaded.drafts[0].composer.cursor, 3);
    assert_eq!(loaded.drafts[1].composer.cursor, 2);
}
