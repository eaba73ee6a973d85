use agmsg_tui::clock::SECOND_NANOS;
use agmsg_tui::notify::{
    osc9_sequence, title_sequence, BurstTracker, NotificationSink, NotifySettings, BURST_WINDOW,
    NOTIFY_SETTING_COUNT, OSC9_THROTTLE,
};

const START: u64 = 1_000_000_000_000;

#[test]
fn burst_tracker_stays_quiet_under_threshold() {
    let mut tracker = BurstTracker::new();
    assert_eq!(tracker.record(20, START), None);
}

#[test]
fn burst_tracker_fires_once_threshold_exceeded() {
    let mut tracker = BurstTracker::new();
    assert_eq!(tracker.record(21, START), Some(21));
}

#[test]
fn burst_tracker_prunes_events_outside_the_window() {
    let mut tracker = BurstTracker::new();
    assert_eq!(tracker.record(21, START), Some(21));
    let later = START + BURST_WINDOW + SECOND_NANOS;
    assert_eq!(tracker.record(1, later), None);
}

#[test]
fn burst_tracker_accumulates_across_multiple_batches() {
    let mut tracker = BurstTracker::new();
    assert_eq!(tracker.record(15, START), None);
    assert_eq!(tracker.record(6, START + SECOND_NANOS), Some(21));
}

#[test]
fn bursts_count_every_call_within_the_window() {
    let mut tracker = BurstTracker::new();
    assert_eq!(tracker.record(5, START), None);
    assert_eq!(tracker.record(10, START + SECOND_NANOS), None);
    assert_eq!(tracker.record(0, START + 30 * SECOND_NANOS), None);
    assert_eq!(tracker.record(6, START + BURST_WINDOW), Some(21));
    assert_eq!(tracker.record(5, START + BURST_WINDOW + 1), Some(21));
    assert_eq!(tracker.record(9, START + BURST_WINDOW + SECOND_NANOS + 1), None);
    assert_eq!(tracker.record(1, START + BURST_WINDOW + SECOND_NANOS + 1), Some(21));
}

#[test]
fn osc9_throttle_blocks_within_the_window_and_allows_after() {
    let mut sink = NotificationSink::new();
    assert!(sink.should_emit_osc9(START));
    sink.last_osc9 = Some(START);
    assert!(!sink.should_emit_osc9(START + 4 * SECOND_NANOS));
    assert!(sink.should_emit_osc9(START + OSC9_THROTTLE));
}

#[test]
fn title_sequence_hides_badge_at_zero_unread() {
    assert_eq!(title_sequence(0), "\x1b]0;agmsg-tui\x07");
    assert_eq!(title_sequence(3), "\x1b]0;agmsg-tui [3]\x07");
}

#[test]
fn title_sequence_updates_for_large_counts() {
    assert_eq!(title_sequence(142), "\x1b]0;agmsg-tui [142]\x07");
}

#[test]
fn osc9_sequence_strips_control_characters_to_block_injection() {
    let seq = osc9_sequence("codex\x1b]0;pwned\x07", "hello\x07world");
    assert_eq!(seq, "\x1b]9;codex]0;pwned: helloworld\x07");
    assert_eq!(seq.matches('\x1b').count(), 1);
    assert_eq!(seq.matches('\x07').count(), 1);
}

#[test]
fn osc9_sequence_truncates_long_bodies_with_ellipsis() {
    let body = "a".repeat(200);
    let seq = osc9_sequence("chief-main", &body);
    assert!(seq.contains('…'));
    assert!(seq.chars().count() < 200);
}

#[test]
fn osc9_sequence_flattens_newlines_in_preview() {
    let main = "chief-main";
    let seq = osc9_sequence(main, "line one\nline two");
    assert_eq!(seq, format!("\x1b]9;{main}: line one line two\x07"));
}

#[test]
fn notify_settings_default_all_on() {
    let settings = NotifySettings::default();
    for index in 0..NOTIFY_SETTING_COUNT {
        assert!(settings.is_enabled(index));
    }
}

#[test]
fn notify_settings_toggle_flips_only_the_targeted_flag() {
    let mut settings = NotifySettings::default();
    settings.toggle(1);
    assert!(!settings.desktop);
    assert!(settings.bell);
    assert!(settings.title);
    assert!(settings.burst_alert);
}

#[test]
fn the_title_is_written_only_when_it_changes() {
    let mut sink = NotificationSink::new();
    assert_eq!(sink.set_title_if_changed(3), Some(title_sequence(3)));
    assert_eq!(sink.set_title_if_changed(3), None);
    assert_eq!(sink.set_title_if_changed(4), Some(title_sequence(4)));
}

#[test]
fn desktop_notifications_are_spaced_out() {
    let mut sink = NotificationSink::new();
    assert_eq!(sink.emit_osc9("a", "b", START), Some(osc9_sequence("a", "b")));
    assert_eq!(sink.emit_osc9("a", "b", START + SECOND_NANOS), None);
    assert!(sink.emit_osc9("a", "b", START + OSC9_THROTTLE).is_some());
}
