use agmsg_tui::agents::AgentFocus;
use agmsg_tui::app::bulk_dialog::validate_bulk_renames;
use agmsg_tui::app::composer::ComposerState;
use agmsg_tui::app::display::MouseTarget;
use agmsg_tui::app::drafts::{find_draft, insert_draft, remove_draft};
use agmsg_tui::app::filters::list_visible;
use agmsg_tui::app::model::{
    AgentsScreen, Display, Focus, InputMode, Room, Screen,
};
use agmsg_tui::app::reset_targets::reset_targets;
use agmsg_tui::audit_history::{find_trend, ChatterTrend};
use agmsg_tui::bulk::lock::percent_decode;
use agmsg_tui::bulk::{
    BulkFilterFocus, BulkKind, BulkOperation, BulkTarget, MarkReadTarget, RenameTarget,
};
use agmsg_tui::color::agent_color;
use agmsg_tui::db::{AgentIdentitySummary, AgentTeamSummary, Message, StaleUnread, ZombieIdentity};
use agmsg_tui::exec::CommandResult;
use agmsg_tui::health::pidfiles::{discover_bridges, RunFile};
use agmsg_tui::highlight::inline::highlight_plain_line;
use agmsg_tui::input::MouseEventKind;
use agmsg_tui::lines::{lines, parse_u32, parse_usize, rsplit_once, split_once};
use agmsg_tui::order::{compare_text, Order};
use agmsg_tui::palette::{remap_cell_safe, CellColors, Color, PaletteMode};
use agmsg_tui::search::{replace_char, split, trim};
use agmsg_tui::sorting::sort;
use agmsg_tui::strings::{char_is_whitespace, decimal_i64, decimal_u128, decimal_usize};

fn message(id: i64, from: &str, to: &str, body: &str) -> Message {
    Message {
        id,
        team: "ops".to_owned(),
        from_agent: from.to_owned(),
        to_agent: to.to_owned(),
        body: body.to_owned(),
        created_at: "2026-01-01T00:00:00Z".to_owned(),
        read_at: None,
    }
}

fn room(messages: Vec<Message>) -> Room {
    Room {
        teams: Vec::new(),
        selected_team: 0,
        active_team: Some("ops".to_owned()),
        members: Vec::new(),
        selected_member: 0,
        messages,
        selected_message: 0,
        focus: Focus::Room,
        has_more_history: false,
        expanded_messages: Vec::new(),
        member_filter: None,
        search_query: None,
        input_mode: InputMode::Normal,
    }
}

fn composer(body: &str, cursor: usize) -> ComposerState {
    ComposerState {
        roster: Vec::new(),
        from_index: 0,
        to_index: 0,
        body: body.to_owned(),
        cursor,
    }
}

#[test]
fn what_is_typed_can_be_taken_back() {
    let mut state = composer("aあb", 2);
    state.insert_char('x');
    assert_eq!((state.body.as_str(), state.cursor), ("aあxb", 3));
    state.backspace();
    assert_eq!((state.body.as_str(), state.cursor), ("aあb", 2));
    state.delete();
    assert_eq!(state.body, "aあ");
    let mut words = composer("one two  ", 9);
    words.delete_previous_word();
    assert_eq!((words.body.as_str(), words.cursor), ("one ", 4));
}

#[test]
fn drafts_are_kept_for_their_team() {
    let mut drafts = Vec::new();
    insert_draft(&mut drafts, "ops", composer("one", 0));
    insert_draft(&mut drafts, "lab", composer("two", 0));
    insert_draft(&mut drafts, "ops", composer("three", 0));
    assert_eq!(drafts.len(), 2);
    let found = find_draft(&drafts, "ops").expect("draft");
    assert_eq!(drafts[found].composer.body, "three");
    assert_eq!(remove_draft(&mut drafts, "lab").expect("draft").body, "two");
    assert!(find_draft(&drafts, "lab").is_none());
    assert!(find_draft(&drafts, "ops").is_some());
}

#[test]
fn arrivals_are_sorted_in_and_counted() {
    let mut state = room(vec![message(1, "a", "b", "x"), message(4, "a", "b", "x")]);
    let mut other = message(9, "a", "b", "x");
    other.team = "lab".to_owned();
    let (count, latest) = state.take_arrivals(&vec![message(3, "a", "b", "x"), other]);
    assert_eq!(count, 1);
    assert_eq!(latest.map(|row| row.id), Some(3));
    let ids: Vec<i64> = state.messages.iter().map(|row| row.id).collect();
    assert_eq!(ids, vec![1, 3, 4]);
    state.take_arrivals(&vec![message(3, "a", "b", "x")]);
    assert_eq!(state.messages.len(), 3);
}

#[test]
fn only_messages_that_pass_every_filter_are_shown() {
    let rows = vec![
        message(1, "ann", "bob", "apple"),
        message(2, "cid", "bob", "Apple pie"),
        message(3, "ann", "cid", "pear"),
    ];
    let member = Some("ann".to_owned());
    let query = Some("APPLE".to_owned());
    assert_eq!(list_visible(&rows, &None, &None), vec![0, 1, 2]);
    assert_eq!(list_visible(&rows, &member, &None), vec![0, 2]);
    assert_eq!(list_visible(&rows, &None, &query), vec![0, 1]);
    assert_eq!(list_visible(&rows, &member, &query), vec![0]);
}

#[test]
fn the_focus_goes_round() {
    assert_eq!(Focus::Teams.next(), Focus::Members);
    assert_eq!(Focus::Teams.next().next().next(), Focus::Teams);
    assert_eq!(Focus::Room.previous().next(), Focus::Room);
    let mut field = BulkFilterFocus::Agent;
    for _ in 0..4 {
        field = field.next(false);
    }
    assert_eq!(field, BulkFilterFocus::Agent);
    assert_eq!(field.next(true).next(false), BulkFilterFocus::Agent);
}

#[test]
fn the_sidebar_moves_only_while_it_is_dragged() {
    let mut display = Display {
        screen: Screen::Main,
        help_return_screen: Screen::Main,
        help_scroll: 0,
        sidebar_pct: 30,
        resize_dragging: false,
    };
    display.mouse(MouseEventKind::LeftDrag, MouseTarget::Room, 50);
    assert_eq!(display.sidebar_pct, 30);
    display.mouse(MouseEventKind::LeftDown, MouseTarget::ResizeHandle, 30);
    display.mouse(MouseEventKind::LeftDrag, MouseTarget::Room, 50);
    assert_eq!(display.sidebar_pct, 50);
    display.mouse(MouseEventKind::LeftUp, MouseTarget::Room, 50);
    display.mouse(MouseEventKind::LeftDrag, MouseTarget::Room, 20);
    assert_eq!(display.sidebar_pct, 50);
}

fn identity(name: &str) -> AgentIdentitySummary {
    AgentIdentitySummary {
        team: "ops".to_owned(),
        name: name.to_owned(),
        agent_type: "codex".to_owned(),
        project: "/repo".to_owned(),
        last_seen_at: None,
        sent_30d: 0,
        received_30d: 0,
    }
}

fn team(names: &[&str]) -> AgentTeamSummary {
    AgentTeamSummary {
        name: "ops".to_owned(),
        identities: names.iter().map(|name| identity(name)).collect(),
        broken_config: None,
    }
}

#[test]
fn the_own_identity_is_never_offered_for_a_reset() {
    let teams = vec![team(&["codex-a", "codex-b", "codex-c"])];
    let zombie = |agent: &str| ZombieIdentity { team: "ops".to_owned(), agent: agent.to_owned() };
    let zombies = vec![zombie("codex-a"), zombie("codex-b")];
    let stale = vec![StaleUnread {
        id: 1,
        team: "ops".to_owned(),
        from_agent: "codex-a".to_owned(),
        to_agent: "codex-c".to_owned(),
        body: "x".to_owned(),
        created_at: "2026-01-01T00:00:00Z".to_owned(),
    }];
    let labels = |own: Option<&str>| -> Vec<String> {
        reset_targets(&teams, &zombies, &stale, &own.map(str::to_owned))
            .iter()
            .map(|target| match target {
                BulkTarget::Reset(target) => target.agent.clone(),
                _ => String::new(),
            })
            .collect()
    };
    assert_eq!(labels(None), vec!["codex-a", "codex-b", "codex-c"]);
    assert_eq!(labels(Some("codex-b")), vec!["codex-a", "codex-c"]);
}

fn rename(old: &str, new: &str) -> RenameTarget {
    RenameTarget {
        team: "ops".to_owned(),
        old: old.to_owned(),
        new: new.to_owned(),
        agent_type: "codex".to_owned(),
    }
}

#[test]
fn renames_that_collide_are_refused() {
    let teams = vec![team(&["codex-a", "codex-b", "codex-c"])];
    let check = |targets: Vec<RenameTarget>| validate_bulk_renames(&targets, &teams);
    assert!(check(vec![rename("codex-a", "codex-lead")]).is_ok());
    assert!(check(vec![rename("codex-a", "codex-a")]).is_err());
    assert!(check(vec![rename("codex-a", "codex-c")]).is_err());
    assert!(check(vec![rename("codex-a", "codex-x"), rename("codex-b", "codex-x")]).is_err());
    assert!(check(vec![rename("codex-a", "codex-b"), rename("codex-b", "codex-a")]).is_ok());
}

#[test]
fn a_reload_keeps_the_cursors_where_it_can() {
    let mut screen = AgentsScreen {
        cli_family: "chief".to_owned(),
        teams: vec![team(&["codex-a", "codex-b", "codex-c"])],
        team_index: 0,
        identity_index: 2,
        focus: AgentFocus::Identities,
        modal: None,
        identity_info: None,
        restart_needed: None,
    };
    screen.reload_agents(vec![team(&["codex-a", "codex-b", "codex-c", "codex-d"])]);
    assert_eq!(screen.identity_index, 2);
    screen.reload_agents(vec![team(&["codex-a"])]);
    assert_eq!(screen.identity_index, 0);
}

#[test]
fn units_of_an_operation_are_counted() {
    let target = |recipient: &str, message_count: usize| {
        BulkTarget::MarkRead(MarkReadTarget {
            team: "ops".to_owned(),
            recipient: recipient.to_owned(),
            message_count,
        })
    };
    let targets = vec![target("a", 2), target("b", 3)];
    let mut operation = BulkOperation::new(BulkKind::MarkRead, targets);
    assert_eq!(operation.total_units(), 5);
    let result = CommandResult::from_output(true, Some(0), "ok", "");
    operation.record_success(target("a", 2), &result);
    assert_eq!(operation.completed_units, 2);
    operation.record_failure(target("b", 3), "no".to_owned());
    operation.skip_failed_and_continue();
    assert_eq!(operation.failed_units, 3);
    assert_eq!(operation.completed_units + operation.failed_units, operation.total_units());
    assert!(operation.current_target().is_none());
}

#[test]
fn numbers_are_read_back_as_they_are_written() {
    for value in [0usize, 7, 10, 65_535, usize::MAX] {
        assert_eq!(parse_usize(&decimal_usize(value)), Some(value));
    }
    assert_eq!(parse_u32("4294967296"), None);
    assert_eq!(parse_u32("+7"), Some(7));
    assert_eq!(parse_u32(""), None);
    assert_eq!(decimal_i64(-40), "-40");
    assert_eq!(decimal_i64(i64::MIN), i64::MIN.to_string());
    assert_eq!(decimal_u128(u128::MAX), u128::MAX.to_string());
}

#[test]
fn counts_that_stay_the_same_are_no_trend() {
    assert_eq!(find_trend(&vec![4, 4, 4, 4]), None);
    assert_eq!(find_trend(&vec![1, 2]), None);
    assert_eq!(find_trend(&vec![1, 1, 2]), Some(ChatterTrend { start: 1, end: 2 }));
}

#[test]
fn sorting_keeps_every_message() {
    let ids = |rows: &[Message]| rows.iter().map(|row| row.id).collect::<Vec<_>>();
    let rows = vec![message(3, "a", "b", "x"), message(1, "a", "b", "x"), message(2, "a", "b", "x")];
    assert_eq!(ids(&sort(rows)), vec![1, 2, 3]);
}

#[test]
fn texts_are_ordered_by_their_characters() {
    assert_eq!(compare_text("a", "b"), Order::Before);
    assert_eq!(compare_text("b", "ab"), Order::After);
    assert_eq!(compare_text("a", "ab"), Order::Before);
    assert_eq!(compare_text("あ", "あ"), Order::Same);
}

#[test]
fn bridges_of_one_process_are_found_once() {
    let file = |name: &str| RunFile { name: name.to_owned(), content: Some("7\n".to_owned()) };
    let bridges = discover_bridges("chief", vec![file("b.pid"), file("a.pid"), file("c.txt")]);
    assert_eq!(bridges.len(), 1);
    assert_eq!(bridges[0].pid, 7);
}

#[test]
fn ordinary_lines_are_one_span() {
    let line = highlight_plain_line("nothing to see here", false);
    assert_eq!(line.spans.len(), 1);
    assert_eq!(line.spans[0].content, "nothing to see here");
}

#[test]
fn safe_colors_are_not_remapped() {
    for name in ["a", "b", "c", "d", "e", "f", "g", "h"] {
        let fg = agent_color(name, PaletteMode::Safe);
        let cell = CellColors { fg, bg: Color::Reset };
        assert_eq!(remap_cell_safe(cell), cell);
    }
}

#[test]
fn texts_are_taken_apart_like_strings() {
    assert_eq!(lines("a\r\nb\n\nc"), "a\r\nb\n\nc".lines().collect::<Vec<_>>());
    assert_eq!(split("a,b,", ','), vec!["a", "b", ""]);
    assert_eq!(split_once("k=v=w", "="), Some(("k".to_owned(), "v=w".to_owned())));
    assert_eq!(rsplit_once("k=v=w", "="), Some(("k=v".to_owned(), "w".to_owned())));
    assert_eq!(trim("\u{3000} x \t"), "x");
    assert_eq!(replace_char("a|b", '|', "\\|"), "a\\|b");
    for code in 0..0x1_0000u32 {
        if let Some(character) = char::from_u32(code) {
            assert_eq!(char_is_whitespace(character), character.is_whitespace());
        }
    }
}

#[test]
fn percent_signs_stand_for_bytes() {
    assert_eq!(percent_decode("%E3%81%82"), Some("あ".to_owned()));
    assert_eq!(percent_decode("%FF"), None);
    assert_eq!(percent_decode("%zz"), None);
}
