//! Finding one's way: what the keys ask for, and where they lead.

use crate::agents::{AgentFocus, AgentModal};
use crate::app::agents_screen::AgentsRequest;
use crate::app::audit_screen::AuditRequest;
use crate::app::bulk_dialog;
use crate::app::bulk_dialog::{BulkChoice, BulkDialogStep};
use crate::app::bulk_screen::BulkStep;
use crate::app::filter_screen;
use crate::app::filter_screen::FilterRequest;
use crate::app::filters;
use crate::app::health_screen::HealthRequest;
use crate::app::model::{
    AgentsScreen, App, AppAction, AuditScreen, BulkCancel, BulkScreen, Focus, HealthScreen, InputMode,
    Query, Room, Screen, Task,
};
use crate::app::room_keys::MainRequest;
use crate::app::room_search::SearchStep;
use crate::app::status::StatusLine;
use crate::bulk::filter::{BulkFilterState, FilterPeriod};
use crate::bulk::lock::LockStatus;
use crate::bulk::target::{BulkKind, BulkModal, BulkTarget};
use crate::clock::Clock;
use crate::db::{AgentIdentitySummary, PairMatrix, StaleUnread, ZombieIdentity};
use crate::exec::CommandResult;
use crate::input::{KeyCode, KeyEvent};
use crate::strings;
use vstd::prelude::*;

verus! {

/// On the main screen, each of these keys asks for its own thing, and nothing else asks for it.
pub proof fn main_keys_ask_for_their_things(
    before: Room,
    key: KeyEvent,
    after: Room,
    line: Option<StatusLine>,
    request: MainRequest,
)
    requires
        before.key_post(key, after, line, request),
        before.input_mode == InputMode::Normal,
        !key.modifiers.control,
    ensures
        request is Quit <==> key.code == KeyCode::Char('q'),
        request is OpenComposer <==> key.code == KeyCode::Char('c'),
        request is MarkSelected <==> key.code == KeyCode::Char('r'),
        request is MarkTeam <==> key.code == KeyCode::Char('R') && before.focus != Focus::Members,
        request is RenameFromMembers <==> key.code == KeyCode::Char('R') && before.focus
            == Focus::Members,
        request is SpawnFromMembers <==> key.code == KeyCode::Char('n') && before.focus
            == Focus::Members,
        request is OpenAudit <==> key.code == KeyCode::Char('a'),
        request is OpenAgents <==> key.code == KeyCode::Char('A'),
        request is OpenHealth <==> key.code == KeyCode::Char('H'),
        request is MemberInfo <==> key.code == KeyCode::Char('I'),
        request is MarkMember <==> key.code == KeyCode::Char('M'),
        request is Help <==> key.code == KeyCode::Char('?'),
        request is OpenMemberComposer <==> key.code == KeyCode::Enter && before.focus
            == Focus::Members,
        request is OlderHistory <==> (key.code == KeyCode::Up || key.code == KeyCode::Char('k'))
            && before.focus == Focus::Room && before.selected_message == 0
            && before.has_more_history,
        request is ReloadTeam <==> (key.code == KeyCode::Enter && before.focus == Focus::Teams) || ((
        key.code == KeyCode::Char('[') || key.code == KeyCode::Char(']')) && before.teams@.len()
            > 0),
        request is Yank <==> key.code == KeyCode::Char('y') && before.current_message() is Some,
{
}

/// With Control held, these keys ask for the other screens and switches, and the half pages of the
/// room.
pub proof fn control_keys_ask_for_their_things(
    before: Room,
    key: KeyEvent,
    after: Room,
    line: Option<StatusLine>,
    request: MainRequest,
)
    requires
        before.key_post(key, after, line, request),
        before.input_mode == InputMode::Normal,
        key.modifiers.control,
    ensures
        request is OpenBulkFilter <==> key.code == KeyCode::Char('f'),
        key.code == KeyCode::Char('a') ==> request is OpenAudit,
        request is ToggleBell <==> key.code == KeyCode::Char('b'),
        request is NotifyPopup <==> key.code == KeyCode::Char('n'),
        request is HalfPageUp <==> key.code == KeyCode::Char('u') && before.focus == Focus::Room,
        key.code == KeyCode::Char('d') && before.focus == Focus::Room ==> after == before.half_page(
            true,
        ),
{
}

proof fn places_of_the_shown(positions: Seq<usize>, place: int)
    requires
        0 <= place < positions.len(),
        forall|i: int, j: int|
            0 <= i < j < positions.len() ==> #[trigger] positions[i] < #[trigger] positions[j],
    ensures
        filters::count_below(positions, positions[place]) == place,
    decreases positions.len(),
{
    if place > 0 {
        let rest = positions.skip(1);
        assert(positions[0] < positions[place]);
        assert forall|i: int, j: int| 0 <= i < j < rest.len() implies #[trigger] rest[i]
            < #[trigger] rest[j] by {
            assert(rest[i] == positions[i + 1] && rest[j] == positions[j + 1]);
        }
        assert(rest[place - 1] == positions[place]);
        places_of_the_shown(rest, place - 1);
    }
}

/// Half a page is ten messages among those that are shown: down to the last one at most, and up to
/// the first one at most.
pub proof fn half_pages_are_ten_messages(before: Room, place: int)
    requires
        before.messages@.len() <= usize::MAX,
        0 <= place < before.shown_positions().len(),
        before.selected_message == before.shown_positions()[place],
    ensures
        ({
            let shown = before.shown_positions();
            let down = before.half_page(true);
            let up = before.half_page(false);
            &&& place + 10 < shown.len() ==> down.selected_message == shown[place + 10]
            &&& place + 10 >= shown.len() ==> down.selected_message == shown.last()
            &&& place >= 10 ==> up.selected_message == shown[place - 10]
            &&& place < 10 ==> up.selected_message == shown[0]
            &&& down.messages == before.messages
            &&& up.messages == before.messages
        }),
{
    let shown = before.shown_positions();
    filters::visible_positions_are_sound(
        before.messages@,
        before.member_filter,
        before.search_query,
    );
    places_of_the_shown(shown, place);
    assert(shown.contains(before.selected_message));
}

/// A search is typed letter by letter; Enter looks for what was typed and Escape gives it up. Every
/// change of the words is shown, and an error says that nothing matches them.
pub proof fn searches_are_typed(
    before: Room,
    key: KeyEvent,
    after: Room,
    line: Option<StatusLine>,
    step: SearchStep,
    query: String,
)
    requires
        before.search_key_post(key, after, line, step),
        before.search_query == Some(query),
    ensures
        step == SearchStep::Find <==> key.code == KeyCode::Enter && query@.len() > 0,
        key.code == KeyCode::Esc ==> after.search_query is None && after.input_mode
            == InputMode::Normal,
        key.code == KeyCode::Enter && query@.len() > 0 ==> after.search_query
            == before.search_query && after.input_mode == InputMode::Normal,
        key.code == KeyCode::Backspace && query@.len() > 0 ==> after.search_query is Some
            && after.search_query->Some_0@ == query@.drop_last() && line is Some,
        key.code is Char && key.is_plain_text() ==> after.search_query is Some
            && after.search_query->Some_0@ == query@.push(key.code->Char_0) && line is Some,
        line is Some && key.code is Char ==> (line->Some_0.is_error ==> !after.any_shown()),
        after.messages == before.messages,
        after.selected_message == before.selected_message,
{
}

/// Beginning a search keeps the words that were looked for, and begins with none otherwise.
pub proof fn searches_begin_with_the_last_words(before: Room, after: Room, line: Option<StatusLine>)
    requires
        before.begin_search_post(after, line),
    ensures
        after.input_mode == InputMode::Search,
        after.search_query is Some,
        before.search_query is Some ==> after.search_query == before.search_query,
        before.search_query is None ==> after.search_query->Some_0@.len() == 0,
        after.messages == before.messages,
        after.member_filter == before.member_filter,
{
}

/// Escape takes the search back first, and the filter by member next.
pub proof fn escape_takes_one_thing_back(before: Room, after: Room, line: Option<StatusLine>)
    requires
        before.escape_post(after, line),
    ensures
        after.search_query is None,
        before.search_query is Some ==> after.member_filter == before.member_filter,
        before.search_query is None ==> after.member_filter is None,
        after.messages == before.messages,
        after.focus == before.focus,
        line is None <==> before.search_query is None && before.member_filter is None,
{
}

/// The team under the cursor becomes the one that is shown; nothing else of the room changes by it.
pub proof fn the_team_under_the_cursor_is_shown(before: Room, after: Room)
    requires
        before.activated(after),
    ensures
        before.selected_team < before.teams@.len() ==> after.active_team is Some
            && after.active_team->Some_0@ == before.teams@[before.selected_team as int].name@,
        before.selected_team >= before.teams@.len() ==> after.active_team is None,
        after.teams == before.teams,
        after.messages == before.messages,
        after.selected_team == before.selected_team,
{
}

/// Each screen is opened by what asks for it, and the help comes back to the main screen; only the
/// request to end the program ends it.
pub proof fn requests_open_their_screens(
    before: App,
    request: MainRequest,
    clock: Clock,
    after: App,
    action: AppAction,
)
    requires
        before.main_request_post(request, clock, after, action),
    ensures
        action is Quit <==> request is Quit,
        request is Help ==> after.display.screen == Screen::Help && after.display.help_return_screen
            == Screen::Main,
        request is OpenAudit ==> after.display.screen == Screen::Audit,
        request is OpenAgents ==> after.display.screen == Screen::Agents,
        request is OpenHealth ==> after.display.screen == Screen::Health && (action is RefreshHealth
            <==> before.health.snapshot is None && !before.health.loading),
        request is NotifyPopup ==> after.notices.popup == Some(0usize),
        request matches MainRequest::Yank(body) ==> action == AppAction::Yank(body),
        request is Nothing ==> after == before && action is Nothing,
{
}

/// What the agents screen asks for is done as asked: an operation is run as it is, an agent is shut
/// down by the one and under the name that were chosen, and only after a question.
pub proof fn agent_requests_are_done_as_asked(
    before: App,
    request: AgentsRequest,
    clock: Clock,
    after: App,
    action: AppAction,
)
    requires
        before.agents_request_post(request, clock, after, action),
    ensures
        request matches AgentsRequest::Run(operation) ==> action == AppAction::ManageAgent(operation)
            && after == before,
        request is LeaveScreen ==> after.display.screen == Screen::Main && action is Nothing,
        request is Help ==> after.display.screen == Screen::Help && after.display.help_return_screen
            == Screen::Agents,
        request matches AgentsRequest::Despawn { team, from, name } ==> action is Nothing && (
        after.bulk.modal matches Some(BulkModal::Preview { kind, targets, confirm, .. }) && kind
            == BulkKind::Despawn && targets@.len() == 1 && confirm@.len() == 0 && (targets@[0]
            matches BulkTarget::Despawn(shut) && shut.team == team && shut.from == from && shut.name
            == name)),
        !(request is Run) ==> !(action is ManageAgent),
{
}

/// A bulk operation begins with its first target, and without force.
pub proof fn bulk_operations_begin_without_force(
    before: App,
    choice: BulkChoice,
    after: App,
    action: AppAction,
)
    requires
        before.bulk_choice_post(choice, after, action),
    ensures
        choice matches BulkChoice::Begin { kind, targets } ==> (before.background.in_flight is None
            ==> action == (AppAction::RunBulk { target: targets@[0], force_despawn: false })),
        choice matches BulkChoice::Export(format) ==> action == AppAction::ExportBulk(format)
            && after == before,
        before.background.in_flight is Some ==> !(action is RunBulk),
        choice is Nothing ==> after == before && action is Nothing,
{
}

/// While a bulk operation runs, Escape and `q` ask for its end; nothing else does.
pub proof fn running_operations_can_be_cancelled(
    before: BulkScreen,
    key: KeyEvent,
    after: BulkScreen,
    line: Option<StatusLine>,
    step: BulkStep,
)
    requires
        before.operation_post(key, after, line, step),
        before.operation is Some,
        before.operation->Some_0.state is Running,
        before.cancel != BulkCancel::Absent,
    ensures
        key.code == KeyCode::Esc || key.code == KeyCode::Char('q') ==> after.cancel
            == BulkCancel::Requested,
        key.code != KeyCode::Esc && key.code != KeyCode::Char('q') ==> after.cancel == before.cancel,
        after.operation is Some,
        after.filter == before.filter,
        after.modal == before.modal,
{
}

/// What is told of an identity is its name, team, type and project, who holds its lock, when it was
/// last seen, and how many messages it sent and received, each under its own word.
pub proof fn identities_are_told_as_they_are(identity: AgentIdentitySummary, owner: String, seen: String)
    requires
        identity.last_seen_at == Some(seen),
    ensures
        crate::app::agents_screen::identity_text(identity, LockStatus::Owned(owner)) == "Agent: "@
            + identity.name@ + "\nTeam: "@ + identity.team@ + "\nCli-type: "@ + identity.agent_type@
            + "\nProject: "@ + identity.project@ + "\nActas lock: "@ + owner@ + "\nLast seen: "@
            + seen@ + "\nSent (30d): "@ + strings::decimal(identity.sent_30d as nat)
            + "\nReceived (30d): "@ + strings::decimal(identity.received_30d as nat),
        crate::app::agents_screen::lock_text(LockStatus::Unlocked) == "unlocked"@,
        crate::app::agents_screen::lock_text(LockStatus::ParseError) == "lock parse error"@,
{
}

/// The information that was read is of the identity under the cursor.
pub proof fn information_is_of_the_cursor(before: AgentsScreen, lock: LockStatus, after: AgentsScreen)
    requires
        before.identity_info_post(lock, after),
        before.focus == AgentFocus::Identities,
        before.team_index < before.teams@.len(),
        before.identity_index < before.teams@[before.team_index as int].identities@.len(),
    ensures
        after.identity_info is Some,
        after.identity_info->Some_0@ == crate::app::agents_screen::identity_text(
            before.teams@[before.team_index as int].identities@[before.identity_index as int],
            lock,
        ),
{
}

/// With a new window of days the matrix of the same team stays in view, if it is still there, and the
/// length of the window is told.
pub proof fn the_same_matrix_stays_in_view(
    before: AuditScreen,
    pairs: Vec<PairMatrix>,
    team: String,
    after: AuditScreen,
    line: Option<StatusLine>,
    k: int,
)
    requires
        before.pairs_post(pairs, Some(team), after, line),
        0 <= k < pairs@.len(),
        pairs@[k].team@ == team@,
    ensures
        after.pair_matrices == pairs,
        pairs@[after.team_index as int].team@ == team@,
        line matches Some(line) && !line.is_error && line.text@ == "pair matrix window: "@
            + strings::decimal(before.pair_window_days as nat) + "d"@,
        after.pair_window_days == before.pair_window_days,
{
}

/// The keys of the filter screen: each of the three requests has its own key, and the periods theirs.
pub proof fn filter_keys_ask_for_their_things(period: FilterPeriod, key: KeyEvent)
    ensures
        filter_screen::common_request(key) == FilterRequest::MarkRead <==> key.code
            == KeyCode::Char('M'),
        filter_screen::common_request(key) == FilterRequest::Export <==> key.code == KeyCode::Char(
            'E',
        ),
        filter_screen::common_request(key) == FilterRequest::Help <==> key.code == KeyCode::Char(
            '?',
        ),
        key.code == KeyCode::Char('7') ==> filter_screen::chosen_period(period, key) == Some(
            FilterPeriod::SevenDays,
        ),
        key.code == KeyCode::Char('3') ==> filter_screen::chosen_period(period, key) == Some(
            FilterPeriod::ThirtyDays,
        ),
        key.code == KeyCode::Char('a') ==> filter_screen::chosen_period(period, key) == Some(
            FilterPeriod::All,
        ),
        key.code == KeyCode::Right && period == FilterPeriod::SevenDays
            ==> filter_screen::chosen_period(period, key) == Some(FilterPeriod::ThirtyDays),
        key.code == KeyCode::Left && period == FilterPeriod::ThirtyDays
            ==> filter_screen::chosen_period(period, key) == Some(FilterPeriod::SevenDays),
{
}

/// Among the results the cursor goes up and down one by one, and to both ends.
pub proof fn results_are_gone_through(
    before: BulkFilterState,
    key: KeyEvent,
    after: BulkFilterState,
    request: FilterRequest,
)
    requires
        filter_screen::results_key_post(before, key, after, request),
        before.selected < before.results@.len() <= usize::MAX,
    ensures
        (key.code == KeyCode::Down || key.code == KeyCode::Char('j')) && before.selected + 1
            < before.results@.len() ==> after.selected == before.selected + 1,
        (key.code == KeyCode::Down || key.code == KeyCode::Char('j')) && before.selected + 1
            == before.results@.len() ==> after.selected == before.selected,
        (key.code == KeyCode::Up || key.code == KeyCode::Char('k')) && before.selected > 0
            ==> after.selected == before.selected - 1,
        key.code == KeyCode::Char('g') ==> after.selected == 0,
        key.code == KeyCode::Char('G') ==> after.selected == before.results@.len() - 1,
        request == FilterRequest::Quit <==> key.code == KeyCode::Char('q'),
        after.results == before.results,
        after.all_messages == before.all_messages,
{
}

/// On the agents screen the cursor goes through what has the focus, one by one, and stops at both
/// ends; another team begins at its first identity.
pub proof fn agents_are_gone_through(before: AgentsScreen, forward: bool)
    requires
        before.team_index < before.teams@.len() <= usize::MAX,
        before.identity_index < before.teams@[before.team_index as int].identities@.len()
            <= usize::MAX,
    ensures
        ({
            let after = before.moved(forward);
            let count = before.teams@[before.team_index as int].identities@.len();
            &&& before.focus == AgentFocus::Teams ==> after.identity_index == 0 && (forward
                && before.team_index + 1 < before.teams@.len() ==> after.team_index
                == before.team_index + 1) && (!forward && before.team_index > 0 ==> after.team_index
                == before.team_index - 1)
            &&& before.focus == AgentFocus::Identities ==> after.team_index == before.team_index && (
            forward && before.identity_index + 1 < count ==> after.identity_index
                == before.identity_index + 1) && (forward && before.identity_index + 1 == count
                ==> after.identity_index == before.identity_index) && (!forward
                && before.identity_index > 0 ==> after.identity_index == before.identity_index - 1)
            &&& after.teams == before.teams
            &&& after.focus == before.focus
        }),
{
}

/// The health screen is left with Escape and `H`, asked again with `R`, and shows a week or a month.
pub proof fn health_keys_ask_for_their_things(before: HealthScreen, key: KeyEvent)
    ensures
        HealthScreen::request_of(key) == HealthRequest::Quit <==> key.code == KeyCode::Char('q'),
        HealthScreen::request_of(key) == HealthRequest::LeaveScreen <==> key.code == KeyCode::Esc
            || key.code == KeyCode::Char('H'),
        HealthScreen::request_of(key) == HealthRequest::Refresh <==> key.code == KeyCode::Char('R'),
        HealthScreen::request_of(key) == HealthRequest::Help <==> key.code == KeyCode::Char('?'),
        key.code == KeyCode::Char('t') && before.window_days == 7 ==> before.after_key(
            key,
        ).window_days == 30,
        key.code == KeyCode::Char('t') && before.window_days == 30 ==> before.after_key(
            key,
        ).window_days == 7,
        key.code != KeyCode::Char('t') ==> before.after_key(key).window_days == before.window_days,
        before.after_key(key).snapshot == before.snapshot,
{
}

/// Unfolding a message unfolds that one alone, and folding it folds it again; a short one has nothing
/// to fold.
pub proof fn folding_is_of_one_message(
    before: Room,
    after: Room,
    line: Option<StatusLine>,
    team: Seq<char>,
    id: i64,
)
    requires
        before.fold_post(after, line),
        before.current_message() is Some,
    ensures
        ({
            let message = before.current_message()->Some_0;
            let long = message.body@.len() > 500;
            &&& !long ==> after == before
            &&& long && team == message.team@ && id == message.id ==> (
            crate::app::room::is_expanded(after.expanded_messages@, team, id)
                <==> !crate::app::room::is_expanded(before.expanded_messages@, team, id))
            &&& !(team == message.team@ && id == message.id) ==> (crate::app::room::is_expanded(
                after.expanded_messages@,
                team,
                id,
            ) <==> crate::app::room::is_expanded(before.expanded_messages@, team, id))
            &&& after.messages == before.messages
        }),
{
}

/// A search that stands on no match goes on at the first match, or back at the last one.
pub proof fn searches_begin_at_the_ends(positions: Seq<usize>, selected: usize)
    requires
        positions.len() > 0,
        !positions.contains(selected),
    ensures
        crate::app::room_search::cycled_place(positions, selected, true) == 0,
        crate::app::room_search::cycled_place(positions, selected, false) == positions.len() - 1,
{
}

/// The place of a match is told from one on, with the number of matches and the words.
pub proof fn matches_are_told_by_their_place(room: Room, line: Option<StatusLine>, query: String, place: int)
    requires
        room.match_line(line),
        room.search_query == Some(query),
        room.messages@.len() <= usize::MAX,
        0 <= place < room.shown_positions().len(),
        room.selected_message == room.shown_positions()[place],
    ensures
        line matches Some(line) && !line.is_error && line.text@ == "match "@ + strings::decimal(
            (place + 1) as nat,
        ) + "/"@ + strings::decimal(room.shown_positions().len()) + ": "@ + query@,
{
    filters::visible_positions_are_sound(room.messages@, room.member_filter, room.search_query);
    places_of_the_shown(room.shown_positions(), place);
    assert(room.shown_positions().contains(room.selected_message));
}

/// Folding all folds every long message of the team that is shown if all are unfolded, and unfolds
/// them all if any is folded; the messages of other teams stay as they are.
pub proof fn folding_all_is_of_the_team(
    before: Room,
    after: Room,
    line: Option<StatusLine>,
    team: String,
    k: int,
    other: Seq<char>,
    id: i64,
)
    requires
        before.fold_all_post(after, line),
        before.active_team == Some(team),
        0 <= k < before.messages@.len(),
        before.messages@[k].body@.len() > 500,
        other != team@,
    ensures
        crate::app::room::is_expanded(after.expanded_messages@, other, id)
            == crate::app::room::is_expanded(before.expanded_messages@, other, id),
        !crate::app::room::is_expanded(
            before.expanded_messages@,
            team@,
            before.messages@[k].id,
        ) ==> crate::app::room::is_expanded(after.expanded_messages@, team@, before.messages@[k].id),
        (forall|i: int|
            0 <= i < before.messages@.len() && (#[trigger] before.messages@[i]).body@.len() > 500
                ==> crate::app::room::is_expanded(
                before.expanded_messages@,
                team@,
                before.messages@[i].id,
            )) ==> !crate::app::room::is_expanded(
            after.expanded_messages@,
            team@,
            before.messages@[k].id,
        ),
        after.messages == before.messages,
{
    let ids = crate::app::room_actions::long_ids(before.messages@);
    long_messages_are_listed(before.messages@);
    assert(ids.contains(before.messages@[k].id));
    let place = choose|i: int| 0 <= i < ids.len() && ids[i] == before.messages@[k].id;
    if !crate::app::room::is_expanded(before.expanded_messages@, team@, before.messages@[k].id) {
        assert(!crate::app::room::is_expanded(before.expanded_messages@, team@, ids[place]));
        assert(before.any_folded(team@));
    }
    if forall|i: int|
        0 <= i < before.messages@.len() && (#[trigger] before.messages@[i]).body@.len() > 500
            ==> crate::app::room::is_expanded(
            before.expanded_messages@,
            team@,
            before.messages@[i].id,
        ) {
        assert(!before.any_folded(team@)) by {
            if before.any_folded(team@) {
                let j = choose|j: int|
                    0 <= j < ids.len() && !crate::app::room::is_expanded(
                        before.expanded_messages@,
                        team@,
                        #[trigger] ids[j],
                    );
                let i = listed_messages_are_long(before.messages@, j);
                assert(before.messages@[i].body@.len() > 500);
            }
        }
    }
}

proof fn long_messages_are_listed(messages: Seq<crate::db::Message>)
    ensures
        forall|i: int|
            0 <= i < messages.len() && (#[trigger] messages[i]).body@.len() > 500
                ==> crate::app::room_actions::long_ids(messages).contains(messages[i].id),
    decreases messages.len(),
{
    if messages.len() > 0 {
        let shorter = messages.drop_last();
        let before = crate::app::room_actions::long_ids(shorter);
        let ids = crate::app::room_actions::long_ids(messages);
        long_messages_are_listed(shorter);
        assert(messages[messages.len() - 1] == messages.last());
        assert forall|i: int|
            0 <= i < messages.len() && (#[trigger] messages[i]).body@.len()
                > 500 implies ids.contains(messages[i].id) by {
            if i < shorter.len() {
                assert(shorter[i] == messages[i]);
                let j = choose|j: int| 0 <= j < before.len() && before[j] == messages[i].id;
                assert(ids[j] == messages[i].id);
            } else {
                assert(ids[ids.len() - 1] == messages[i].id);
            }
        }
    }
}

proof fn listed_messages_are_long(messages: Seq<crate::db::Message>, j: int) -> (i: int)
    requires
        0 <= j < crate::app::room_actions::long_ids(messages).len(),
    ensures
        0 <= i < messages.len(),
        messages[i].id == crate::app::room_actions::long_ids(messages)[j],
        messages[i].body@.len() > 500,
    decreases messages.len(),
{
    let shorter = messages.drop_last();
    let before = crate::app::room_actions::long_ids(shorter);
    if j < before.len() {
        let i = listed_messages_are_long(shorter, j);
        assert(shorter[i] == messages[i]);
        i
    } else {
        messages.len() - 1
    }
}

/// Each key on a message does its own thing to the room: `n` and `N` go through the matches, forwards
/// and backwards, and the others unfold, jump, pick a member out, or begin a search.
pub proof fn message_keys_do_their_things(
    before: Room,
    key: KeyEvent,
    after: Room,
    line: Option<StatusLine>,
    request: MainRequest,
)
    requires
        before.key_post(key, after, line, request),
        before.input_mode == InputMode::Normal,
        !key.modifiers.control,
    ensures
        key.code == KeyCode::Char('n') && before.focus != Focus::Members ==> before.cycle_match_post(
            true,
            after,
            line,
        ),
        key.code == KeyCode::Char('N') ==> before.cycle_match_post(false, after, line),
        key.code == KeyCode::Char('u') ==> before.next_unread_post(after, line),
        key.code == KeyCode::Char('x') || key.code == KeyCode::Char('X') || (key.code
            == KeyCode::Enter && before.focus == Focus::Room) ==> before.fold_post(after, line),
        key.code == KeyCode::Char('f') ==> before.fold_all_post(after, line),
        key.code == KeyCode::Char('s') ==> before.jump_post(after, line),
        key.code == KeyCode::Char('F') ==> before.member_filter_post(after, line),
        key.code == KeyCode::Char('/') ==> before.begin_search_post(after, line),
        key.code == KeyCode::Esc ==> before.escape_post(after, line),
        key.code == KeyCode::Tab && before.focus == Focus::Teams ==> after.focus == Focus::Members,
        key.code == KeyCode::Tab && before.focus == Focus::Members ==> after.focus == Focus::Room,
        key.code == KeyCode::Tab && before.focus == Focus::Room ==> after.focus == Focus::Teams,
        key.code == KeyCode::BackTab && before.focus == Focus::Teams ==> after.focus == Focus::Room,
{
}

/// Words that are looked for are told as found while some message holds them, and as not found
/// otherwise.
pub proof fn words_without_a_message_are_told(room: Room, line: Option<StatusLine>, query: String)
    requires
        room.search_line(line),
        room.search_query == Some(query),
        query@.len() > 0,
    ensures
        line is Some,
        line->Some_0.is_error <==> filters::next_visible(
            room.messages@,
            room.member_filter,
            room.search_query,
            -1,
        ) is None,
        line->Some_0.is_error ==> line->Some_0.text@ == "no match: "@ + query@,
        !line->Some_0.is_error ==> line->Some_0.text@ == "search: "@ + query@ + "_"@,
{
}

/// What is told of a message that stayed unread is its number, team, sender, recipient, time and
/// body, each under its own word; of an identity without traffic its team and its name.
pub proof fn audit_details_are_told_as_they_are(stale: StaleUnread, zombie: ZombieIdentity)
    ensures
        crate::app::audit_screen::stale_text(stale) == "Stale unread #"@ + strings::signed_decimal(
            stale.id as int,
        ) + "\n\nteam: "@ + stale.team@ + "\nfrom: "@ + stale.from_agent@ + "\nto: "@
            + stale.to_agent@ + "\ncreated: "@ + stale.created_at@ + "\n\n"@ + stale.body@
            + "\n\nM delegates read marking to inbox.sh. B includes its recipient in the reset preview when registered."@,
        crate::app::audit_screen::zombie_text(zombie) == "Zombie identity\n\nteam: "@ + zombie.team@
            + "\nagent: "@ + zombie.agent@ + "\nreason: no traffic in "@ + strings::decimal(30)
            + " days\n\nD shows its reset.sh command. B previews and batch-confirms every stale/zombie reset before execution."@,
{
}

/// The word that confirms is typed letter by letter, and nothing else of the dialog changes by it;
/// the list of targets is scrolled one by one.
pub proof fn confirmations_are_typed(
    kind: BulkKind,
    targets: Vec<BulkTarget>,
    confirm: String,
    scroll: usize,
    key: KeyEvent,
    step: BulkDialogStep,
)
    requires
        bulk_dialog::preview_post(kind, targets, confirm, scroll, key, step),
        key.code != KeyCode::Esc,
        !(key.code == KeyCode::Enter && confirm@ == "YES"@),
    ensures
        step.choice is Nothing,
        step.modal matches Some(BulkModal::Preview { kind: k, targets: t, .. }) && k == kind && t
            == targets,
        key.code == KeyCode::Backspace && confirm@.len() > 0 ==> step.modal->Some_0->Preview_confirm@
            == confirm@.drop_last(),
        key.code is Char && key.code != KeyCode::Char('j') && key.code != KeyCode::Char('k')
            && key.is_plain_text() ==> step.modal->Some_0->Preview_confirm@ == confirm@.push(
            key.code->Char_0,
        ),
        key.code == KeyCode::Down && scroll + 1 < targets@.len() ==> step.modal->Some_0->Preview_scroll
            == scroll + 1,
        key.code == KeyCode::Up && scroll > 0 ==> step.modal->Some_0->Preview_scroll == scroll - 1,
        key.code == KeyCode::Enter ==> step.status is Some && step.status->Some_0.is_error
            && step.modal->Some_0->Preview_confirm == confirm,
{
    assert(targets@.len() == targets.len());
}

/// The first letter that is typed over a new name takes its place, and later ones go behind it;
/// Backspace edits a name too, and the arrows do not.
pub proof fn new_names_are_typed(key: KeyEvent, name: Seq<char>, letter: char)
    requires
        key.code == KeyCode::Char(letter),
        !key.modifiers.control,
        !key.modifiers.alt,
    ensures
        bulk_dialog::edits_name(key),
        bulk_dialog::renamed(name, true, key) == name.push(letter),
        bulk_dialog::renamed(name, false, key) == seq![letter],
        bulk_dialog::edits_name(KeyEvent { code: KeyCode::Backspace, ..key }),
        !bulk_dialog::edits_name(KeyEvent { code: KeyCode::Left, ..key }),
{
}

/// A member is renamed under the team that is shown: the dialog opens for the member's own identity
/// there.
pub proof fn members_are_renamed_in_their_team(
    before: AgentsScreen,
    identity: Option<String>,
    team: String,
    member: Seq<char>,
    after: AgentsScreen,
    line: Option<StatusLine>,
)
    requires
        before.rename_from_members_post(identity, Some(team), member, after, line),
    ensures
        after.teams == before.teams,
        after.modal != before.modal ==> (after.modal matches Some(
            AgentModal::Rename { target, input, confirming, self_rename },
        ) && target.name@ == member && input@.len() == 0 && !confirming && (self_rename <==> (
        identity matches Some(own) && own@ == member))) && before.teams@[after.team_index as int].name@
            == team@,
        line is Some ==> line->Some_0.is_error && after.modal == before.modal,
{
}

/// What the audit screen asks for is done as asked.
pub proof fn audit_requests_are_done_as_asked(
    before: App,
    request: AuditRequest,
    clock: Clock,
    after: App,
    action: AppAction,
)
    requires
        before.audit_request_post(request, clock, after, action),
    ensures
        request is Export ==> action is ExportReport && after == before,
        request is LeaveScreen ==> after.display.screen == Screen::Main && action is Nothing,
        request is Help ==> after.display.screen == Screen::Help && after.display.help_return_screen
            == Screen::Audit,
        request is Refresh ==> (action is RefreshAudit <==> !before.audit.loading)
            && after.audit.loading,
        request is MarkStale && before.background.in_flight is None && before.audit.stale() is Some
            ==> action == AppAction::Load(
            Query::UnreadCount {
                team: before.audit.stale()->Some_0.team,
                recipient: before.audit.stale()->Some_0.to_agent,
            },
        ),
        request is MarkStale && (before.background.in_flight is Some || before.audit.stale() is None)
            ==> action is Nothing,
        request matches AuditRequest::ResetCommand { team, agent } ==> action == AppAction::Load(
            Query::Registration { team, agent },
        ),
        request is Nothing ==> after == before && action is Nothing,
{
    if let Some(stale) = before.audit.stale() {
        assert(seq![Task::CountRecipient { team: stale.team, recipient: stale.to_agent }][0] is CountRecipient);
    }
    if let AuditRequest::ResetCommand { team, agent } = request {
        assert(seq![Task::ResetCommand { team, agent }][0] is ResetCommand);
    }
}

/// A draft that is kept is shown in the composer and said to be taken up; without one nothing
/// happens.
pub proof fn restored_drafts_are_shown(
    before: App,
    team: Seq<char>,
    roster: Option<Vec<String>>,
    after: App,
)
    requires
        before.draft_restored(team, roster, after),
    ensures
        crate::app::drafts::has_draft(before.writing.drafts@, team) ==> after.display.screen
            == Screen::Composer && after.writing.composer is Some && !after.status.is_error
            && after.status.text@ == "draft restored (Ctrl-K to clear)"@ && after.room == before.room,
        !crate::app::drafts::has_draft(before.writing.drafts@, team) ==> after == before,
{
}

/// What a finished target is told with is what its script wrote, to the one output or else to the
/// other; a script that wrote nothing is told with a fixed text.
pub proof fn targets_are_told_with_their_output(result: CommandResult, fallback: Seq<char>)
    ensures
        result.stdout@.len() > 0 ==> crate::bulk::run::detail_text(result, fallback)
            == result.stdout@,
        result.stdout@.len() == 0 && result.stderr@.len() > 0 ==> crate::bulk::run::detail_text(
            result,
            fallback,
        ) == result.stderr@,
        result.stdout@.len() == 0 && result.stderr@.len() == 0 ==> crate::bulk::run::detail_text(
            result,
            fallback,
        ) == fallback,
{
}

} // verus!
