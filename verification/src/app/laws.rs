//! What holds of the whole state, whichever screen is shown.

use crate::app::model::{App, AppAction, Screen};
use crate::clock::Clock;
use crate::config::Paths;
use crate::db::TeamSummary;
use crate::exec::CommandResult;
use crate::input::{KeyCode, KeyEvent, KeyEventKind};
use crate::state::PersistentState;
use vstd::prelude::*;

verus! {

/// A key that is held or released does nothing.
pub proof fn only_presses_count(
    before: App,
    key: KeyEvent,
    clock: Clock,
    after: App,
    action: AppAction,
)
    requires
        before.key_post(key, clock, after, action),
        key.kind != KeyEventKind::Press,
    ensures
        after == before,
        action is Nothing,
{
}

/// A key that changes what is to be saved makes the saved state count as out of date from then on,
/// so no change is lost.
pub proof fn changes_are_noted(
    before: App,
    key: KeyEvent,
    clock: Clock,
    after: App,
    action: AppAction,
)
    requires
        before.key_post(key, clock, after, action),
        after.saved_view() != before.saved_view(),
    ensures
        after.background.state_dirty_since == Some(clock.instant),
{
}

/// Escape never ends the program from the main screen.
pub proof fn escape_never_quits_the_main_screen(
    before: App,
    key: KeyEvent,
    clock: Clock,
    after: App,
    action: AppAction,
)
    requires
        before.key_post(key, clock, after, action),
        before.display.screen == Screen::Main,
        key.code == KeyCode::Esc,
    ensures
        !(action is Quit),
{
}

/// While a script runs in the background, the composer sends nothing.
pub proof fn busy_composer_sends_nothing(
    before: App,
    key: KeyEvent,
    clock: Clock,
    after: App,
    action: AppAction,
)
    requires
        before.key_post(key, clock, after, action),
        before.display.screen == Screen::Composer,
        before.background.in_flight is Some,
    ensures
        !(action is Send),
{
}

/// A message that could not be sent is kept as it was written.
pub proof fn failed_sends_keep_the_message(
    before: App,
    result: CommandResult,
    clock: Clock,
    after: App,
    action: AppAction,
)
    requires
        before.send_completed(result, clock, after, action),
        !result.success,
    ensures
        after.writing == before.writing,
        after.display == before.display,
        after.status.is_error,
        action is Nothing,
{
}

/// A new session takes up what was saved: the drafts, the switches of the notifications, the width
/// of the sidebar as far as it is allowed, and the team if it is still there.
pub proof fn sessions_take_up_what_was_saved(
    start: App,
    paths: Paths,
    family: String,
    identity: Option<String>,
    teams: Vec<TeamSummary>,
    saved: PersistentState,
    bounds: (u16, u16),
    team: int,
)
    requires
        start.is_new(paths, family, identity, teams, saved, bounds),
    ensures
        start.writing.drafts == saved.drafts,
        start.notices.settings == saved.notify_settings,
        bounds.0 <= saved.sidebar_pct <= bounds.1 ==> start.display.sidebar_pct
            == saved.sidebar_pct,
        0 <= team < teams@.len() && saved.last_team is Some && teams@[team].name@
            == saved.last_team->Some_0@ ==> teams@[start.room.selected_team as int].name@
            == saved.last_team->Some_0@,
{
}

} // verus!
