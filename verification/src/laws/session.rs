//! A session: where things are, when the messages are read again, and what outlives it.

use crate::app::drafts;
use crate::app::model::{App, AppAction, Screen};
use crate::clock;
use crate::clock::{Clock, Span, Timestamp};
use crate::config;
use crate::config::{Cli, Environment, PaletteArg, Paths};
use crate::db::Message;
use crate::exec;
use crate::exec::CommandResult;
use crate::palette::PaletteMode;
use crate::poll;
use crate::poll::LivePoller;
use crate::state::PersistentState;
use crate::strings;
use crate::timefmt;
use vstd::prelude::*;

verus! {

/// A read goes on behind the newest message that was found: no message is read twice and none is
/// passed over. It makes the next read due a second later, and tells that reading works again
/// exactly if it did not before.
pub proof fn reading_goes_on_behind_the_newest(
    before: LivePoller,
    messages: Seq<Message>,
    now: u64,
    k: int,
)
    requires
        forall|i: int, j: int|
            0 <= i <= j < messages.len() ==> (#[trigger] messages[i]).id <= (
            #[trigger] messages[j]).id,
        0 <= k < messages.len(),
        now <= u64::MAX - 1_000_000_000,
    ensures
        ({
            let after = before.accepted(messages, now);
            &&& messages[k].id <= after.last_seen_id
            &&& exists|j: int|
                0 <= j < messages.len() && (#[trigger] messages[j]).id == after.last_seen_id
            &&& after.next_due == now + 1_000_000_000
            &&& after.next_retry == 1_000_000_000
            &&& !after.offline
            &&& after.recovered == before.offline
        }),
{
    assert(messages[messages.len() - 1] == messages.last());
}

/// A read that finds nothing stays where it was.
pub proof fn empty_reads_stay(before: LivePoller, now: u64)
    requires
        now <= u64::MAX - 1_000_000_000,
    ensures
        before.accepted(Seq::empty(), now).last_seen_id == before.last_seen_id,
        before.accepted(Seq::empty(), now).next_due == now + 1_000_000_000,
        before.accepted(Seq::empty(), now) == before.succeeded(now),
{
}

/// A read that fails is tried again after the delay that is due, never before now; the delay after
/// that is twice as long, up to half a minute, and the place is kept.
pub proof fn failed_reads_are_tried_again(before: LivePoller, now: u64)
    requires
        before.wf(),
    ensures
        before.failed(now).offline,
        !before.failed(now).recovered,
        before.failed(now).last_seen_id == before.last_seen_id,
        before.failed(now).next_due >= now,
        now + before.next_retry <= u64::MAX ==> before.failed(now).next_due == now
            + before.next_retry,
        before.next_retry * 2 <= 30_000_000_000 ==> before.failed(now).next_retry
            == before.next_retry * 2,
        before.next_retry * 2 > 30_000_000_000 ==> before.failed(now).next_retry
            == 30_000_000_000,
        before.failed(now).succeeded(now).recovered,
        before.failed(now).succeeded(now).next_retry == 1_000_000_000,
{
}

/// The delay after so many failures in a row, however they lie in time.
pub proof fn failures_in_a_row_wait_longer(states: Seq<LivePoller>, times: Seq<u64>, k: int)
    requires
        states.len() == times.len() + 1,
        states[0].next_retry == 1_000_000_000,
        forall|i: int|
            0 <= i < times.len() ==> states[i + 1] == (#[trigger] states[i]).failed(times[i]),
        0 <= k < states.len(),
    ensures
        states[k].next_retry == poll::backoff(k as nat),
    decreases k,
{
    if k > 0 {
        failures_in_a_row_wait_longer(states, times, k - 1);
        poll::backoff_doubles_up_to_the_limit((k - 1) as nat);
        assert(states[k - 1 + 1] == states[k - 1].failed(times[k - 1]));
    }
}

/// An age below an hour is told in whole minutes and one below a day in whole hours; an older time,
/// and one that has not come yet, is shown as it is.
pub proof fn ages_are_told_in_whole_units(age: Span, absolute: Seq<char>, n: nat)
    requires
        age.wf(),
    ensures
        0 <= age.total_nanos() && 60 * n <= age.secs < 60 * (n + 1) && n < 60
            ==> timefmt::age_text(age, absolute) == strings::decimal(n) + "m ago"@,
        0 <= age.total_nanos() && 3_600 * n <= age.secs < 3_600 * (n + 1) && 1 <= n < 24
            ==> timefmt::age_text(age, absolute) == strings::decimal(n) + "h ago"@,
        age.secs >= 86_400 || age.total_nanos() < 0 ==> timefmt::age_text(age, absolute)
            == absolute,
{
    if 60 * n <= age.secs < 60 * (n + 1) {
        assert(age.secs as int / 60 == n);
    }
    if 3_600 * n <= age.secs < 3_600 * (n + 1) {
        assert(age.secs as int / 3_600 == n);
    }
}

/// What lies in a window lies in every longer one, and what is no time lies in none.
pub proof fn longer_windows_hold_more(
    created_at: Seq<char>,
    now: Timestamp,
    window: Span,
    longer: Span,
)
    requires
        window.total_nanos() <= longer.total_nanos(),
    ensures
        timefmt::lies_within(created_at, now, window) ==> timefmt::lies_within(
            created_at,
            now,
            longer,
        ),
        timefmt::lies_within(created_at, now, window) ==> clock::parsed_time(created_at) is Some,
        clock::parsed_time(created_at) is Some && clock::span_between(
            now,
            clock::parsed_time(created_at)->Some_0,
        ).total_nanos() == window.total_nanos() ==> timefmt::lies_within(created_at, now, window),
{
}

/// A path that the command line gives is taken, whatever the environment says; each one has its own
/// option.
pub proof fn command_line_goes_first(paths: Paths, cli: Cli, environment: Environment, home: Seq<char>)
    requires
        paths.are_for(cli, environment, home),
    ensures
        cli.db matches Some(path) ==> paths.db@ == path@,
        cli.teams_dir matches Some(path) ==> paths.teams_dir@ == path@,
        cli.scripts_dir matches Some(path) ==> paths.scripts_dir@ == path@,
        cli.audit_script matches Some(path) ==> paths.audit_script@ == path@,
        cli.report_dir matches Some(path) ==> paths.report_dir@ == path@,
{
}

/// A path that the environment gives is taken where the command line gives none.
pub proof fn environment_goes_second(paths: Paths, cli: Cli, environment: Environment, home: Seq<char>)
    requires
        paths.are_for(cli, environment, home),
    ensures
        cli.db is None && environment.db is Some ==> paths.db@ == environment.db->Some_0@,
        cli.teams_dir is None && environment.teams_dir is Some ==> paths.teams_dir@
            == environment.teams_dir->Some_0@,
        cli.scripts_dir is None && environment.scripts_dir is Some ==> paths.scripts_dir@
            == environment.scripts_dir->Some_0@,
        cli.audit_script is None && environment.audit is Some ==> paths.audit_script@
            == environment.audit->Some_0@,
        cli.report_dir is None && environment.report_dir is Some ==> paths.report_dir@
            == environment.report_dir->Some_0@,
{
}

/// What nobody gives lies below the home directory.
pub proof fn the_rest_lies_at_home(paths: Paths, cli: Cli, environment: Environment, home: Seq<char>)
    requires
        paths.are_for(cli, environment, home),
        home.len() > 0,
        home.last() != '/',
    ensures
        cli.db is None && environment.db is None ==> paths.db@ == home
            + "/.agents/skills/agmsg/db/messages.db"@,
        cli.teams_dir is None && environment.teams_dir is None ==> paths.teams_dir@ == home
            + "/.agents/skills/agmsg/teams"@,
        cli.scripts_dir is None && environment.scripts_dir is None ==> paths.scripts_dir@ == home
            + "/.agents/skills/agmsg/scripts"@,
        cli.audit_script is None && environment.audit is None ==> paths.audit_script@ == home
            + "/bin/agmsg-audit"@,
        cli.report_dir is None && environment.report_dir is None ==> paths.report_dir@ == home
            + "/tmp"@,
        paths.state_file@ == home + "/.config/agmsg-tui/state.json"@,
{
    reveal_strlit(".agents/skills/agmsg");
    reveal_strlit("db/messages.db");
    reveal_strlit("teams");
    reveal_strlit("scripts");
    reveal_strlit("bin/agmsg-audit");
    reveal_strlit("tmp");
    reveal_strlit(".config/agmsg-tui/state.json");
    reveal_strlit("/.agents/skills/agmsg/db/messages.db");
    reveal_strlit("/.agents/skills/agmsg/teams");
    reveal_strlit("/.agents/skills/agmsg/scripts");
    reveal_strlit("/bin/agmsg-audit");
    reveal_strlit("/tmp");
    reveal_strlit("/.config/agmsg-tui/state.json");
    let skill = config::skill_dir(home);
    assert(skill.last() == 'g');
    assert(exec::path_in(skill, "db/messages.db"@) =~= home
        + "/.agents/skills/agmsg/db/messages.db"@);
    assert(exec::path_in(skill, "teams"@) =~= home + "/.agents/skills/agmsg/teams"@);
    assert(exec::path_in(skill, "scripts"@) =~= home + "/.agents/skills/agmsg/scripts"@);
    assert(exec::path_in(home, "bin/agmsg-audit"@) =~= home + "/bin/agmsg-audit"@);
    assert(exec::path_in(home, "tmp"@) =~= home + "/tmp"@);
    assert(exec::path_in(home, ".config/agmsg-tui/state.json"@) =~= home
        + "/.config/agmsg-tui/state.json"@);
}

/// The safe palette is taken exactly if the command line asks for it, or says nothing of the palette
/// while the environment names it.
pub proof fn safe_palette_is_asked_for(cli: Cli, environment: Environment)
    ensures
        config::palette_for(cli, environment) == PaletteMode::Safe <==> cli.palette == Some(
            PaletteArg::Safe,
        ) || (cli.palette is None && environment.palette is Some && environment.palette->Some_0@
            == "safe"@),
{
}

/// A message that was sent is gone from the composer and from the drafts of its team; the drafts of
/// the other teams stay, and the main screen is shown.
pub proof fn sent_messages_are_no_drafts(
    before: App,
    result: CommandResult,
    clock: Clock,
    after: App,
    action: AppAction,
    team: Seq<char>,
)
    requires
        before.send_completed(result, clock, after, action),
        result.success,
    ensures
        after.writing.composer is None,
        after.display.screen == Screen::Main,
        after.background.state_dirty_since == Some(clock.instant),
        before.room.active_team matches Some(active) && active@ == team ==> !drafts::has_draft(
            after.writing.drafts@,
            team,
        ),
        !(before.room.active_team matches Some(active) && active@ == team) ==> (drafts::has_draft(
            after.writing.drafts@,
            team,
        ) <==> drafts::has_draft(before.writing.drafts@, team)),
        action is Load,
{
    drafts::draft_map_domain(before.writing.drafts@, team);
    drafts::draft_map_domain(after.writing.drafts@, team);
}

/// What was saved is taken up as it is; what is of another version counts as nothing, and without
/// anything every switch is on and there are no drafts.
pub proof fn saved_states_are_taken_up(
    state: PersistentState,
    read: Option<PersistentState>,
    sidebar_pct: u16,
)
    requires
        state.taken_up(read, sidebar_pct),
    ensures
        read is Some && read->Some_0.schema_version == 1 ==> state == read->Some_0,
        read is None || read->Some_0.schema_version != 1 ==> {
            &&& state.schema_version == 1
            &&& state.sidebar_pct == sidebar_pct
            &&& state.last_team is None
            &&& state.drafts@.len() == 0
            &&& state.notify_settings.bell
            &&& state.notify_settings.desktop
            &&& state.notify_settings.title
            &&& state.notify_settings.burst_alert
        },
{
}

/// What was saved is not saved again; what could not be saved is tried again three seconds later.
pub proof fn failed_saves_are_tried_again(before: App, saved: bool, now: u64, later: u64)
    requires
        now <= later,
    ensures
        saved ==> !before.after_saving(saved, now).background.save_due(later),
        !saved ==> (before.after_saving(saved, now).background.save_due(later) <==> later - now
            >= 3_000_000_000),
        before.after_saving(saved, now).saved_view() == before.saved_view(),
{
}

} // verus!
