//! Health and trends: which bridges serve a team, how it is delivered to, and what is counted.

use crate::app::health_screen::HealthRequest;
use crate::app::model::HealthScreen;
use crate::clock;
use crate::clock::Timestamp;
use crate::db::traffic;
use crate::db::traffic::{DayCount, TeamCount};
use crate::db::{DailyTraffic, Message};
use crate::health::bridges;
use crate::health::delivery;
use crate::health::delivery::DeliveryAnswer;
use crate::health::pidfiles;
use crate::health::pidfiles::{RawBridge, RunFile};
use crate::health::registrations::Registration;
use crate::health::snapshot;
use crate::health::snapshot::{HealthInputs, TeamFigures, TeamStamp};
use crate::health::{DeliveryMode, HealthSnapshot, TeamHealth};
use crate::input::{KeyCode, KeyEvent};
use crate::lines;
use crate::search;
use crate::strings;
use vstd::prelude::*;

verus! {

/// A bridge serves the team that it names, if there is a team of that name; if there is none, or it
/// names none, it serves every team with an agent that is registered in its project and of a type
/// that it can serve.
pub proof fn bridges_serve_their_team(
    family: Seq<char>,
    bridge: RawBridge,
    registrations: Seq<Registration>,
    team_names: Seq<String>,
    team: Seq<char>,
)
    ensures
        (bridge.team_hint matches Some(hint) && exists|i: int|
            0 <= i < team_names.len() && (#[trigger] team_names[i])@ == hint@) ==> (
        bridges::serves_team(family, bridge@, registrations, team_names, team) <==> (
        bridge.team_hint matches Some(hint) && hint@ == team)),
        !(bridge.team_hint matches Some(hint) && exists|i: int|
            0 <= i < team_names.len() && (#[trigger] team_names[i])@ == hint@) ==> (
        bridges::serves_team(family, bridge@, registrations, team_names, team) <==> exists|r: int|
            0 <= r < registrations.len() && (#[trigger] registrations[r]).team@ == team && (
            bridge.project_hint matches Some(project) && registrations[r].project@ == project@)
                && bridges::kind_fits(family, bridge.label@, registrations[r].agent_type@)),
{
    if let Some(hint) = bridge.team_hint {
        assert(search::lists(team_names, hint@) <==> exists|i: int|
            0 <= i < team_names.len() && (#[trigger] team_names[i])@ == hint@);
    }
    if let Some(project) = bridge.project_hint {
        assert forall|r: int| 0 <= r < registrations.len() implies (bridges::fits_project(
            family,
            #[trigger] registrations[r],
            bridge.label@,
            project@,
        ) <==> registrations[r].project@ == project@ && bridges::kind_fits(
            family,
            bridge.label@,
            registrations[r].agent_type@,
        )) by {
        }
    }
}

/// Which types a bridge can serve is told by its label: one that begins with the lead type serves
/// that type, one of Cursor, Kimi or Codex serves theirs, and any other serves all.
pub proof fn labels_tell_the_type(family: Seq<char>, label: Seq<char>, agent_type: Seq<char>)
    ensures
        (family + "-code"@).is_prefix_of(label) ==> (bridges::kind_fits(family, label, agent_type)
            <==> agent_type == family + "-code"@),
        !(family + "-code"@).is_prefix_of(label) ==> {
            &&& "cursor-bridge"@.is_prefix_of(label) ==> (bridges::kind_fits(
                family,
                label,
                agent_type,
            ) <==> agent_type == "cursor"@)
            &&& "kimi-bridge"@.is_prefix_of(label) && !"cursor-bridge"@.is_prefix_of(label) ==> (
            bridges::kind_fits(family, label, agent_type) <==> agent_type == "kimi"@)
            &&& "codex"@.is_prefix_of(label) && !"cursor-bridge"@.is_prefix_of(label)
                && !"kimi-bridge"@.is_prefix_of(label) ==> (bridges::kind_fits(
                family,
                label,
                agent_type,
            ) <==> agent_type == "codex"@)
            &&& !"cursor-bridge"@.is_prefix_of(label) && !"kimi-bridge"@.is_prefix_of(label)
                && !"codex"@.is_prefix_of(label) ==> bridges::kind_fits(family, label, agent_type)
        },
{
}

/// A team's health lists the bridges that serve the team, each with its own label and process and in
/// the order of the processes, and says of each whether its process runs.
pub proof fn bridges_are_listed_with_their_life(
    inputs: HealthInputs,
    figures: TeamFigures,
    health: TeamHealth,
    place: int,
)
    requires
        snapshot::is_health(inputs, figures, health),
    ensures
        forall|k: int|
            0 <= k < health.bridges@.len() ==> (#[trigger] health.bridges@[k]).alive
                == inputs.alive@.contains(health.bridges@[k].pid),
        forall|k: int, l: int|
            0 <= k < l < health.bridges@.len() ==> (#[trigger] health.bridges@[k]).pid <= (
            #[trigger] health.bridges@[l]).pid,
        0 <= place < health.bridges@.len() ==> exists|b: int|
            0 <= b < inputs.bridges@.len() && (#[trigger] inputs.bridges@[b]).pid
                == health.bridges@[place].pid && inputs.bridges@[b].label@
                == health.bridges@[place].label@ && bridges::serves_team(
                inputs.family@,
                inputs.bridges@[b]@,
                inputs.registrations@,
                inputs.team_names@,
                figures.name@,
            ),
        forall|b: int|
            0 <= b < inputs.bridges@.len() && bridges::serves_team(
                inputs.family@,
                (#[trigger] inputs.bridges@[b])@,
                inputs.registrations@,
                inputs.team_names@,
                figures.name@,
            ) ==> exists|k: int|
                0 <= k < health.bridges@.len() && (#[trigger] health.bridges@[k]).pid
                    == inputs.bridges@[b].pid && health.bridges@[k].label@
                    == inputs.bridges@[b].label@,
{
    let listed = bridges::team_bridges(
        inputs.family@,
        inputs.bridges@,
        inputs.registrations@,
        inputs.team_names@,
        inputs.alive@,
        figures.name@,
    );
    let statuses = health.bridges@;
    team_bridges_are_exact(inputs, inputs.bridges@, figures.name@);
    assert forall|k: int| 0 <= k < statuses.len() implies (#[trigger] statuses[k])@ == listed[k] by {
        assert(bridges::status_views(statuses)[k] == statuses[k]@);
    }
    if 0 <= place < statuses.len() {
        assert(statuses[place]@ == listed[place]);
        assert(listed.contains(listed[place]));
    }
    assert forall|b: int|
        0 <= b < inputs.bridges@.len() && bridges::serves_team(
            inputs.family@,
            (#[trigger] inputs.bridges@[b])@,
            inputs.registrations@,
            inputs.team_names@,
            figures.name@,
        ) implies exists|k: int|
        0 <= k < statuses.len() && (#[trigger] statuses[k]).pid == inputs.bridges@[b].pid
            && statuses[k].label@ == inputs.bridges@[b].label@ by {
        let shown = bridges::StatusView {
            label: inputs.bridges@[b].label@,
            pid: inputs.bridges@[b].pid,
            alive: inputs.alive@.contains(inputs.bridges@[b].pid),
        };
        assert(listed.contains(shown));
        let k = choose|k: int| 0 <= k < listed.len() && listed[k] == shown;
        assert(statuses[k]@ == listed[k]);
    }
    assert forall|k: int, l: int| 0 <= k < l < statuses.len() implies (#[trigger] statuses[k]).pid
        <= (#[trigger] statuses[l]).pid by {
        assert(statuses[k]@ == listed[k]);
        assert(statuses[l]@ == listed[l]);
    }
    assert forall|k: int| 0 <= k < statuses.len() implies (#[trigger] statuses[k]).alive
        == inputs.alive@.contains(statuses[k].pid) by {
        assert(statuses[k]@ == listed[k]);
        assert(listed.contains(listed[k]));
    }
}

proof fn one_status_more(statuses: Seq<bridges::StatusView>, status: bridges::StatusView)
    requires
        forall|k: int, l: int|
            0 <= k < l < statuses.len() ==> (#[trigger] statuses[k]).pid <= (
            #[trigger] statuses[l]).pid,
    ensures
        ({
            let more = bridges::with_status(statuses, status);
            &&& more.len() == statuses.len() + 1
            &&& forall|k: int, l: int|
                0 <= k < l < more.len() ==> (#[trigger] more[k]).pid <= (#[trigger] more[l]).pid
            &&& forall|s: bridges::StatusView| #[trigger]
                more.contains(s) <==> statuses.contains(s) || s == status
        }),
    decreases statuses.len(),
{
    let more = bridges::with_status(statuses, status);
    if statuses.len() == 0 || statuses.last().pid <= status.pid {
        assert forall|s: bridges::StatusView| #[trigger] more.contains(s) <==> statuses.contains(s)
            || s == status by {
            if statuses.contains(s) {
                let k = choose|k: int| 0 <= k < statuses.len() && statuses[k] == s;
                assert(more[k] == s);
            }
            assert(more[statuses.len() as int] == status);
        }
        assert forall|k: int, l: int| 0 <= k < l < more.len() implies (#[trigger] more[k]).pid <= (
        #[trigger] more[l]).pid by {
            if l == statuses.len() && k < statuses.len() - 1 {
                assert(statuses[k].pid <= statuses[statuses.len() - 1].pid);
            }
        }
    } else {
        let shorter = statuses.drop_last();
        let inner = bridges::with_status(shorter, status);
        one_status_more(shorter, status);
        assert forall|s: bridges::StatusView| #[trigger] more.contains(s) <==> statuses.contains(s)
            || s == status by {
            assert(more[inner.len() as int] == statuses.last());
            if inner.contains(s) {
                let k = choose|k: int| 0 <= k < inner.len() && inner[k] == s;
                assert(more[k] == s);
            }
            if more.contains(s) {
                let k = choose|k: int| 0 <= k < more.len() && more[k] == s;
                if k < inner.len() {
                    assert(inner[k] == s);
                    assert(inner.contains(s));
                    if shorter.contains(s) {
                        let m = choose|m: int| 0 <= m < shorter.len() && shorter[m] == s;
                        assert(statuses[m] == s);
                    }
                } else {
                    assert(statuses[statuses.len() - 1] == s);
                }
            }
            if statuses.contains(s) {
                let k = choose|k: int| 0 <= k < statuses.len() && statuses[k] == s;
                if k < shorter.len() {
                    assert(shorter[k] == s);
                }
            }
        }
        assert forall|k: int, l: int| 0 <= k < l < more.len() implies (#[trigger] more[k]).pid <= (
        #[trigger] more[l]).pid by {
            assert(inner[k] == more[k]);
            if l < inner.len() {
                assert(inner[l] == more[l]);
            } else {
                assert(inner.contains(inner[k]));
                if inner[k] != status {
                    let m = choose|m: int| 0 <= m < shorter.len() && shorter[m] == inner[k];
                    assert(statuses[m].pid <= statuses[statuses.len() - 1].pid);
                }
            }
        }
    }
}

proof fn team_bridges_are_exact(inputs: HealthInputs, all: Seq<RawBridge>, team: Seq<char>)
    ensures
        ({
            let listed = bridges::team_bridges(
                inputs.family@,
                all,
                inputs.registrations@,
                inputs.team_names@,
                inputs.alive@,
                team,
            );
            &&& forall|k: int, l: int|
                0 <= k < l < listed.len() ==> (#[trigger] listed[k]).pid <= (
                #[trigger] listed[l]).pid
            &&& forall|s: bridges::StatusView| #[trigger]
                listed.contains(s) ==> exists|b: int|
                    0 <= b < all.len() && (#[trigger] all[b]).pid == s.pid && all[b].label@
                        == s.label && s.alive == inputs.alive@.contains(s.pid)
                        && bridges::serves_team(
                        inputs.family@,
                        all[b]@,
                        inputs.registrations@,
                        inputs.team_names@,
                        team,
                    )
            &&& forall|b: int|
                0 <= b < all.len() && bridges::serves_team(
                    inputs.family@,
                    (#[trigger] all[b])@,
                    inputs.registrations@,
                    inputs.team_names@,
                    team,
                ) ==> listed.contains(
                    bridges::StatusView {
                        label: all[b].label@,
                        pid: all[b].pid,
                        alive: inputs.alive@.contains(all[b].pid),
                    },
                )
        }),
    decreases all.len(),
{
    if all.len() > 0 {
        let shorter = all.drop_last();
        let last = all.last();
        let before = bridges::team_bridges(
            inputs.family@,
            shorter,
            inputs.registrations@,
            inputs.team_names@,
            inputs.alive@,
            team,
        );
        let listed = bridges::team_bridges(
            inputs.family@,
            all,
            inputs.registrations@,
            inputs.team_names@,
            inputs.alive@,
            team,
        );
        team_bridges_are_exact(inputs, shorter, team);
        let status = bridges::StatusView {
            label: last.label@,
            pid: last.pid,
            alive: inputs.alive@.contains(last.pid),
        };
        one_status_more(before, status);
        assert(all[all.len() - 1] == last);
        assert forall|s: bridges::StatusView| #[trigger] listed.contains(s) implies exists|b: int|
            0 <= b < all.len() && (#[trigger] all[b]).pid == s.pid && all[b].label@ == s.label
                && s.alive == inputs.alive@.contains(s.pid) && bridges::serves_team(
                inputs.family@,
                all[b]@,
                inputs.registrations@,
                inputs.team_names@,
                team,
            ) by {
            if before.contains(s) {
                let b = choose|b: int|
                    0 <= b < shorter.len() && (#[trigger] shorter[b]).pid == s.pid
                        && shorter[b].label@ == s.label && s.alive == inputs.alive@.contains(s.pid)
                        && bridges::serves_team(
                        inputs.family@,
                        shorter[b]@,
                        inputs.registrations@,
                        inputs.team_names@,
                        team,
                    );
                assert(all[b] == shorter[b]);
            }
        }
        assert forall|b: int|
            0 <= b < all.len() && bridges::serves_team(
                inputs.family@,
                (#[trigger] all[b])@,
                inputs.registrations@,
                inputs.team_names@,
                team,
            ) implies listed.contains(
            bridges::StatusView {
                label: all[b].label@,
                pid: all[b].pid,
                alive: inputs.alive@.contains(all[b].pid),
            },
        ) by {
            if b < shorter.len() {
                assert(shorter[b] == all[b]);
            }
        }
    }
}

/// A team's health gives the team's own figures: whether its directory is missing, how many of its
/// messages are unread, whether some have been so for long, and how long ago the last one was
/// written.
pub proof fn health_is_of_the_team(
    inputs: HealthInputs,
    figures: TeamFigures,
    health: TeamHealth,
    k: int,
)
    requires
        snapshot::is_health(inputs, figures, health),
    ensures
        health.name@ == figures.name@,
        health.orphan <==> !figures.has_directory,
        health.traffic_7d == figures.traffic_7d,
        health.traffic_30d == figures.traffic_30d,
        health.agents_7d == figures.agents_7d,
        health.agents_30d == figures.agents_30d,
        health.stale_unread <==> exists|i: int|
            0 <= i < inputs.stale_teams@.len() && (#[trigger] inputs.stale_teams@[i])@
                == figures.name@,
        0 <= k < inputs.unread@.len() && inputs.unread@[k].team@ == figures.name@ && 0
            <= inputs.unread@[k].count <= usize::MAX && (forall|i: int|
            0 <= i < inputs.unread@.len() && i != k ==> (#[trigger] inputs.unread@[i]).team@
                != figures.name@) ==> health.unread == inputs.unread@[k].count,
        (forall|i: int|
            0 <= i < inputs.unread@.len() ==> (#[trigger] inputs.unread@[i]).team@
                != figures.name@) ==> health.unread == 0,
        (forall|i: int|
            0 <= i < inputs.latest@.len() ==> (#[trigger] inputs.latest@[i]).team@
                != figures.name@) ==> health.last_msg_age is None,
        health.last_msg_age matches Some(age) ==> age.total_nanos() >= 0,
        0 <= k < inputs.latest@.len() && inputs.latest@[k].team@ == figures.name@ && (forall|
            i: int,
        |
            0 <= i < inputs.latest@.len() && i != k ==> (#[trigger] inputs.latest@[i]).team@
                != figures.name@) ==> match clock::parsed_time(inputs.latest@[k].created_at@) {
            Some(then) => {
                let span = clock::span_between(inputs.now, then);
                health.last_msg_age == if span.total_nanos() >= 0 {
                    Some(span)
                } else {
                    None
                }
            },
            None => health.last_msg_age is None,
        },
{
    counted_for_the_team(inputs.unread@, figures.name@, k);
    stamped_for_the_team(inputs.latest@, figures.name@, k);
    assert(search::lists(inputs.stale_teams@, figures.name@) <==> exists|i: int|
        0 <= i < inputs.stale_teams@.len() && (#[trigger] inputs.stale_teams@[i])@
            == figures.name@);
}

proof fn counted_for_the_team(counts: Seq<TeamCount>, team: Seq<char>, k: int)
    ensures
        0 <= k < counts.len() && counts[k].team@ == team && (forall|i: int|
            0 <= i < counts.len() && i != k ==> (#[trigger] counts[i]).team@ != team)
            ==> traffic::team_count(counts, team) == traffic::counted_rows(counts[k].count),
        (forall|i: int| 0 <= i < counts.len() ==> (#[trigger] counts[i]).team@ != team)
            ==> traffic::team_count(counts, team) == 0,
    decreases counts.len(),
{
    if counts.len() > 0 {
        let shorter = counts.drop_last();
        counted_for_the_team(shorter, team, k);
        assert(counts[counts.len() - 1] == counts.last());
        assert forall|i: int| 0 <= i < shorter.len() implies #[trigger] shorter[i] == counts[i] by {
        }
    }
}

proof fn stamped_for_the_team(stamps: Seq<TeamStamp>, team: Seq<char>, k: int)
    ensures
        0 <= k < stamps.len() && stamps[k].team@ == team && (forall|i: int|
            0 <= i < stamps.len() && i != k ==> (#[trigger] stamps[i]).team@ != team)
            ==> snapshot::stamp_of(stamps, team) == Some(stamps[k].created_at@),
        (forall|i: int| 0 <= i < stamps.len() ==> (#[trigger] stamps[i]).team@ != team)
            ==> snapshot::stamp_of(stamps, team) is None,
    decreases stamps.len(),
{
    if stamps.len() > 0 {
        let shorter = stamps.drop_last();
        stamped_for_the_team(shorter, team, k);
        assert(stamps[stamps.len() - 1] == stamps.last());
        assert forall|i: int| 0 <= i < shorter.len() implies #[trigger] shorter[i] == stamps[i] by {
        }
    }
}

/// A team is delivered to as the answers for its agents say: in one mode if every answer that is known
/// gives that mode, in no known mode if none is known, and mixed if two known answers differ.
pub proof fn delivery_is_what_the_answers_say(
    inputs: HealthInputs,
    figures: TeamFigures,
    health: TeamHealth,
    a: int,
    b: int,
)
    requires
        snapshot::is_health(inputs, figures, health),
        0 <= a < inputs.answers@.len(),
        0 <= b < inputs.answers@.len(),
    ensures
        ({
            let about = |i: int|
                exists|r: int|
                    0 <= r < inputs.registrations@.len() && (
                    #[trigger] inputs.registrations@[r]).team@ == figures.name@
                        && inputs.registrations@[r].agent_type@ == inputs.answers@[i].agent_type@
                        && inputs.registrations@[r].project@ == inputs.answers@[i].project@;
            &&& (forall|i: int|
                0 <= i < inputs.answers@.len() && #[trigger] about(i) ==> inputs.answers@[i].mode
                    == DeliveryMode::Unknown) ==> health.delivery == DeliveryMode::Unknown
            &&& about(a) && inputs.answers@[a].mode != DeliveryMode::Unknown
                && inputs.answers@[a].mode != DeliveryMode::Mixed && (forall|i: int|
                0 <= i < inputs.answers@.len() && #[trigger] about(i) ==> inputs.answers@[i].mode
                    == inputs.answers@[a].mode || inputs.answers@[i].mode == DeliveryMode::Unknown)
                ==> health.delivery == inputs.answers@[a].mode
            &&& about(a) && about(b) && inputs.answers@[a].mode != inputs.answers@[b].mode
                && inputs.answers@[a].mode != DeliveryMode::Unknown && inputs.answers@[b].mode
                != DeliveryMode::Unknown ==> health.delivery == DeliveryMode::Mixed
        }),
{
    let registrations = inputs.registrations@;
    let answers = inputs.answers@;
    let team = figures.name@;
    let modes = delivery::team_modes(registrations, answers, team);
    let about = |i: int|
        exists|r: int|
            0 <= r < inputs.registrations@.len() && (#[trigger] inputs.registrations@[r]).team@
                == figures.name@ && inputs.registrations@[r].agent_type@
                == inputs.answers@[i].agent_type@ && inputs.registrations@[r].project@
                == inputs.answers@[i].project@;
    team_modes_are_exact(registrations, answers, team);
    assert forall|i: int| 0 <= i < answers.len() implies #[trigger] about(i)
        == delivery::concerns_team(registrations, answers[i], team) by {
    }
    delivery::modes_together(modes, DeliveryMode::Monitor);
    delivery::modes_together(modes, DeliveryMode::Both);
    delivery::modes_together(modes, DeliveryMode::Turn);
    delivery::modes_together(modes, DeliveryMode::Off);
    if forall|i: int|
        0 <= i < answers.len() && #[trigger] about(i) ==> answers[i].mode == DeliveryMode::Unknown {
        assert forall|k: int| 0 <= k < modes.len() implies #[trigger] modes[k]
            == DeliveryMode::Unknown by {
            assert(modes.contains(modes[k]));
            let i = choose|i: int|
                0 <= i < answers.len() && delivery::concerns_team(
                    registrations,
                    #[trigger] answers[i],
                    team,
                ) && answers[i].mode == modes[k];
            assert(about(i));
        }
    }
    if about(a) {
        assert(delivery::concerns_team(registrations, answers[a], team));
        assert(modes.contains(answers[a].mode));
        if forall|i: int|
            0 <= i < answers.len() && #[trigger] about(i) ==> answers[i].mode == answers[a].mode
                || answers[i].mode == DeliveryMode::Unknown {
            assert forall|k: int| 0 <= k < modes.len() implies #[trigger] modes[k]
                == answers[a].mode || modes[k] == DeliveryMode::Unknown by {
                assert(modes.contains(modes[k]));
                let i = choose|i: int|
                    0 <= i < answers.len() && delivery::concerns_team(
                        registrations,
                        #[trigger] answers[i],
                        team,
                    ) && answers[i].mode == modes[k];
                assert(about(i));
            }
        }
    }
    if about(a) && about(b) && answers[a].mode != answers[b].mode && answers[a].mode
        != DeliveryMode::Unknown && answers[b].mode != DeliveryMode::Unknown {
        assert(modes.contains(answers[a].mode));
        assert(modes.contains(answers[b].mode));
        let k = choose|k: int| 0 <= k < modes.len() && modes[k] == answers[a].mode;
        let l = choose|l: int| 0 <= l < modes.len() && modes[l] == answers[b].mode;
        assert(modes[k] != modes[l]);
    }
}

proof fn team_modes_are_exact(
    registrations: Seq<Registration>,
    answers: Seq<DeliveryAnswer>,
    team: Seq<char>,
)
    ensures
        forall|mode: DeliveryMode| #[trigger]
            delivery::team_modes(registrations, answers, team).contains(mode) <==> exists|i: int|
                0 <= i < answers.len() && delivery::concerns_team(
                    registrations,
                    #[trigger] answers[i],
                    team,
                ) && answers[i].mode == mode,
    decreases answers.len(),
{
    if answers.len() > 0 {
        let shorter = answers.drop_last();
        let before = delivery::team_modes(registrations, shorter, team);
        let modes = delivery::team_modes(registrations, answers, team);
        team_modes_are_exact(registrations, shorter, team);
        assert(answers[answers.len() - 1] == answers.last());
        assert forall|mode: DeliveryMode| #[trigger] modes.contains(mode) <==> exists|i: int|
            0 <= i < answers.len() && delivery::concerns_team(
                registrations,
                #[trigger] answers[i],
                team,
            ) && answers[i].mode == mode by {
            if before.contains(mode) {
                let k = choose|k: int| 0 <= k < before.len() && before[k] == mode;
                assert(modes[k] == mode);
                let i = choose|i: int|
                    0 <= i < shorter.len() && delivery::concerns_team(
                        registrations,
                        #[trigger] shorter[i],
                        team,
                    ) && shorter[i].mode == mode;
                assert(answers[i] == shorter[i]);
            }
            if modes.contains(mode) && !before.contains(mode) {
                let k = choose|k: int| 0 <= k < modes.len() && modes[k] == mode;
                assert(k == before.len());
            }
            if exists|i: int|
                0 <= i < answers.len() && delivery::concerns_team(
                    registrations,
                    #[trigger] answers[i],
                    team,
                ) && answers[i].mode == mode {
                let i = choose|i: int|
                    0 <= i < answers.len() && delivery::concerns_team(
                        registrations,
                        #[trigger] answers[i],
                        team,
                    ) && answers[i].mode == mode;
                if i < shorter.len() {
                    assert(shorter[i] == answers[i]);
                } else {
                    assert(modes[before.len() as int] == mode);
                }
            }
        }
    }
}

/// The delivery mode that a script prints is that of its first line with a mode, by its name.
pub proof fn first_mode_line_counts(rows: Seq<Seq<char>>, k: int)
    requires
        0 <= k < rows.len(),
        delivery::line_mode(rows[k]) is Some,
        forall|j: int| 0 <= j < k ==> delivery::line_mode(#[trigger] rows[j]) is None,
    ensures
        ({
            let mode = delivery::mode_of(delivery::first_mode(rows));
            let name = delivery::line_mode(rows[k])->Some_0;
            &&& mode == DeliveryMode::Monitor <==> name == "monitor"@
            &&& mode == DeliveryMode::Both <==> name == "both"@
            &&& mode == DeliveryMode::Turn <==> name == "turn"@
            &&& mode == DeliveryMode::Off <==> name == "off"@
            &&& mode != DeliveryMode::Mixed
        }),
    decreases k,
{
    reveal_strlit("monitor");
    reveal_strlit("both");
    reveal_strlit("turn");
    reveal_strlit("off");
    assert("monitor"@.len() == 7 && "both"@.len() == 4 && "turn"@.len() == 4 && "off"@.len() == 3);
    assert("both"@[0] == 'b' && "turn"@[0] == 't');
    if k > 0 {
        let rest = rows.skip(1);
        assert(rest[k - 1] == rows[k]);
        assert forall|j: int| 0 <= j < k - 1 implies delivery::line_mode(
            #[trigger] rest[j],
        ) is None by {
            assert(rest[j] == rows[j + 1]);
        }
        first_mode_line_counts(rest, k - 1);
        assert(delivery::line_mode(rows[0]) is None);
    }
}

/// A process counts as running if some line of the list gives its number in decimal, with blanks
/// around it or without.
pub proof fn listed_processes_run(rows: Seq<Seq<char>>, k: int, pid: u32)
    requires
        0 <= k < rows.len(),
        search::trimmed(rows[k]) == strings::decimal(pid as nat),
    ensures
        bridges::process_listed(rows, pid),
{
    lines::written_numbers_are_read_back(pid as nat, u32::MAX as nat);
    assert(bridges::names_process(rows[k], pid));
}

/// What a pid file says of its bridge: the description beside it comes first, and what the name of
/// the file tells fills the gaps; the label carries the name that the description gives.
pub proof fn descriptions_come_first(
    family: Seq<char>,
    files: Seq<RunFile>,
    stem: Seq<char>,
    pid: u32,
)
    ensures
        ({
            let bridge = pidfiles::pidfile_bridge(family, files, stem, pid);
            let meta = pidfiles::content_of(files, stem + ".meta"@);
            let told = pidfiles::codex_identity(stem);
            &&& bridge.pid == pid
            &&& pidfiles::value_of(meta, "team"@) is Some ==> bridge.team_hint
                == pidfiles::value_of(meta, "team"@)
            &&& pidfiles::value_of(meta, "team"@) is None ==> (bridge.team_hint is Some
                <==> told is Some) && (told matches Some(identity) ==> bridge.team_hint == Some(
                identity.0,
            ))
            &&& pidfiles::value_of(meta, "project"@) is Some ==> bridge.project_hint
                == pidfiles::value_of(meta, "project"@)
            &&& pidfiles::value_of(meta, "agent"@) is Some ==> bridge.agent_hint is Some
            &&& told is None && pidfiles::value_of(meta, "name"@) is None ==> bridge.label
                == lines::before_first(stem, "."@)
            &&& told matches Some(identity) ==> ("codex/"@ + identity.1).is_prefix_of(bridge.label)
            &&& pidfiles::value_of(meta, "name"@) matches Some(name) ==> ("/"@ + name).is_suffix_of(
                bridge.label,
            )
        }),
{
    let bridge = pidfiles::pidfile_bridge(family, files, stem, pid);
    let meta = pidfiles::content_of(files, stem + ".meta"@);
    let plain = match pidfiles::codex_identity(stem) {
        Some((_, agent)) => "codex/"@ + agent,
        None => lines::before_first(stem, "."@),
    };
    if let Some(name) = pidfiles::value_of(meta, "name"@) {
        let tail = "/"@ + name;
        assert(plain + "/"@ + name =~= plain + tail);
        assert((plain + tail).skip(plain.len() as int) =~= tail);
        assert((plain + tail).take(plain.len() as int) =~= plain);
    }
}

/// Two files about one process tell of one bridge: what the first one leaves open the other one
/// fills, and what the first one says stays.
pub proof fn files_of_a_process_are_put_together(
    bridge: pidfiles::BridgeView,
    other: pidfiles::BridgeView,
)
    ensures
        ({
            let both = pidfiles::merged(bridge, other);
            &&& both.pid == bridge.pid
            &&& bridge.team_hint is Some ==> both.team_hint == bridge.team_hint
            &&& bridge.team_hint is None ==> both.team_hint == other.team_hint
            &&& bridge.agent_hint is Some ==> both.agent_hint == bridge.agent_hint
            &&& bridge.agent_hint is None ==> both.agent_hint == other.agent_hint
            &&& bridge.project_hint is Some ==> both.project_hint == bridge.project_hint
            &&& bridge.project_hint is None ==> both.project_hint == other.project_hint
            &&& bridge.label != "bridge"@ ==> both.label == bridge.label
            &&& bridge.label == "bridge"@ ==> both.label == other.label
        }),
{
}

/// On the screen of teams' health the cursor goes from team to team and stays in the list, and `t`
/// changes between seven days and thirty.
pub proof fn health_screen_goes_through_the_teams(before: HealthScreen, key: KeyEvent)
    requires
        before.snapshot matches Some(shown) && before.team_index < shown.teams@.len(),
    ensures
        ({
            let after = before.after_key(key);
            let count = before.snapshot->Some_0.teams@.len();
            &&& after.snapshot == before.snapshot
            &&& key.code == KeyCode::Char('j') && before.team_index + 1 < count ==> after.team_index
                == before.team_index + 1
            &&& key.code == KeyCode::Char('j') && before.team_index + 1 == count
                ==> after.team_index == before.team_index
            &&& key.code == KeyCode::Char('k') && before.team_index > 0 ==> after.team_index
                == before.team_index - 1
            &&& key.code == KeyCode::Char('t') && before.window_days == 7 ==> after.window_days == 30
            &&& key.code == KeyCode::Char('t') && before.window_days == 30 ==> after.window_days == 7
            &&& key.code != KeyCode::Char('t') ==> after.window_days == before.window_days
            &&& before.team() == Some(
                before.snapshot->Some_0.teams@[before.team_index as int],
            )
        }),
        HealthScreen::request_of(key) == HealthRequest::Refresh <==> key.code == KeyCode::Char('R'),
        HealthScreen::request_of(key) == HealthRequest::Quit <==> key.code == KeyCode::Char('q'),
        HealthScreen::request_of(key) == HealthRequest::LeaveScreen <==> key.code == KeyCode::Esc
            || key.code == KeyCode::Char('H'),
{
    let shown = before.snapshot->Some_0;
    assert(shown.teams@.len() == shown.teams.len());
}

/// A new snapshot is shown as soon as it is there, with the cursor on the same place as far as there
/// is one.
pub proof fn new_health_is_shown(before: HealthScreen, taken: HealthSnapshot)
    ensures
        before.refreshed(taken).snapshot == Some(taken),
        !before.refreshed(taken).loading,
        before.team_index < taken.teams@.len() ==> before.refreshed(taken).team_index
            == before.team_index,
        before.team_index >= taken.teams@.len() && taken.teams@.len() > 0 ==> before.refreshed(
            taken,
        ).team_index + 1 == taken.teams@.len(),
        before.refreshed(taken).window_days == before.window_days,
{
    assert(taken.teams@.len() == taken.teams.len());
}

/// A page of history holds the newest messages that were read, at most as many as were asked for,
/// the oldest of them first.
pub proof fn pages_are_the_newest_oldest_first(rows: Seq<Message>, limit: nat)
    ensures
        ({
            let page = traffic::page_of(rows, limit);
            &&& page.len() == (if rows.len() > limit {
                limit
            } else {
                rows.len()
            })
            &&& forall|i: int|
                0 <= i < page.len() ==> #[trigger] page[i] == rows[page.len() - 1 - i]
        }),
        (forall|i: int, j: int|
            0 <= i < j < rows.len() ==> (#[trigger] rows[i]).id > (#[trigger] rows[j]).id)
            ==> forall|i: int, j: int|
            0 <= i < j < traffic::page_of(rows, limit).len() ==> (#[trigger] traffic::page_of(
                rows,
                limit,
            )[i]).id < (#[trigger] traffic::page_of(rows, limit)[j]).id,
{
    let page = traffic::page_of(rows, limit);
    assert forall|i: int| 0 <= i < page.len() implies #[trigger] page[i] == rows[page.len() - 1
        - i] by {
    }
}

/// The days of a team's traffic end today and go back one by one; a day has the messages that were
/// counted for its date, none if none were, and is a burst if they are more than the threshold.
pub proof fn days_have_their_own_messages(
    day: DailyTraffic,
    counts: Seq<DayCount>,
    date: Seq<char>,
    threshold: usize,
    k: int,
)
    requires
        traffic::is_day(day, counts, date, threshold),
    ensures
        day.date@ == date,
        day.burst <==> day.count > threshold,
        (forall|i: int| 0 <= i < counts.len() ==> (#[trigger] counts[i]).date@ != date) ==> day.count
            == 0,
        0 <= k < counts.len() && counts[k].date@ == date && 0 <= counts[k].count <= usize::MAX && (
        forall|i: int| 0 <= i < counts.len() && i != k ==> (#[trigger] counts[i]).date@ != date)
            ==> day.count == counts[k].count,
{
    counted_for_the_day(counts, date, k);
}

proof fn counted_for_the_day(counts: Seq<DayCount>, date: Seq<char>, k: int)
    ensures
        0 <= k < counts.len() && counts[k].date@ == date && (forall|i: int|
            0 <= i < counts.len() && i != k ==> (#[trigger] counts[i]).date@ != date)
            ==> traffic::day_count(counts, date) == traffic::counted_rows(counts[k].count),
        (forall|i: int| 0 <= i < counts.len() ==> (#[trigger] counts[i]).date@ != date)
            ==> traffic::day_count(counts, date) == 0,
    decreases counts.len(),
{
    if counts.len() > 0 {
        let shorter = counts.drop_last();
        counted_for_the_day(shorter, date, k);
        assert(counts[counts.len() - 1] == counts.last());
        assert forall|i: int| 0 <= i < shorter.len() implies #[trigger] shorter[i] == counts[i] by {
        }
    }
}

/// The day so many days before a point in time is that of the point in time so many times a day's
/// seconds earlier.
pub proof fn dates_go_back_by_days(now: Timestamp, days: int)
    ensures
        traffic::date_before(now, days) == clock::pattern_text(
            (now.secs - days * 86_400) as i64,
            0,
            "%Y-%m-%d"@,
        ),
{
}

} // verus!
