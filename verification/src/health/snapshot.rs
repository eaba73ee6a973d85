//! Putting the health of the teams together.

use crate::clock;
use crate::clock::{format_time, parse_rfc3339, span_since, Span, Timestamp};
use crate::db::traffic;
use crate::db::traffic::{count_of_team, TeamCount};
use crate::db::{AgentTraffic, DailyTraffic};
use crate::health::bridges;
use crate::health::bridges::{bridge_alive_map, find_identity, map_bridges_to_teams, IdentityAlive};
use crate::health::delivery;
use crate::health::delivery::{team_delivery, DeliveryAnswer};
use crate::health::pidfiles::RawBridge;
use crate::health::registrations::Registration;
use crate::health::{HealthSnapshot, SilentIdentity, TeamHealth};
use crate::search;
use crate::search::position_of;
use crate::strings::same_text;
use std::collections::BTreeSet;
use vstd::prelude::*;

verus! {

/// When a team's latest message was written.
#[derive(Debug, PartialEq, Eq)]
pub struct TeamStamp {
    pub team: String,
    pub created_at: String,
}

/// When a team's latest message was written.
pub open spec fn stamp_of(stamps: Seq<TeamStamp>, team: Seq<char>) -> Option<Seq<char>>
    decreases stamps.len(),
{
    if stamps.len() == 0 {
        None
    } else if stamps.last().team@ == team {
        Some(stamps.last().created_at@)
    } else {
        stamp_of(stamps.drop_last(), team)
    }
}

fn find_stamp<'a>(stamps: &'a Vec<TeamStamp>, team: &str) -> (stamp: Option<&'a String>)
    ensures
        match stamp {
            Some(stamp) => stamp_of(stamps@, team@) == Some(stamp@),
            None => stamp_of(stamps@, team@) is None,
        },
{
    let mut end: usize = stamps.len();
    proof {
        assert(stamps@.take(end as int) =~= stamps@);
    }
    while end > 0
        invariant
            end <= stamps@.len(),
            stamp_of(stamps@.take(end as int), team@) == stamp_of(stamps@, team@),
        decreases end,
    {
        proof {
            assert(stamps@.take(end as int).drop_last() =~= stamps@.take(end - 1));
        }
        if same_text(stamps[end - 1].team.as_str(), team) {
            return Some(&stamps[end - 1].created_at);
        }
        end -= 1;
    }
    None
}

/// A span, unless it runs backwards.
pub open spec fn forward(span: Span) -> Option<Span> {
    if span.total_nanos() >= 0 {
        Some(span)
    } else {
        None
    }
}

/// A span, unless it runs backwards.
pub fn keep_forward(span: Span) -> (age: Option<Span>)
    requires
        span.wf(),
    ensures
        age == forward(span),
{
    if span.secs >= 0 && span.nanos >= 0 {
        Some(span)
    } else {
        None
    }
}

/// How long ago a message was written; nothing if its time cannot be read or lies ahead.
pub open spec fn age_of(stamp: Option<Seq<char>>, now: Timestamp) -> Option<Span> {
    match stamp {
        Some(text) => match clock::parsed_time(text) {
            Some(then) => forward(clock::span_between(now, then)),
            None => None,
        },
        None => None,
    }
}

fn read_age(stamp: Option<&String>, now: Timestamp) -> (age: Option<Span>)
    requires
        now.wf(),
    ensures
        age == age_of(
            match stamp {
                Some(stamp) => Some(stamp@),
                None => None,
            },
            now,
        ),
{
    match stamp {
        Some(text) => match parse_rfc3339(text.as_str()) {
            Some(then) => keep_forward(span_since(now, then)),
            None => None,
        },
        None => None,
    }
}

/// What was found out about all teams.
#[derive(Debug)]
pub struct HealthInputs {
    /// The lead family of CLI types.
    pub family: String,
    pub team_names: Vec<String>,
    pub registrations: Vec<Registration>,
    pub answers: Vec<DeliveryAnswer>,
    pub latest: Vec<TeamStamp>,
    pub unread: Vec<TeamCount>,
    pub stale_teams: Vec<String>,
    pub bridges: Vec<RawBridge>,
    pub alive: BTreeSet<u32>,
    pub silent: Vec<SilentIdentity>,
    pub burst_threshold: usize,
    pub silent_days: u32,
    pub now: Timestamp,
}

/// What was counted for one team.
#[derive(Debug)]
pub struct TeamFigures {
    pub name: String,
    pub has_directory: bool,
    pub traffic_7d: Vec<DailyTraffic>,
    pub traffic_30d: Vec<DailyTraffic>,
    pub agents_7d: Vec<AgentTraffic>,
    pub agents_30d: Vec<AgentTraffic>,
}

/// The teams and names of some identities.
pub open spec fn identity_names(identities: Seq<SilentIdentity>) -> Seq<(Seq<char>, Seq<char>)> {
    Seq::new(identities.len(), |i: int| (identities[i].team@, identities[i].agent@))
}

/// The silent identities of a team whose bridge is alive.
pub open spec fn silent_alive(
    inputs: HealthInputs,
    silent: Seq<SilentIdentity>,
    team: Seq<char>,
) -> Seq<(Seq<char>, Seq<char>)>
    decreases silent.len(),
{
    if silent.len() == 0 {
        Seq::empty()
    } else {
        let before = silent_alive(inputs, silent.drop_last(), team);
        let last = silent.last();
        if last.team@ == team && bridges::identity_alive(
            inputs.family@,
            inputs.bridges@,
            inputs.registrations@,
            last.team@,
            last.agent@,
            inputs.alive@,
        ) {
            before.push((last.team@, last.agent@))
        } else {
            before
        }
    }
}

/// The health of a team.
pub open spec fn is_health(inputs: HealthInputs, figures: TeamFigures, health: TeamHealth) -> bool {
    let name = figures.name@;
    &&& health.name@ == name
    &&& health.orphan == !figures.has_directory
    &&& health.delivery == delivery::all_modes(
        delivery::team_modes(inputs.registrations@, inputs.answers@, name),
    )
    &&& bridges::status_views(health.bridges@) == bridges::team_bridges(
        inputs.family@,
        inputs.bridges@,
        inputs.registrations@,
        inputs.team_names@,
        inputs.alive@,
        name,
    )
    &&& health.last_msg_age == age_of(stamp_of(inputs.latest@, name), inputs.now)
    &&& health.unread == traffic::team_count(inputs.unread@, name)
    &&& health.stale_unread == search::lists(inputs.stale_teams@, name)
    &&& health.traffic_7d == figures.traffic_7d
    &&& health.traffic_30d == figures.traffic_30d
    &&& health.agents_7d == figures.agents_7d
    &&& health.agents_30d == figures.agents_30d
    &&& identity_names(health.silent_identities@) == silent_alive(
        inputs,
        inputs.silent@,
        name,
    )
}

fn find_silent(
    inputs: &HealthInputs,
    identities: &Vec<IdentityAlive>,
    team: &str,
) -> (silent: Vec<SilentIdentity>)
    requires
        bridges::alive_map_of(
            inputs.family@,
            inputs.bridges@,
            inputs.registrations@,
            inputs.alive@,
            identities@,
        ),
    ensures
        identity_names(silent@) == silent_alive(*inputs, inputs.silent@, team@),
{
    let mut silent: Vec<SilentIdentity> = Vec::new();
    let mut index: usize = 0;
    let ghost all = inputs.silent@;
    proof {
        assert(all.take(0) =~= Seq::empty());
        assert(identity_names(silent@) =~= Seq::empty());
    }
    while index < inputs.silent.len()
        invariant
            index <= all.len(),
            all == inputs.silent@,
            bridges::alive_map_of(
                inputs.family@,
                inputs.bridges@,
                inputs.registrations@,
                inputs.alive@,
                identities@,
            ),
            identity_names(silent@) == silent_alive(*inputs, all.take(index as int), team@),
        decreases all.len() - index,
    {
        let candidate = &inputs.silent[index];
        let ghost before = identity_names(silent@);
        proof {
            assert(all.take(index + 1).drop_last() =~= all.take(index as int));
        }
        let is_alive = match find_identity(
            identities,
            candidate.team.as_str(),
            candidate.agent.as_str(),
        ) {
            Some(place) => identities[place].alive,
            None => {
                proof {
                    assert(!bridges::lists_identity(
                        identities@,
                        candidate.team@,
                        candidate.agent@,
                    ));
                }
                false
            },
        };
        if same_text(candidate.team.as_str(), team) && is_alive {
            silent.push(
                SilentIdentity { team: candidate.team.clone(), agent: candidate.agent.clone() },
            );
            proof {
                assert(identity_names(silent@) =~= before.push(
                    (candidate.team@, candidate.agent@),
                ));
            }
        }
        index += 1;
    }
    proof {
        assert(all.take(index as int) =~= all);
    }
    silent
}

fn team_health(
    inputs: &HealthInputs,
    identities: &Vec<IdentityAlive>,
    figures: TeamFigures,
) -> (health: TeamHealth)
    requires
        inputs.now.wf(),
        bridges::alive_map_of(
            inputs.family@,
            inputs.bridges@,
            inputs.registrations@,
            inputs.alive@,
            identities@,
        ),
    ensures
        is_health(*inputs, figures, health),
{
    let name = figures.name.clone();
    let mode = team_delivery(&inputs.registrations, &inputs.answers, name.as_str());
    let serving = map_bridges_to_teams(
        inputs.family.as_str(),
        &inputs.bridges,
        &inputs.registrations,
        &inputs.team_names,
        &inputs.alive,
        name.as_str(),
    );
    let age = read_age(find_stamp(&inputs.latest, name.as_str()), inputs.now);
    let unread = count_of_team(&inputs.unread, name.as_str());
    let stale = position_of(&inputs.stale_teams, name.as_str()).is_some();
    let silent = find_silent(inputs, identities, name.as_str());
    TeamHealth {
        name,
        orphan: !figures.has_directory,
        delivery: mode,
        bridges: serving,
        last_msg_age: age,
        unread,
        stale_unread: stale,
        traffic_7d: figures.traffic_7d,
        traffic_30d: figures.traffic_30d,
        agents_7d: figures.agents_7d,
        agents_30d: figures.agents_30d,
        silent_identities: silent,
    }
}

/// Puts the health of all teams together.
pub fn health_snapshot(
    inputs: &HealthInputs,
    figures: Vec<TeamFigures>,
    daily_total_7d: Vec<DailyTraffic>,
    daily_total_30d: Vec<DailyTraffic>,
) -> (snapshot: HealthSnapshot)
    requires
        inputs.now.wf(),
    ensures
        snapshot.teams@.len() == figures@.len(),
        forall|i: int|
            0 <= i < figures@.len() ==> #[trigger] is_health(
                *inputs,
                figures@[i],
                snapshot.teams@[i],
            ),
        snapshot.daily_total_7d == daily_total_7d,
        snapshot.daily_total_30d == daily_total_30d,
        snapshot.refreshed_at@ == clock::time_of_day(inputs.now),
        snapshot.burst_threshold == inputs.burst_threshold,
        snapshot.silent_days == inputs.silent_days,
{
    let identities = bridge_alive_map(
        inputs.family.as_str(),
        &inputs.bridges,
        &inputs.registrations,
        &inputs.alive,
    );
    let ghost all = figures@;
    let mut teams: Vec<TeamHealth> = Vec::new();
    for team in it: figures
        invariant
            it.seq() == all,
            inputs.now.wf(),
            bridges::alive_map_of(
                inputs.family@,
                inputs.bridges@,
                inputs.registrations@,
                inputs.alive@,
                identities@,
            ),
            teams@.len() == it.index(),
            forall|i: int|
                0 <= i < it.index() ==> #[trigger] is_health(*inputs, all[i], teams@[i]),
    {
        teams.push(team_health(inputs, &identities, team));
    }
    HealthSnapshot {
        teams,
        daily_total_7d,
        daily_total_30d,
        refreshed_at: format_time(inputs.now, "%H:%M:%S"),
        burst_threshold: inputs.burst_threshold,
        silent_days: inputs.silent_days,
    }
}

/// A team's health warns of an identity exactly if it belongs to the team, is among those that wrote
/// nothing, and some bridge that runs was started for it: the bridge can serve the CLI type that
/// the identity is registered with, names no other team, and names the agent or, naming none,
/// works in a project where nobody else is registered with that type. If no process runs, the
/// health warns of nobody.
pub proof fn silent_identities_have_a_running_bridge(
    inputs: HealthInputs,
    figures: TeamFigures,
    health: TeamHealth,
    agent: Seq<char>,
)
    requires
        is_health(inputs, figures, health),
    ensures
        (exists|k: int|
            0 <= k < health.silent_identities@.len() && (
            #[trigger] health.silent_identities@[k]).agent@ == agent) <==> ((exists|s: int|
            0 <= s < inputs.silent@.len() && (#[trigger] inputs.silent@[s]).team@ == figures.name@
                && inputs.silent@[s].agent@ == agent) && exists|r: int, b: int|
            #![trigger inputs.registrations@[r], inputs.bridges@[b]]
            0 <= r < inputs.registrations@.len() && 0 <= b < inputs.bridges@.len()
                && inputs.registrations@[r].team@ == figures.name@
                && inputs.registrations@[r].agent@ == agent && inputs.alive@.contains(
                inputs.bridges@[b].pid,
            ) && bridges::kind_fits(
                inputs.family@,
                inputs.bridges@[b].label@,
                inputs.registrations@[r].agent_type@,
            ) && (inputs.bridges@[b].team_hint matches Some(hint) ==> hint@ == figures.name@) && (
            inputs.bridges@[b].agent_hint matches Some(hint) ==> hint@ == agent) && (
            inputs.bridges@[b].agent_hint is None ==> ((inputs.bridges@[b].project_hint matches Some(
                project,
            ) && project@ == inputs.registrations@[r].project@) && forall|o: int|
                0 <= o < inputs.registrations@.len() && (
                #[trigger] inputs.registrations@[o]).agent_type@
                    == inputs.registrations@[r].agent_type@ && inputs.registrations@[o].project@
                    == inputs.registrations@[r].project@ ==> inputs.registrations@[o].team@
                    == figures.name@ && inputs.registrations@[o].agent@ == agent))),
        forall|k: int|
            0 <= k < health.silent_identities@.len() ==> (
            #[trigger] health.silent_identities@[k]).team@ == figures.name@,
        inputs.alive@ == Set::<u32>::empty() ==> health.silent_identities@.len() == 0,
        health.silent_identities@.len() <= inputs.silent@.len(),
{
    let listed = health.silent_identities@;
    let names = identity_names(listed);
    silent_alive_members(inputs, inputs.silent@, figures.name@, agent);
    assert forall|k: int| 0 <= k < listed.len() implies (#[trigger] listed[k]).team@
        == figures.name@ by {
        assert(names[k] == (listed[k].team@, listed[k].agent@));
    }
    if exists|k: int| 0 <= k < listed.len() && (#[trigger] listed[k]).agent@ == agent {
        let k = choose|k: int| 0 <= k < listed.len() && (#[trigger] listed[k]).agent@ == agent;
        assert(names[k] == (figures.name@, agent));
        assert(names.contains((figures.name@, agent)));
    }
    if names.contains((figures.name@, agent)) {
        let k = choose|k: int| 0 <= k < names.len() && names[k] == (figures.name@, agent);
        assert(listed[k].agent@ == agent);
    }
    running_bridge_is_seen(inputs, figures.name@, agent);
    if inputs.alive@ == Set::<u32>::empty() && listed.len() > 0 {
        silent_alive_members(inputs, inputs.silent@, figures.name@, listed[0].agent@);
        assert(names[0] == (figures.name@, listed[0].agent@));
        assert(names.contains((figures.name@, listed[0].agent@)));
    }
}

proof fn silent_alive_members(
    inputs: HealthInputs,
    silent: Seq<SilentIdentity>,
    team: Seq<char>,
    agent: Seq<char>,
)
    ensures
        silent_alive(inputs, silent, team).contains((team, agent)) <==> (exists|s: int|
            0 <= s < silent.len() && (#[trigger] silent[s]).team@ == team && silent[s].agent@
                == agent) && bridges::identity_alive(
            inputs.family@,
            inputs.bridges@,
            inputs.registrations@,
            team,
            agent,
            inputs.alive@,
        ),
        forall|k: int|
            0 <= k < silent_alive(inputs, silent, team).len() ==> (#[trigger] silent_alive(
                inputs,
                silent,
                team,
            )[k]).0 == team,
        silent_alive(inputs, silent, team).len() <= silent.len(),
    decreases silent.len(),
{
    if silent.len() > 0 {
        let shorter = silent.drop_last();
        let last = silent.last();
        let before = silent_alive(inputs, shorter, team);
        let after = silent_alive(inputs, silent, team);
        silent_alive_members(inputs, shorter, team, agent);
        assert(silent[silent.len() - 1] == last);
        if before.contains((team, agent)) {
            let k = choose|k: int| 0 <= k < before.len() && before[k] == (team, agent);
            assert(after[k] == (team, agent));
            let s = choose|s: int|
                0 <= s < shorter.len() && (#[trigger] shorter[s]).team@ == team && shorter[s].agent@
                    == agent;
            assert(silent[s] == shorter[s]);
        }
        if after.contains((team, agent)) && !before.contains((team, agent)) {
            let k = choose|k: int| 0 <= k < after.len() && after[k] == (team, agent);
            assert(k == before.len());
        }
        if (exists|s: int|
            0 <= s < silent.len() && (#[trigger] silent[s]).team@ == team && silent[s].agent@
                == agent) && bridges::identity_alive(
            inputs.family@,
            inputs.bridges@,
            inputs.registrations@,
            team,
            agent,
            inputs.alive@,
        ) {
            let s = choose|s: int|
                0 <= s < silent.len() && (#[trigger] silent[s]).team@ == team && silent[s].agent@
                    == agent;
            if s < shorter.len() {
                assert(shorter[s] == silent[s]);
            } else {
                assert(after[before.len() as int] == (team, agent));
            }
        }
    }
}

proof fn running_bridge_is_seen(inputs: HealthInputs, team: Seq<char>, agent: Seq<char>)
    ensures
        bridges::identity_alive(
            inputs.family@,
            inputs.bridges@,
            inputs.registrations@,
            team,
            agent,
            inputs.alive@,
        ) <==> exists|r: int, b: int|
            #![trigger inputs.registrations@[r], inputs.bridges@[b]]
            0 <= r < inputs.registrations@.len() && 0 <= b < inputs.bridges@.len()
                && inputs.registrations@[r].team@ == team && inputs.registrations@[r].agent@
                == agent && inputs.alive@.contains(inputs.bridges@[b].pid) && bridges::kind_fits(
                inputs.family@,
                inputs.bridges@[b].label@,
                inputs.registrations@[r].agent_type@,
            ) && (inputs.bridges@[b].team_hint matches Some(hint) ==> hint@ == team) && (
            inputs.bridges@[b].agent_hint matches Some(hint) ==> hint@ == agent) && (
            inputs.bridges@[b].agent_hint is None ==> ((inputs.bridges@[b].project_hint matches Some(
                project,
            ) && project@ == inputs.registrations@[r].project@) && forall|o: int|
                0 <= o < inputs.registrations@.len() && (
                #[trigger] inputs.registrations@[o]).agent_type@
                    == inputs.registrations@[r].agent_type@ && inputs.registrations@[o].project@
                    == inputs.registrations@[r].project@ ==> inputs.registrations@[o].team@ == team
                    && inputs.registrations@[o].agent@ == agent)),
{
    let registrations = inputs.registrations@;
    let all = inputs.bridges@;
    assert forall|r: int, b: int|
        #![trigger registrations[r], all[b]]
        0 <= r < registrations.len() && 0 <= b < all.len() && registrations[r].team@ == team
            && registrations[r].agent@ == agent implies bridges::shows_alive(
        inputs.family@,
        all[b]@,
        registrations,
        registrations[r],
        inputs.alive@,
    ) == (inputs.alive@.contains(all[b].pid) && bridges::kind_fits(
        inputs.family@,
        all[b].label@,
        registrations[r].agent_type@,
    ) && (all[b].team_hint matches Some(hint) ==> hint@ == team) && (
    all[b].agent_hint matches Some(hint) ==> hint@ == agent) && (all[b].agent_hint is None ==> ((
    all[b].project_hint matches Some(project) && project@ == registrations[r].project@) && forall|
        o: int,
    |
        0 <= o < registrations.len() && (#[trigger] registrations[o]).agent_type@
            == registrations[r].agent_type@ && registrations[o].project@
            == registrations[r].project@ ==> registrations[o].team@ == team
            && registrations[o].agent@ == agent))) by {
        if bridges::stands_alone(registrations, registrations[r]) {
            assert forall|o: int|
                0 <= o < registrations.len() && (#[trigger] registrations[o]).agent_type@
                    == registrations[r].agent_type@ && registrations[o].project@
                    == registrations[r].project@ implies registrations[o].team@ == team
                && registrations[o].agent@ == agent by {
                assert(bridges::same_place(registrations[o], registrations[r]));
            }
        }
    }
    if bridges::identity_alive(
        inputs.family@,
        all,
        registrations,
        team,
        agent,
        inputs.alive@,
    ) {
        let r = choose|r: int|
            0 <= r < registrations.len() && (#[trigger] registrations[r]).team@ == team
                && registrations[r].agent@ == agent && bridges::registration_alive(
                inputs.family@,
                all,
                registrations,
                registrations[r],
                inputs.alive@,
            );
        let b = choose|b: int|
            0 <= b < all.len() && bridges::shows_alive(
                inputs.family@,
                (#[trigger] all[b])@,
                registrations,
                registrations[r],
                inputs.alive@,
            );
        assert(registrations[r].team@ == team && all[b] == all[b]);
    }
    assert forall|r: int, b: int|
        #![trigger registrations[r], all[b]]
        0 <= r < registrations.len() && 0 <= b < all.len() && registrations[r].team@ == team
            && registrations[r].agent@ == agent && bridges::shows_alive(
            inputs.family@,
            all[b]@,
            registrations,
            registrations[r],
            inputs.alive@,
        ) implies bridges::identity_alive(
        inputs.family@,
        all,
        registrations,
        team,
        agent,
        inputs.alive@,
    ) by {
        assert(bridges::registration_alive(
            inputs.family@,
            all,
            registrations,
            registrations[r],
            inputs.alive@,
        ));
    }
}

} // verus!
