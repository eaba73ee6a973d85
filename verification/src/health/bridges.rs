//! Which teams and agents the bridges serve.

use crate::health::pidfiles;
use crate::health::pidfiles::{bridge_agent_type, RawBridge};
use crate::health::registrations::Registration;
use crate::health::BridgeStatus;
use crate::lines;
use crate::lines::parse_u32;
use crate::search;
use crate::search::{position_of, trim};
use crate::strings::{option_is, same_text};
use std::collections::BTreeSet;
use vstd::prelude::*;

verus! {

/// The line gives the number of a process.
pub open spec fn names_process(line: Seq<char>, pid: u32) -> bool {
    lines::parsed_number(search::trimmed(line), u32::MAX as nat) == Some(pid as nat)
}

/// Some line gives the number of a process.
pub open spec fn process_listed(rows: Seq<Seq<char>>, pid: u32) -> bool {
    exists|i: int| 0 <= i < rows.len() && #[trigger] names_process(rows[i], pid)
}

spec fn place(index: usize) -> int {
    index as int
}

fn read_pid(line: &str) -> (pid: Option<u32>)
    ensures
        match pid {
            Some(pid) => forall|other: u32| #[trigger] names_process(line@, other) <==> other == pid,
            None => forall|other: u32| !#[trigger] names_process(line@, other),
        },
{
    parse_u32(trim(line).as_str())
}

/// Reads the running processes out of a list of processes.
pub fn parse_alive_pids(stdout: &str) -> (pids: BTreeSet<u32>)
    ensures
        forall|pid: u32| #[trigger]
            pids@.contains(pid) <==> process_listed(lines::lines_of(stdout@), pid),
{
    broadcast use vstd::std_specs::btree::group_btree_axioms;
    broadcast use vstd::laws_cmp::group_laws_cmp;

    let rows = lines::lines(stdout);
    let ghost all = lines::lines_of(stdout@);
    let mut pids: BTreeSet<u32> = BTreeSet::new();
    let mut index: usize = 0;
    while index < rows.len()
        invariant
            index <= rows@.len(),
            search::texts(rows@) == all,
            forall|pid: u32| #[trigger] pids@.contains(pid) ==> process_listed(all, pid),
            forall|i: int, pid: u32|
                0 <= i < index && #[trigger] names_process(all[i], pid) ==> pids@.contains(pid),
        decreases rows@.len() - index,
    {
        proof {
            assert(search::texts(rows@)[place(index)] == rows@[place(index)]@);
        }
        match read_pid(rows[index].as_str()) {
            Some(pid) => {
                let ghost before = pids@;
                pids.insert(pid);
                proof {
                    assert(pids@ == before.insert(pid));
                    assert(names_process(all[place(index)], pid));
                }
            },
            None => {},
        }
        index += 1;
    }
    pids
}

fn is_running(alive: &BTreeSet<u32>, pid: u32) -> (running: bool)
    ensures
        running == alive@.contains(pid),
{
    broadcast use vstd::std_specs::btree::group_btree_axioms;
    broadcast use vstd::laws_cmp::group_laws_cmp;

    alive.contains(&pid)
}

/// A bridge of the label can serve an agent of the CLI type.
pub open spec fn kind_fits(family: Seq<char>, label: Seq<char>, agent_type: Seq<char>) -> bool {
    match pidfiles::label_type(family, label) {
        Some(kind) => agent_type == kind,
        None => true,
    }
}

/// Whether a bridge of the label can serve an agent of the CLI type.
pub fn bridge_kind_matches(family: &str, label: &str, agent_type: &str) -> (fits: bool)
    ensures
        fits == kind_fits(family@, label@, agent_type@),
{
    match bridge_agent_type(family, label) {
        Some(kind) => same_text(agent_type, kind.as_str()),
        None => true,
    }
}

/// The registration is in the bridge's project and of a type that the bridge can serve.
pub open spec fn fits_project(
    family: Seq<char>,
    registration: Registration,
    label: Seq<char>,
    project: Seq<char>,
) -> bool {
    registration.project@ == project && kind_fits(family, label, registration.agent_type@)
}

/// The bridge serves the team: the team that it names, if there is one of that name, or else every
/// team that registers an agent of its project.
pub open spec fn serves_team(
    family: Seq<char>,
    bridge: pidfiles::BridgeView,
    registrations: Seq<Registration>,
    team_names: Seq<String>,
    team: Seq<char>,
) -> bool {
    if bridge.team_hint is Some && search::lists(team_names, bridge.team_hint->Some_0) {
        bridge.team_hint == Some(team)
    } else {
        match bridge.project_hint {
            Some(project) => exists|i: int|
                0 <= i < registrations.len() && fits_project(
                    family,
                    #[trigger] registrations[i],
                    bridge.label,
                    project,
                ) && registrations[i].team@ == team,
            None => false,
        }
    }
}

fn names_known_team(bridge: &RawBridge, team_names: &Vec<String>) -> (known: bool)
    ensures
        known == (bridge@.team_hint is Some && search::lists(
            team_names@,
            bridge@.team_hint->Some_0,
        )),
{
    match &bridge.team_hint {
        Some(hint) => position_of(team_names, hint.as_str()).is_some(),
        None => false,
    }
}

fn is_serving(
    family: &str,
    bridge: &RawBridge,
    registrations: &Vec<Registration>,
    team_names: &Vec<String>,
    team: &str,
) -> (result: bool)
    ensures
        result == serves_team(family@, bridge@, registrations@, team_names@, team@),
{
    if names_known_team(bridge, team_names) {
        return option_is(&bridge.team_hint, team);
    }
    let project = match &bridge.project_hint {
        Some(project) => project,
        None => {
            return false;
        },
    };
    let mut index: usize = 0;
    while index < registrations.len()
        invariant
            index <= registrations@.len(),
            bridge.project_hint == Some(*project),
            !(bridge@.team_hint is Some && search::lists(
                team_names@,
                bridge@.team_hint->Some_0,
            )),
            forall|i: int|
                0 <= i < index ==> !(fits_project(
                    family@,
                    #[trigger] registrations@[i],
                    bridge.label@,
                    project@,
                ) && registrations@[i].team@ == team@),
        decreases registrations@.len() - index,
    {
        let registration = &registrations[index];
        if same_text(registration.project.as_str(), project.as_str()) && bridge_kind_matches(
            family,
            bridge.label.as_str(),
            registration.agent_type.as_str(),
        ) && same_text(registration.team.as_str(), team) {
            assert(fits_project(family@, registrations@[index as int], bridge.label@, project@));
            return true;
        }
        index += 1;
    }
    false
}

/// What is shown of a bridge.
#[verifier::ext_equal]
pub struct StatusView {
    pub label: Seq<char>,
    pub pid: u32,
    pub alive: bool,
}

impl View for BridgeStatus {
    type V = StatusView;

    open spec fn view(&self) -> StatusView {
        StatusView { label: self.label@, pid: self.pid, alive: self.alive }
    }
}

/// What is shown of some bridges.
pub open spec fn status_views(statuses: Seq<BridgeStatus>) -> Seq<StatusView> {
    Seq::new(statuses.len(), |i: int| statuses[i]@)
}

/// The list with one more bridge, in the order of the processes.
pub open spec fn with_status(statuses: Seq<StatusView>, status: StatusView) -> Seq<StatusView>
    decreases statuses.len(),
{
    if statuses.len() == 0 || statuses.last().pid <= status.pid {
        statuses.push(status)
    } else {
        with_status(statuses.drop_last(), status).push(statuses.last())
    }
}

/// The bridges that serve a team, in the order of their processes.
pub open spec fn team_bridges(
    family: Seq<char>,
    bridges: Seq<RawBridge>,
    registrations: Seq<Registration>,
    team_names: Seq<String>,
    alive: Set<u32>,
    team: Seq<char>,
) -> Seq<StatusView>
    decreases bridges.len(),
{
    if bridges.len() == 0 {
        Seq::empty()
    } else {
        let before = team_bridges(
            family,
            bridges.drop_last(),
            registrations,
            team_names,
            alive,
            team,
        );
        let bridge = bridges.last()@;
        if serves_team(family, bridge, registrations, team_names, team) {
            with_status(
                before,
                StatusView {
                    label: bridge.label,
                    pid: bridge.pid,
                    alive: alive.contains(bridge.pid),
                },
            )
        } else {
            before
        }
    }
}

fn put_status(statuses: &mut Vec<BridgeStatus>, status: BridgeStatus)
    ensures
        status_views(final(statuses)@) == with_status(status_views(old(statuses)@), status@),
    decreases old(statuses)@.len(),
{
    let ghost before = status_views(statuses@);
    match statuses.pop() {
        None => {
            statuses.push(status);
            proof {
                assert(status_views(statuses@) =~= before.push(status@));
            }
        },
        Some(last) => {
            proof {
                assert(status_views(statuses@) =~= before.drop_last());
                assert(before.last() == last@);
            }
            if last.pid <= status.pid {
                statuses.push(last);
                statuses.push(status);
                proof {
                    assert(status_views(statuses@) =~= before.push(status@));
                }
            } else {
                put_status(statuses, status);
                let ghost inner = status_views(statuses@);
                statuses.push(last);
                proof {
                    assert(status_views(statuses@) =~= inner.push(last@));
                }
            }
        },
    }
}

/// Finds the bridges that serve a team.
pub fn map_bridges_to_teams(
    family: &str,
    bridges: &Vec<RawBridge>,
    registrations: &Vec<Registration>,
    team_names: &Vec<String>,
    alive: &BTreeSet<u32>,
    team: &str,
) -> (statuses: Vec<BridgeStatus>)
    ensures
        status_views(statuses@) == team_bridges(
            family@,
            bridges@,
            registrations@,
            team_names@,
            alive@,
            team@,
        ),
{
    let mut statuses: Vec<BridgeStatus> = Vec::new();
    let mut index: usize = 0;
    proof {
        assert(bridges@.take(0) =~= Seq::empty());
        assert(status_views(statuses@) =~= Seq::empty());
    }
    while index < bridges.len()
        invariant
            index <= bridges@.len(),
            status_views(statuses@) == team_bridges(
                family@,
                bridges@.take(index as int),
                registrations@,
                team_names@,
                alive@,
                team@,
            ),
        decreases bridges@.len() - index,
    {
        let bridge = &bridges[index];
        proof {
            assert(bridges@.take(index + 1).drop_last() =~= bridges@.take(index as int));
        }
        if is_serving(family, bridge, registrations, team_names, team) {
            put_status(
                &mut statuses,
                BridgeStatus {
                    label: bridge.label.clone(),
                    pid: bridge.pid,
                    alive: is_running(alive, bridge.pid),
                },
            );
        }
        index += 1;
    }
    proof {
        assert(bridges@.take(index as int) =~= bridges@);
    }
    statuses
}

/// Two registrations are of the same CLI type in the same project.
pub open spec fn same_place(left: Registration, right: Registration) -> bool {
    left.agent_type@ == right.agent_type@ && left.project@ == right.project@
}

/// Two registrations are of the same agent in the same team.
pub open spec fn same_identity(left: Registration, right: Registration) -> bool {
    left.team@ == right.team@ && left.agent@ == right.agent@
}

/// No other agent is registered with the CLI type in the project.
pub open spec fn stands_alone(
    registrations: Seq<Registration>,
    registration: Registration,
) -> bool {
    forall|i: int|
        0 <= i < registrations.len() && same_place(#[trigger] registrations[i], registration)
            ==> same_identity(registrations[i], registration)
}

/// The bridge shows that a registered agent is alive: it runs, it can serve the agent's type, it
/// names no other team, and it names the agent or, naming none, works in a project where the agent
/// stands alone.
pub open spec fn shows_alive(
    family: Seq<char>,
    bridge: pidfiles::BridgeView,
    registrations: Seq<Registration>,
    registration: Registration,
    alive: Set<u32>,
) -> bool {
    &&& alive.contains(bridge.pid)
    &&& kind_fits(family, bridge.label, registration.agent_type@)
    &&& bridge.team_hint is Some ==> bridge.team_hint->Some_0 == registration.team@
    &&& match bridge.agent_hint {
        Some(agent) => agent == registration.agent@,
        None => bridge.project_hint == Some(registration.project@) && stands_alone(
            registrations,
            registration,
        ),
    }
}

/// Some bridge shows that a registered agent is alive.
pub open spec fn registration_alive(
    family: Seq<char>,
    bridges: Seq<RawBridge>,
    registrations: Seq<Registration>,
    registration: Registration,
    alive: Set<u32>,
) -> bool {
    exists|i: int|
        0 <= i < bridges.len() && shows_alive(
            family,
            (#[trigger] bridges[i])@,
            registrations,
            registration,
            alive,
        )
}

/// Some registration of an identity is shown to be alive.
pub open spec fn identity_alive(
    family: Seq<char>,
    bridges: Seq<RawBridge>,
    registrations: Seq<Registration>,
    team: Seq<char>,
    agent: Seq<char>,
    alive: Set<u32>,
) -> bool {
    exists|i: int|
        0 <= i < registrations.len() && (#[trigger] registrations[i]).team@ == team
            && registrations[i].agent@ == agent && registration_alive(
            family,
            bridges,
            registrations,
            registrations[i],
            alive,
        )
}

/// Whether an identity is alive.
#[derive(Debug, PartialEq, Eq)]
pub struct IdentityAlive {
    pub team: String,
    pub agent: String,
    pub alive: bool,
}

/// The identity is in the list.
pub open spec fn lists_identity(
    entries: Seq<IdentityAlive>,
    team: Seq<char>,
    agent: Seq<char>,
) -> bool {
    exists|i: int|
        0 <= i < entries.len() && (#[trigger] entries[i]).team@ == team && entries[i].agent@
            == agent
}

/// The identity is registered.
pub open spec fn is_registered(
    registrations: Seq<Registration>,
    team: Seq<char>,
    agent: Seq<char>,
) -> bool {
    exists|i: int|
        0 <= i < registrations.len() && (#[trigger] registrations[i]).team@ == team
            && registrations[i].agent@ == agent
}

/// The list holds every registered identity once, and says of each whether it is alive.
pub open spec fn alive_map_of(
    family: Seq<char>,
    bridges: Seq<RawBridge>,
    registrations: Seq<Registration>,
    alive: Set<u32>,
    entries: Seq<IdentityAlive>,
) -> bool {
    &&& forall|team: Seq<char>, agent: Seq<char>| #[trigger]
        lists_identity(entries, team, agent) <==> is_registered(registrations, team, agent)
    &&& forall|i: int, j: int|
        0 <= i < j < entries.len() ==> (#[trigger] entries[i]).team@ != (
        #[trigger] entries[j]).team@ || entries[i].agent@ != entries[j].agent@
    &&& forall|i: int|
        0 <= i < entries.len() ==> (#[trigger] entries[i]).alive == identity_alive(
            family,
            bridges,
            registrations,
            entries[i].team@,
            entries[i].agent@,
            alive,
        )
}

fn is_alone(registrations: &Vec<Registration>, registration: &Registration) -> (alone: bool)
    ensures
        alone == stands_alone(registrations@, *registration),
{
    let mut index: usize = 0;
    while index < registrations.len()
        invariant
            index <= registrations@.len(),
            forall|i: int|
                0 <= i < index && same_place(#[trigger] registrations@[i], *registration)
                    ==> same_identity(registrations@[i], *registration),
        decreases registrations@.len() - index,
    {
        let other = &registrations[index];
        if same_text(other.agent_type.as_str(), registration.agent_type.as_str()) && same_text(
            other.project.as_str(),
            registration.project.as_str(),
        ) && !(same_text(other.team.as_str(), registration.team.as_str()) && same_text(
            other.agent.as_str(),
            registration.agent.as_str(),
        )) {
            assert(same_place(registrations@[index as int], *registration));
            return false;
        }
        index += 1;
    }
    true
}

fn is_shown_alive(
    family: &str,
    bridge: &RawBridge,
    registrations: &Vec<Registration>,
    registration: &Registration,
    alive: &BTreeSet<u32>,
) -> (result: bool)
    ensures
        result == shows_alive(family@, bridge@, registrations@, *registration, alive@),
{
    if !is_running(alive, bridge.pid) || !bridge_kind_matches(
        family,
        bridge.label.as_str(),
        registration.agent_type.as_str(),
    ) {
        return false;
    }
    if bridge.team_hint.is_some() && !option_is(&bridge.team_hint, registration.team.as_str()) {
        return false;
    }
    match &bridge.agent_hint {
        Some(agent) => same_text(agent.as_str(), registration.agent.as_str()),
        None => option_is(&bridge.project_hint, registration.project.as_str()) && is_alone(
            registrations,
            registration,
        ),
    }
}

fn is_registration_alive(
    family: &str,
    bridges: &Vec<RawBridge>,
    registrations: &Vec<Registration>,
    registration: &Registration,
    alive: &BTreeSet<u32>,
) -> (result: bool)
    ensures
        result == registration_alive(family@, bridges@, registrations@, *registration, alive@),
{
    let mut index: usize = 0;
    while index < bridges.len()
        invariant
            index <= bridges@.len(),
            forall|i: int|
                0 <= i < index ==> !shows_alive(
                    family@,
                    (#[trigger] bridges@[i])@,
                    registrations@,
                    *registration,
                    alive@,
                ),
        decreases bridges@.len() - index,
    {
        if is_shown_alive(family, &bridges[index], registrations, registration, alive) {
            assert(shows_alive(
                family@,
                bridges@[index as int]@,
                registrations@,
                *registration,
                alive@,
            ));
            return true;
        }
        index += 1;
    }
    false
}

fn is_identity_alive(
    family: &str,
    bridges: &Vec<RawBridge>,
    registrations: &Vec<Registration>,
    team: &str,
    agent: &str,
    alive: &BTreeSet<u32>,
) -> (result: bool)
    ensures
        result == identity_alive(family@, bridges@, registrations@, team@, agent@, alive@),
{
    let mut index: usize = 0;
    while index < registrations.len()
        invariant
            index <= registrations@.len(),
            forall|i: int|
                0 <= i < index ==> !((#[trigger] registrations@[i]).team@ == team@
                    && registrations@[i].agent@ == agent@ && registration_alive(
                    family@,
                    bridges@,
                    registrations@,
                    registrations@[i],
                    alive@,
                )),
        decreases registrations@.len() - index,
    {
        let registration = &registrations[index];
        if same_text(registration.team.as_str(), team) && same_text(
            registration.agent.as_str(),
            agent,
        ) && is_registration_alive(family, bridges, registrations, registration, alive) {
            assert(registrations@[index as int].team@ == team@);
            return true;
        }
        index += 1;
    }
    false
}

/// Finds the entry of an identity.
pub fn find_identity(entries: &Vec<IdentityAlive>, team: &str, agent: &str) -> (found: Option<usize>)
    ensures
        match found {
            Some(index) => index < entries@.len() && entries@[index as int].team@ == team@
                && entries@[index as int].agent@ == agent@,
            None => !lists_identity(entries@, team@, agent@),
        },
{
    let mut index: usize = 0;
    while index < entries.len()
        invariant
            index <= entries@.len(),
            forall|i: int|
                0 <= i < index ==> !((#[trigger] entries@[i]).team@ == team@ && entries@[i].agent@
                    == agent@),
        decreases entries@.len() - index,
    {
        if same_text(entries[index].team.as_str(), team) && same_text(
            entries[index].agent.as_str(),
            agent,
        ) {
            return Some(index);
        }
        index += 1;
    }
    None
}

/// Finds out which registered identities are alive.
pub fn bridge_alive_map(
    family: &str,
    bridges: &Vec<RawBridge>,
    registrations: &Vec<Registration>,
    alive: &BTreeSet<u32>,
) -> (entries: Vec<IdentityAlive>)
    ensures
        alive_map_of(family@, bridges@, registrations@, alive@, entries@),
{
    let mut entries: Vec<IdentityAlive> = Vec::new();
    let mut index: usize = 0;
    while index < registrations.len()
        invariant
            index <= registrations@.len(),
            forall|i: int|
                0 <= i < entries@.len() ==> is_registered(
                    registrations@,
                    (#[trigger] entries@[i]).team@,
                    entries@[i].agent@,
                ) && entries@[i].alive == identity_alive(
                    family@,
                    bridges@,
                    registrations@,
                    entries@[i].team@,
                    entries@[i].agent@,
                    alive@,
                ),
            forall|i: int|
                0 <= i < index ==> lists_identity(
                    entries@,
                    (#[trigger] registrations@[i]).team@,
                    registrations@[i].agent@,
                ),
            forall|i: int, j: int|
                0 <= i < j < entries@.len() ==> (#[trigger] entries@[i]).team@ != (
                #[trigger] entries@[j]).team@ || entries@[i].agent@ != entries@[j].agent@,
        decreases registrations@.len() - index,
    {
        let team = registrations[index].team.as_str();
        let agent = registrations[index].agent.as_str();
        let ghost before = entries@;
        proof {
            assert(registrations@[index as int].team@ == team@);
            assert(is_registered(registrations@, team@, agent@));
        }
        match find_identity(&entries, team, agent) {
            Some(_) => {
                assert(lists_identity(entries@, team@, agent@));
            },
            None => {
                entries.push(
                    IdentityAlive {
                        team: team.to_owned(),
                        agent: agent.to_owned(),
                        alive: is_identity_alive(
                            family,
                            bridges,
                            registrations,
                            team,
                            agent,
                            alive,
                        ),
                    },
                );
                proof {
                    assert(entries@[before.len() as int].team@ == team@);
                    assert(lists_identity(entries@, team@, agent@));
                    assert forall|i: int| 0 <= i < index implies lists_identity(
                        entries@,
                        (#[trigger] registrations@[i]).team@,
                        registrations@[i].agent@,
                    ) by {
                        let k = choose|k: int|
                            0 <= k < before.len() && (#[trigger] before[k]).team@
                                == registrations@[i].team@ && before[k].agent@
                                == registrations@[i].agent@;
                        assert(entries@[k] == before[k]);
                    }
                }
            },
        }
        index += 1;
    }
    entries
}

/// In a project that agents of the same type share, a bridge that names no agent shows nobody to be
/// alive.
pub proof fn shared_projects_show_nobody(
    family: Seq<char>,
    bridge: pidfiles::BridgeView,
    registrations: Seq<Registration>,
    left: int,
    right: int,
    alive: Set<u32>,
)
    requires
        0 <= left < registrations.len(),
        0 <= right < registrations.len(),
        same_place(registrations[left], registrations[right]),
        !same_identity(registrations[left], registrations[right]),
        bridge.agent_hint is None,
    ensures
        !shows_alive(family, bridge, registrations, registrations[left], alive),
        !shows_alive(family, bridge, registrations, registrations[right], alive),
{
    assert(same_place(registrations[right], registrations[left]));
}

/// A bridge that names an agent shows no other agent to be alive, and one that names a team shows
/// nobody of another team to be alive.
pub proof fn hints_are_kept(
    family: Seq<char>,
    bridge: pidfiles::BridgeView,
    registrations: Seq<Registration>,
    registration: Registration,
    alive: Set<u32>,
)
    requires
        shows_alive(family, bridge, registrations, registration, alive),
    ensures
        bridge.agent_hint is Some ==> bridge.agent_hint == Some(registration.agent@),
        bridge.team_hint is Some ==> bridge.team_hint == Some(registration.team@),
        alive.contains(bridge.pid),
{
}

} // verus!
