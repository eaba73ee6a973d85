//! Which identities a bulk reset offers.

use crate::app::agents_screen;
use crate::bulk::naming;
use crate::bulk::naming::list_identities;
use crate::bulk::target;
use crate::bulk::{BulkTarget, ResetTarget};
use crate::db::{AgentIdentitySummary, AgentTeamSummary, StaleUnread, ZombieIdentity};
use crate::strings::{option_is, same_text};
use vstd::prelude::*;

verus! {

/// The identity has no recent traffic, or stale messages wait for it.
pub open spec fn is_candidate(
    zombies: Seq<ZombieIdentity>,
    stale: Seq<StaleUnread>,
    team: Seq<char>,
    name: Seq<char>,
) -> bool {
    ||| exists|i: int|
        0 <= i < zombies.len() && (#[trigger] zombies[i]).team@ == team && zombies[i].agent@ == name
    ||| exists|i: int|
        0 <= i < stale.len() && (#[trigger] stale[i]).team@ == team && stale[i].to_agent@ == name
}

/// The two are the same registration in the same team.
pub open spec fn same_place(left: AgentIdentitySummary, right: AgentIdentitySummary) -> bool {
    left.team@ == right.team@ && agents_screen::same_registration(left, right)
}

/// The registration is listed before `index` already.
pub open spec fn listed_before(identities: Seq<AgentIdentitySummary>, index: int) -> bool {
    exists|i: int| 0 <= i < index && same_place(#[trigger] identities[i], identities[index])
}

/// The identity at `index` is offered: it is a candidate, is not the own one, and is not listed
/// before.
pub open spec fn is_offered(
    identities: Seq<AgentIdentitySummary>,
    zombies: Seq<ZombieIdentity>,
    stale: Seq<StaleUnread>,
    own: Option<String>,
    index: int,
) -> bool {
    let identity = identities[index];
    &&& is_candidate(zombies, stale, identity.team@, identity.name@)
    &&& !agents_screen::is_own(own, identity.name@)
    &&& !listed_before(identities, index)
}

/// The positions of the offered identities among the first `count` ones.
pub open spec fn offered_positions(
    identities: Seq<AgentIdentitySummary>,
    zombies: Seq<ZombieIdentity>,
    stale: Seq<StaleUnread>,
    own: Option<String>,
    count: int,
) -> Seq<int>
    decreases count,
{
    if count <= 0 {
        Seq::empty()
    } else {
        let before = offered_positions(identities, zombies, stale, own, count - 1);
        if is_offered(identities, zombies, stale, own, count - 1) {
            before.push(count - 1)
        } else {
            before
        }
    }
}

/// The target resets the identity.
pub open spec fn resets(target: BulkTarget, identity: AgentIdentitySummary) -> bool {
    target matches BulkTarget::Reset(reset) && reset.team@ == identity.team@ && reset.agent@
        == identity.name@ && reset.agent_type@ == identity.agent_type@ && reset.project@
        == identity.project@
}

/// The targets reset the identities at the positions, in order.
pub open spec fn resets_all(
    targets: Seq<BulkTarget>,
    identities: Seq<AgentIdentitySummary>,
    positions: Seq<int>,
) -> bool {
    &&& targets.len() == positions.len()
    &&& forall|k: int|
        0 <= k < targets.len() ==> resets(#[trigger] targets[k], identities[positions[k]])
}

fn check_candidate(
    zombies: &Vec<ZombieIdentity>,
    stale: &Vec<StaleUnread>,
    team: &str,
    name: &str,
) -> (candidate: bool)
    ensures
        candidate == is_candidate(zombies@, stale@, team@, name@),
{
    let mut index: usize = 0;
    while index < zombies.len()
        invariant
            index <= zombies@.len(),
            forall|i: int|
                0 <= i < index ==> !((#[trigger] zombies@[i]).team@ == team@ && zombies@[i].agent@
                    == name@),
        decreases zombies@.len() - index,
    {
        if same_text(zombies[index].team.as_str(), team) && same_text(
            zombies[index].agent.as_str(),
            name,
        ) {
            assert(zombies@[index as int].team@ == team@);
            return true;
        }
        index += 1;
    }
    let mut index: usize = 0;
    while index < stale.len()
        invariant
            index <= stale@.len(),
            forall|i: int|
                0 <= i < zombies@.len() ==> !((#[trigger] zombies@[i]).team@ == team@
                    && zombies@[i].agent@ == name@),
            forall|i: int|
                0 <= i < index ==> !((#[trigger] stale@[i]).team@ == team@ && stale@[i].to_agent@
                    == name@),
        decreases stale@.len() - index,
    {
        if same_text(stale[index].team.as_str(), team) && same_text(
            stale[index].to_agent.as_str(),
            name,
        ) {
            assert(stale@[index as int].team@ == team@);
            return true;
        }
        index += 1;
    }
    false
}

fn check_listed_before(identities: &Vec<AgentIdentitySummary>, index: usize) -> (listed: bool)
    requires
        index < identities@.len(),
    ensures
        listed == listed_before(identities@, index as int),
{
    let identity = &identities[index];
    let mut other: usize = 0;
    while other < index
        invariant
            other <= index < identities@.len(),
            *identity == identities@[index as int],
            forall|i: int|
                0 <= i < other ==> !same_place(#[trigger] identities@[i], identities@[index as int]),
        decreases index - other,
    {
        let candidate = &identities[other];
        if same_text(candidate.team.as_str(), identity.team.as_str()) && same_text(
            candidate.name.as_str(),
            identity.name.as_str(),
        ) && same_text(candidate.agent_type.as_str(), identity.agent_type.as_str()) && same_text(
            candidate.project.as_str(),
            identity.project.as_str(),
        ) {
            assert(same_place(identities@[other as int], identities@[index as int]));
            return true;
        }
        other += 1;
    }
    false
}

/// Lists what a bulk reset offers: the identities without recent traffic and those for which stale
/// messages wait, each registration once, without the own one.
pub fn reset_targets(
    teams: &Vec<AgentTeamSummary>,
    zombies: &Vec<ZombieIdentity>,
    stale: &Vec<StaleUnread>,
    own: &Option<String>,
) -> (targets: Vec<BulkTarget>)
    ensures
        ({
            let identities = naming::all_identities(teams@);
            resets_all(
                targets@,
                identities,
                offered_positions(identities, zombies@, stale@, *own, identities.len() as int),
            )
        }),
        target::units_sum(targets@) == targets@.len(),
{
    let identities = list_identities(teams);
    let mut targets: Vec<BulkTarget> = Vec::new();
    let mut index: usize = 0;
    while index < identities.len()
        invariant
            index <= identities@.len(),
            resets_all(
                targets@,
                identities@,
                offered_positions(identities@, zombies@, stale@, *own, index as int),
            ),
        decreases identities@.len() - index,
    {
        let identity = &identities[index];
        let ghost before = targets@;
        if check_candidate(zombies, stale, identity.team.as_str(), identity.name.as_str())
            && !option_is(own, identity.name.as_str()) && !check_listed_before(&identities, index) {
            targets.push(
                BulkTarget::Reset(
                    ResetTarget {
                        team: identity.team.clone(),
                        agent: identity.name.clone(),
                        agent_type: identity.agent_type.clone(),
                        project: identity.project.clone(),
                    },
                ),
            );
            proof {
                let positions = offered_positions(
                    identities@,
                    zombies@,
                    stale@,
                    *own,
                    index as int,
                );
                let longer = offered_positions(identities@, zombies@, stale@, *own, index + 1);
                assert(longer == positions.push(index as int));
                assert forall|k: int| 0 <= k < targets@.len() implies resets(
                    #[trigger] targets@[k],
                    identities@[longer[k]],
                ) by {
                    if k < before.len() {
                        assert(targets@[k] == before[k]);
                        assert(longer[k] == positions[k]);
                    }
                }
            }
        }
        index += 1;
    }
    proof {
        assert forall|i: int| 0 <= i < targets@.len() implies !(
        #[trigger] targets@[i] is MarkRead) by {}
        target::units_of_single(targets@);
    }
    targets
}

proof fn offered_is_offered(
    identities: Seq<AgentIdentitySummary>,
    zombies: Seq<ZombieIdentity>,
    stale: Seq<StaleUnread>,
    own: Option<String>,
    count: int,
    k: int,
)
    requires
        0 <= k < offered_positions(identities, zombies, stale, own, count).len(),
    ensures
        ({
            let place = offered_positions(identities, zombies, stale, own, count)[k];
            0 <= place < count && is_offered(identities, zombies, stale, own, place)
        }),
    decreases count,
{
    let before = offered_positions(identities, zombies, stale, own, count - 1);
    if k < before.len() {
        offered_is_offered(identities, zombies, stale, own, count - 1, k);
    }
}

/// A bulk reset never offers the own identity.
pub proof fn own_identity_is_never_offered(
    targets: Seq<BulkTarget>,
    identities: Seq<AgentIdentitySummary>,
    zombies: Seq<ZombieIdentity>,
    stale: Seq<StaleUnread>,
    own: Option<String>,
    k: int,
)
    requires
        resets_all(
            targets,
            identities,
            offered_positions(identities, zombies, stale, own, identities.len() as int),
        ),
        0 <= k < targets.len(),
    ensures
        targets[k] matches BulkTarget::Reset(reset) && !agents_screen::is_own(own, reset.agent@),
{
    offered_is_offered(identities, zombies, stale, own, identities.len() as int, k);
    assert(resets(
        targets[k],
        identities[offered_positions(identities, zombies, stale, own, identities.len() as int)[k]],
    ));
}

} // verus!
