//! Agents whose names break the naming rules, and the names proposed for them.

use crate::agents;
use crate::agents::{is_all_digits, validate_agent_name};
use crate::bulk::target::RenameTarget;
use crate::db;
use crate::db::{identity_position, team_position, AgentIdentitySummary, AgentTeamSummary};
use crate::search::strip_prefix;
use crate::strings;
use crate::strings::{chars_of, concat2, concat3, decimal_u128, same_text, string_of};
use vstd::prelude::*;

verus! {

/// The identities of all teams, team by team.
pub open spec fn all_identities(teams: Seq<AgentTeamSummary>) -> Seq<AgentIdentitySummary>
    decreases teams.len(),
{
    if teams.len() == 0 {
        Seq::empty()
    } else {
        all_identities(teams.drop_last()) + teams.last().identities@
    }
}

/// The identities of all teams, team by team.
pub fn list_identities(teams: &Vec<AgentTeamSummary>) -> (identities: Vec<AgentIdentitySummary>)
    ensures
        identities@ == all_identities(teams@),
{
    let mut identities: Vec<AgentIdentitySummary> = Vec::new();
    let mut index: usize = 0;
    proof {
        assert(teams@.take(0) =~= Seq::empty());
        assert(identities@ =~= all_identities(teams@.take(0)));
    }
    while index < teams.len()
        invariant
            index <= teams@.len(),
            identities@ == all_identities(teams@.take(index as int)),
        decreases teams@.len() - index,
    {
        let ghost before = identities@;
        let team = &teams[index];
        let mut row: usize = 0;
        while row < team.identities.len()
            invariant
                row <= team.identities@.len(),
                identities@ == before + team.identities@.take(row as int),
            decreases team.identities@.len() - row,
        {
            identities.push(team.identities[row].clone());
            row += 1;
            proof {
                assert(identities@ =~= before + team.identities@.take(row as int));
            }
        }
        proof {
            assert(team.identities@.take(row as int) =~= team.identities@);
            assert(teams@.take(index + 1).drop_last() =~= teams@.take(index as int));
        }
        index += 1;
    }
    proof {
        assert(teams@.take(index as int) =~= teams@);
    }
    identities
}

/// The name ends in a hyphen and a number.
pub open spec fn has_numbered_suffix(name: Seq<char>) -> bool {
    exists|i: int|
        0 <= i < name.len() - 1 && #[trigger] name[i] == '-' && agents::all_digits(name.skip(i + 1))
}

/// The name is that of a numbered helper of the lead family.
pub open spec fn is_numbered_sub(family: Seq<char>, name: Seq<char>) -> bool {
    let helper = agents::lead_helper(family);
    &&& helper.is_prefix_of(name)
    &&& name.len() > helper.len()
    &&& agents::all_digits(name.skip(helper.len() as int))
}

/// The name breaks the naming rules: no role, too short, numbered, or not valid for the agent
/// type. An agent of unknown type is left alone.
pub open spec fn is_violation(family: Seq<char>, identity: AgentIdentitySummary) -> bool {
    let name = identity.name@;
    &&& identity.agent_type@ != "-"@
    &&& {
        ||| name == identity.agent_type@
        ||| name == family
        ||| vstd::utf8::encode_utf8(name).len() < 3
        ||| has_numbered_suffix(name)
        ||| is_numbered_sub(family, name)
        ||| agents::agent_name_error(name, identity.agent_type@) is Some
    }
}

fn numbered_suffix(name: &str) -> (found: bool)
    ensures
        found == has_numbered_suffix(name@),
{
    let chars = chars_of(name);
    let mut index: usize = chars.len();
    while index > 0
        invariant
            index <= chars@.len(),
            chars@ == name@,
            forall|i: int| index <= i < chars@.len() ==> chars@[i] != '-',
        decreases index,
    {
        index -= 1;
        if chars[index] == '-' {
            let suffix = string_of(&chars, index + 1, chars.len());
            proof {
                assert(suffix@ =~= name@.skip(index + 1));
                if has_numbered_suffix(name@) {
                    let i = choose|i: int|
                        0 <= i < name@.len() - 1 && #[trigger] name@[i] == '-'
                            && agents::all_digits(name@.skip(i + 1));
                    if i < index {
                        assert(name@.skip(i + 1)[index - i - 1] == '-');
                        assert(!strings::is_digit('-'));
                        assert(false);
                    }
                    assert(i == index);
                }
            }
            let digits = is_all_digits(suffix.as_str());
            return index + 1 < chars.len() && digits;
        }
    }
    false
}

fn numbered_sub(family: &str, name: &str) -> (found: bool)
    ensures
        found == is_numbered_sub(family@, name@),
{
    let helper = concat2(family, "-sub");
    match strip_prefix(name, helper.as_str()) {
        Some(rest) => !rest.as_str().is_empty() && is_all_digits(rest.as_str()),
        None => false,
    }
}

/// Whether the name of an identity breaks the naming rules.
pub fn is_naming_violation(family: &str, identity: &AgentIdentitySummary) -> (violation: bool)
    ensures
        violation == is_violation(family@, *identity),
{
    if same_text(identity.agent_type.as_str(), "-") {
        return false;
    }
    let name = identity.name.as_str();
    same_text(name, identity.agent_type.as_str()) || same_text(name, family) || utf8_len(name) < 3
        || numbered_suffix(name) || numbered_sub(family, name) || validate_agent_name(
        name,
        identity.agent_type.as_str(),
    ).is_err()
}

/// The length of a text in UTF-8.
pub fn utf8_len(text: &str) -> (length: usize)
    ensures
        length == vstd::utf8::encode_utf8(text@).len(),
{
    text.as_bytes().len()
}

/// The name proposed first: the agent type and the role of a worker.
pub open spec fn base_name(identity: AgentIdentitySummary) -> Seq<char> {
    (if identity.agent_type@ == "-"@ {
        "agent"@
    } else {
        identity.agent_type@
    }) + "-worker"@
}

/// The proposal with a number.
pub open spec fn numbered_name(base: Seq<char>, number: nat) -> Seq<char> {
    base + "-"@ + strings::decimal(number)
}

/// The identities of the first team of the name; none if there is no such team.
pub open spec fn team_identities(teams: Seq<AgentTeamSummary>, team: Seq<char>) -> Seq<
    AgentIdentitySummary,
> {
    if db::has_team(teams, team) {
        let index = choose|index: int| db::first_team(teams, team, index);
        teams[index].identities@
    } else {
        Seq::empty()
    }
}

/// The proposed name: the first one that the team does not use yet.
pub open spec fn is_suggestion(
    name: Seq<char>,
    identity: AgentIdentitySummary,
    teams: Seq<AgentTeamSummary>,
) -> bool {
    let used = team_identities(teams, identity.team@);
    let base = base_name(identity);
    if !db::has_identity(used, base) {
        name == base
    } else {
        exists|number: nat|
            2 <= number && name == #[trigger] numbered_name(base, number) && !db::has_identity(
                used,
                name,
            ) && forall|smaller: nat|
                2 <= smaller < number ==> db::has_identity(
                    used,
                    #[trigger] numbered_name(base, smaller),
                )
    }
}

/// A proposed name is not in use in its team.
pub proof fn suggestion_is_free(
    name: Seq<char>,
    identity: AgentIdentitySummary,
    teams: Seq<AgentTeamSummary>,
)
    requires
        is_suggestion(name, identity, teams),
    ensures
        !db::has_identity(team_identities(teams, identity.team@), name),
{
}

proof fn numbered_name_injective(base: Seq<char>, a: nat, b: nat)
    requires
        numbered_name(base, a) == numbered_name(base, b),
    ensures
        a == b,
{
    let prefix = base + "-"@;
    let cut = prefix.len() as int;
    assert(numbered_name(base, a).skip(cut) =~= strings::decimal(a));
    assert(numbered_name(base, b).skip(cut) =~= strings::decimal(b));
    strings::decimal_injective(a, b);
}

/// No more numbered names can be in use than there are identities.
proof fn used_numbers_bounded(used: Seq<AgentIdentitySummary>, base: Seq<char>, count: nat)
    requires
        forall|number: nat|
            2 <= number < count + 2 ==> db::has_identity(
                used,
                #[trigger] numbered_name(base, number),
            ),
    ensures
        count <= used.len(),
    decreases count,
{
    if count > 0 {
        let last = (count + 1) as nat;
        let name = numbered_name(base, last);
        assert(db::has_identity(used, name));
        let p = choose|p: int| 0 <= p < used.len() && #[trigger] used[p].name@ == name;
        let rest = used.remove(p);
        assert forall|number: nat| 2 <= number < (count - 1) + 2 implies db::has_identity(
            rest,
            #[trigger] numbered_name(base, number),
        ) by {
            let wanted = numbered_name(base, number);
            assert(db::has_identity(used, wanted));
            let q = choose|q: int| 0 <= q < used.len() && #[trigger] used[q].name@ == wanted;
            if q == p {
                numbered_name_injective(base, number, last);
            }
            if q < p {
                assert(rest[q].name@ == wanted);
            } else {
                assert(rest[q - 1].name@ == wanted);
            }
        }
        used_numbers_bounded(rest, base, (count - 1) as nat);
    }
}

fn free_number(used: &Vec<AgentIdentitySummary>, base: &str) -> (name: String)
    ensures
        exists|number: nat|
            2 <= number && name@ == #[trigger] numbered_name(base@, number) && !db::has_identity(
                used@,
                name@,
            ) && forall|smaller: nat|
                2 <= smaller < number ==> db::has_identity(
                    used@,
                    #[trigger] numbered_name(base@, smaller),
                ),
{
    let limit: u128 = used.len() as u128 + 3;
    let mut number: u128 = 2;
    loop
        invariant
            2 <= number < limit,
            limit == used@.len() + 3,
            forall|smaller: nat|
                2 <= smaller < number ==> db::has_identity(
                    used@,
                    #[trigger] numbered_name(base@, smaller),
                ),
        decreases limit - number,
    {
        let digits = decimal_u128(number);
        let candidate = concat3(base, "-", digits.as_str());
        assert(candidate@ == numbered_name(base@, number as nat));
        if identity_position(used, candidate.as_str()).is_none() {
            return candidate;
        }
        number += 1;
        proof {
            if number == limit {
                used_numbers_bounded(used@, base@, (number - 2) as nat);
            }
        }
    }
}

/// The first name of the agent type's workers that the team does not use yet.
pub fn suggested_name(identity: &AgentIdentitySummary, teams: &Vec<AgentTeamSummary>) -> (name:
    String)
    ensures
        is_suggestion(name@, *identity, teams@),
{
    let prefix = if same_text(identity.agent_type.as_str(), "-") {
        "agent"
    } else {
        identity.agent_type.as_str()
    };
    let base = concat2(prefix, "-worker");
    match team_position(teams, identity.team.as_str()) {
        None => base,
        Some(index) => {
            proof {
                let chosen = choose|i: int| db::first_team(teams@, identity.team@, i);
                assert(db::first_team(teams@, identity.team@, index as int));
                assert(db::first_team(teams@, identity.team@, chosen));
                if chosen < index {
                    assert(teams@[chosen].name@ != identity.team@);
                } else if index < chosen {
                    assert(teams@[index as int].name@ != identity.team@);
                }
                assert(teams@[index as int].name@ == identity.team@);
            }
            let used = &teams[index].identities;
            if identity_position(used, base.as_str()).is_none() {
                base
            } else {
                free_number(used, base.as_str())
            }
        },
    }
}

/// An identity of the same team and name stands earlier in the list.
pub open spec fn seen_earlier(identities: Seq<AgentIdentitySummary>, index: int) -> bool {
    exists|j: int|
        0 <= j < index && #[trigger] identities[j].team@ == identities[index].team@
            && identities[j].name@ == identities[index].name@
}

/// The positions of the agents whose names break the rules, each agent of a team once.
pub open spec fn violation_positions(
    family: Seq<char>,
    identities: Seq<AgentIdentitySummary>,
    count: int,
) -> Seq<int>
    decreases count,
{
    if count <= 0 {
        Seq::empty()
    } else {
        let before = violation_positions(family, identities, count - 1);
        if !seen_earlier(identities, count - 1) && is_violation(family, identities[count - 1]) {
            before.push(count - 1)
        } else {
            before
        }
    }
}

/// The target renames the identity to the name proposed for it.
pub open spec fn renames(
    target: RenameTarget,
    identity: AgentIdentitySummary,
    teams: Seq<AgentTeamSummary>,
) -> bool {
    &&& target.team@ == identity.team@
    &&& target.old@ == identity.name@
    &&& target.agent_type@ == identity.agent_type@
    &&& is_suggestion(target.new@, identity, teams)
}

pub(crate) fn occurs_earlier(identities: &Vec<AgentIdentitySummary>, index: usize) -> (found: bool)
    requires
        index < identities@.len(),
    ensures
        found == seen_earlier(identities@, index as int),
{
    let mut j: usize = 0;
    while j < index
        invariant
            j <= index < identities@.len(),
            forall|k: int|
                0 <= k < j ==> !(#[trigger] identities@[k].team@ == identities@[index as int].team@
                    && identities@[k].name@ == identities@[index as int].name@),
        decreases index - j,
    {
        if same_text(identities[j].team.as_str(), identities[index].team.as_str()) && same_text(
            identities[j].name.as_str(),
            identities[index].name.as_str(),
        ) {
            return true;
        }
        j += 1;
    }
    false
}

/// The agents whose names break the naming rules, each with a proposed name.
pub fn naming_violations(family: &str, teams: &Vec<AgentTeamSummary>) -> (targets: Vec<
    RenameTarget,
>)
    ensures
        ({
            let identities = all_identities(teams@);
            let positions = violation_positions(family@, identities, identities.len() as int);
            &&& targets@.len() == positions.len()
            &&& forall|k: int|
                0 <= k < positions.len() ==> renames(
                    #[trigger] targets@[k],
                    identities[positions[k]],
                    teams@,
                )
        }),
{
    let identities = list_identities(teams);
    let mut targets: Vec<RenameTarget> = Vec::new();
    let mut index: usize = 0;
    while index < identities.len()
        invariant
            index <= identities@.len(),
            identities@ == all_identities(teams@),
            targets@.len() == violation_positions(family@, identities@, index as int).len(),
            forall|k: int|
                0 <= k < targets@.len() ==> renames(
                    #[trigger] targets@[k],
                    identities@[violation_positions(family@, identities@, index as int)[k]],
                    teams@,
                ),
        decreases identities@.len() - index,
    {
        let ghost before = targets@;
        if !occurs_earlier(&identities, index) && is_naming_violation(family, &identities[index]) {
            let identity = &identities[index];
            targets.push(
                RenameTarget {
                    team: identity.team.clone(),
                    old: identity.name.clone(),
                    new: suggested_name(identity, teams),
                    agent_type: identity.agent_type.clone(),
                },
            );
        }
        index += 1;
        proof {
            let positions = violation_positions(family@, identities@, index as int);
            assert forall|k: int| 0 <= k < targets@.len() implies renames(
                #[trigger] targets@[k],
                identities@[positions[k]],
                teams@,
            ) by {
                if k < before.len() {
                    assert(targets@[k] == before[k]);
                }
            }
        }
    }
    targets
}

} // verus!
