//! Names: which ones break the rules, and what is offered in their place.

use crate::agents;
use crate::bulk::naming;
use crate::db;
use crate::db::{AgentIdentitySummary, AgentTeamSummary};
use crate::strings;
use vstd::prelude::*;

verus! {

/// Nobody is told to be renamed whose type is not known.
pub proof fn unknown_types_break_no_rule(family: Seq<char>, identity: AgentIdentitySummary)
    requires
        identity.agent_type@ == "-"@,
    ensures
        !naming::is_violation(family, identity),
{
}

/// A name breaks the rules if it is the bare type or the bare family, ends in a hyphen and a number,
/// or is the lead's helper with a number.
pub proof fn bare_and_numbered_names_break_the_rules(
    family: Seq<char>,
    identity: AgentIdentitySummary,
    stem: Seq<char>,
    number: nat,
)
    requires
        identity.agent_type@ != "-"@,
        identity.name@ == identity.agent_type@ || identity.name@ == family || identity.name@ == stem
            + "-"@ + strings::decimal(number) || identity.name@ == family + "-sub"@
            + strings::decimal(number),
    ensures
        naming::is_violation(family, identity),
{
    reveal_strlit("-");
    reveal_strlit("-sub");
    let name = identity.name@;
    let digits = strings::decimal(number);
    crate::lines::decimal_is_digits(number);
    if name == stem + "-"@ + digits {
        let i = stem.len() as int;
        assert(name[i] == '-');
        assert(name.skip(i + 1) =~= digits);
        assert(naming::has_numbered_suffix(name));
    }
    if name == family + "-sub"@ + digits {
        let helper = agents::lead_helper(family);
        assert(helper =~= name.subrange(0, helper.len() as int));
        assert(name.skip(helper.len() as int) =~= digits);
        assert(naming::is_numbered_sub(family, name));
    }
}

/// A name of a known type that is the type, a hyphen, and a role in lower-case letters keeps the
/// rules, unless it is the name of the family or shorter than three bytes.
pub proof fn types_with_a_role_keep_the_rules(
    family: Seq<char>,
    identity: AgentIdentitySummary,
    role: Seq<char>,
)
    requires
        identity.agent_type@.len() > 0,
        identity.agent_type@ != "-"@,
        identity.agent_type@[0] != '-',
        forall|i: int|
            0 <= i < identity.agent_type@.len() ==> !agents::is_forbidden_char(
                #[trigger] identity.agent_type@[i],
            ) && !strings::is_digit(identity.agent_type@[i]),
        role.len() > 0,
        forall|i: int| 0 <= i < role.len() ==> strings::is_lower(#[trigger] role[i]),
        identity.name@ == identity.agent_type@ + "-"@ + role,
        identity.name@ != family,
        vstd::utf8::encode_utf8(identity.name@).len() >= 3,
    ensures
        !naming::is_violation(family, identity),
{
    reveal_strlit("-");
    reveal_strlit(".");
    reveal_strlit("..");
    let kind = identity.agent_type@;
    let name = identity.name@;
    assert(name.len() == kind.len() + 1 + role.len());
    assert(forall|i: int| 0 <= i < kind.len() ==> name[i] == kind[i]);
    assert(name[kind.len() as int] == '-');
    assert(forall|i: int| 0 <= i < role.len() ==> name[kind.len() + 1 + i] == role[i]);
    assert(name.last() == role.last());
    assert(role[role.len() - 1] == role.last());
    assert(strings::is_lower(name.last()) && !strings::is_digit(name.last()));
    if naming::has_numbered_suffix(name) {
        let i = choose|i: int|
            0 <= i < name.len() - 1 && #[trigger] name[i] == '-' && agents::all_digits(
                name.skip(i + 1),
            );
        let rest = name.skip(i + 1);
        assert(rest[rest.len() - 1] == name.last());
    }
    if naming::is_numbered_sub(family, name) {
        let rest = name.skip(agents::lead_helper(family).len() as int);
        assert(rest[rest.len() - 1] == name.last());
    }
    assert(agents::role_of(name, kind) =~= role);
    assert(kind.push('-') =~= name.subrange(0, kind.len() as int + 1));
    assert(strings::is_digit(role[0]) ==> false);
    if agents::all_digits(role) {
        assert(strings::is_digit(role[0]));
    }
    assert(name[0] == kind[0]);
    assert(!agents::is_dot_name(name)) by {
        if agents::is_dot_name(name) {
            assert(name[kind.len() as int] == '.');
        }
    }
    assert forall|i: int| 0 <= i < name.len() implies !agents::is_forbidden_char(
        #[trigger] name[i],
    ) by {
        if i < kind.len() {
            assert(!agents::is_forbidden_char(kind[i]));
        } else if i > kind.len() {
            assert(strings::is_lower(role[i - kind.len() - 1]));
        }
    }
    assert forall|i: int| 0 <= i < role.len() implies agents::is_role_char(#[trigger] role[i]) by {
    }
}

/// The identities that are offered a new name are exactly those that break the rules, each once, in
/// the order in which the teams list them.
pub proof fn every_violation_is_offered_once(
    family: Seq<char>,
    identities: Seq<AgentIdentitySummary>,
    count: int,
)
    requires
        0 <= count <= identities.len(),
    ensures
        ({
            let positions = naming::violation_positions(family, identities, count);
            &&& forall|k: int|
                0 <= k < positions.len() ==> 0 <= #[trigger] positions[k] < count
                    && naming::is_violation(family, identities[positions[k]])
                    && !naming::seen_earlier(identities, positions[k])
            &&& forall|j: int, k: int|
                0 <= j < k < positions.len() ==> #[trigger] positions[j] < #[trigger] positions[k]
            &&& forall|p: int|
                0 <= p < count && naming::is_violation(family, #[trigger] identities[p])
                    && !naming::seen_earlier(identities, p) ==> positions.contains(p)
        }),
    decreases count,
{
    if count > 0 {
        every_violation_is_offered_once(family, identities, count - 1);
        let before = naming::violation_positions(family, identities, count - 1);
        let positions = naming::violation_positions(family, identities, count);
        assert forall|p: int|
            0 <= p < count && naming::is_violation(family, #[trigger] identities[p])
                && !naming::seen_earlier(identities, p) implies positions.contains(p) by {
            if p < count - 1 {
                assert(before.contains(p));
                let k = choose|k: int| 0 <= k < before.len() && before[k] == p;
                assert(positions[k] == p);
            } else {
                assert(positions[positions.len() - 1] == p);
            }
        }
    }
}

/// A new name is the type and `worker`, with the smallest number from two on behind it if that is
/// taken in the team.
pub proof fn suggestions_are_the_first_free(
    name: Seq<char>,
    identity: AgentIdentitySummary,
    teams: Seq<AgentTeamSummary>,
    smaller: nat,
)
    requires
        naming::is_suggestion(name, identity, teams),
        identity.agent_type@ != "-"@,
    ensures
        ({
            let used = naming::team_identities(teams, identity.team@);
            let plain = identity.agent_type@ + "-worker"@;
            &&& !db::has_identity(used, plain) ==> name == plain
            &&& db::has_identity(used, plain) ==> exists|number: nat|
                2 <= number && name == plain + "-"@ + #[trigger] strings::decimal(number)
            &&& db::has_identity(used, plain) && !db::has_identity(
                used,
                plain + "-"@ + strings::decimal(2),
            ) ==> name == plain + "-"@ + strings::decimal(2)
            &&& db::has_identity(used, plain) && 2 <= smaller && name == plain + "-"@
                + strings::decimal(smaller + 1) ==> db::has_identity(
                used,
                plain + "-"@ + strings::decimal(smaller),
            )
        }),
{
    let used = naming::team_identities(teams, identity.team@);
    let plain = identity.agent_type@ + "-worker"@;
    if db::has_identity(used, plain) {
        let number = choose|number: nat|
            2 <= number && name == #[trigger] naming::numbered_name(plain, number)
                && !db::has_identity(used, name) && forall|lower: nat|
                2 <= lower < number ==> db::has_identity(
                    used,
                    #[trigger] naming::numbered_name(plain, lower),
                );
        assert(name == plain + "-"@ + strings::decimal(number));
        if number > 2 {
            assert(db::has_identity(used, naming::numbered_name(plain, 2)));
        }
        if 2 <= smaller && name == plain + "-"@ + strings::decimal(smaller + 1) {
            let head = plain + "-"@;
            assert(name.skip(head.len() as int) =~= strings::decimal(number));
            assert(name.skip(head.len() as int) =~= strings::decimal(smaller + 1));
            strings::decimal_injective(number, smaller + 1);
            assert(db::has_identity(used, naming::numbered_name(plain, smaller)));
        }
    }
}

/// A team's names are looked up in that team.
pub proof fn teams_keep_their_names(teams: Seq<AgentTeamSummary>, team: Seq<char>, k: int)
    requires
        db::first_team(teams, team, k),
    ensures
        naming::team_identities(teams, team) == teams[k].identities@,
{
    let index = choose|index: int| db::first_team(teams, team, index);
    assert(teams[k].name@ == team);
    assert(db::first_team(teams, team, index));
    if index < k {
        assert(teams[index].name@ != team);
    } else if k < index {
        assert(teams[k].name@ != team);
    }
}

/// The identities of all teams are those of each team, one team after the other.
pub proof fn teams_are_listed_one_by_one(teams: Seq<AgentTeamSummary>, last: AgentTeamSummary)
    ensures
        naming::all_identities(Seq::empty()).len() == 0,
        naming::all_identities(teams.push(last)) == naming::all_identities(teams)
            + last.identities@,
{
    assert(teams.push(last).drop_last() =~= teams);
}

} // verus!
