//! Who wrote to whom, and who has fallen silent.

use crate::db::traffic;
use crate::db::traffic::row_count;
use crate::db::{Database, PairCount, PairMatrix, ZombieIdentity};
use crate::health::snapshot;
use crate::health::SilentIdentity;
use crate::order;
use crate::order::insert_sorted;
use crate::search;
use crate::strings::same_text;
use vstd::prelude::*;

verus! {

/// By how many percent of the larger count two counts may differ.
pub const PAIR_ASYMMETRY_PERCENT: u128 = 20;

/// How many messages the store counts from one agent to another in a team.
#[derive(Debug, PartialEq, Eq)]
pub struct PairRow {
    pub team: String,
    pub from: String,
    pub to: String,
    pub count: i64,
}

/// The count that was noted last for a pair; zero if there is none.
pub open spec fn pair_count(counts: Seq<PairCount>, from: Seq<char>, to: Seq<char>) -> usize
    decreases counts.len(),
{
    if counts.len() == 0 {
        0
    } else if counts.last().from@ == from && counts.last().to@ == to {
        counts.last().count
    } else {
        pair_count(counts.drop_last(), from, to)
    }
}

/// Two counts differ by more than is tolerated.
pub open spec fn lopsided(forward: int, reverse: int) -> bool {
    let larger = if forward > reverse {
        forward
    } else {
        reverse
    };
    let smaller = if forward > reverse {
        reverse
    } else {
        forward
    };
    100 * (larger - smaller) > PAIR_ASYMMETRY_PERCENT * larger
}

impl PairMatrix {
    /// How many messages went from one agent to another.
    pub open spec fn pair(self, from: Seq<char>, to: Seq<char>) -> usize {
        pair_count(self.counts@, from, to)
    }

    /// How many messages went from one agent to another.
    pub fn count(&self, from: &str, to: &str) -> (count: usize)
        ensures
            count == self.pair(from@, to@),
    {
        let mut end: usize = self.counts.len();
        proof {
            assert(self.counts@.take(end as int) =~= self.counts@);
        }
        while end > 0
            invariant
                end <= self.counts@.len(),
                pair_count(self.counts@.take(end as int), from@, to@) == self.pair(from@, to@),
            decreases end,
        {
            let pair = &self.counts[end - 1];
            proof {
                assert(self.counts@.take(end as int).drop_last() =~= self.counts@.take(end - 1));
            }
            if same_text(pair.from.as_str(), from) && same_text(pair.to.as_str(), to) {
                return pair.count;
            }
            end -= 1;
        }
        0
    }

    /// Whether two agents write to each other in unequal measure: the counts differ by more than a
    /// fifth of the larger one.
    pub fn is_asymmetric(&self, from: &str, to: &str) -> (result: bool)
        ensures
            result == (from@ != to@ && lopsided(
                self.pair(from@, to@) as int,
                self.pair(to@, from@) as int,
            )),
    {
        if same_text(from, to) {
            return false;
        }
        let forward = self.count(from, to) as u128;
        let reverse = self.count(to, from) as u128;
        if forward > reverse {
            100 * (forward - reverse) > PAIR_ASYMMETRY_PERCENT * forward
        } else {
            100 * (reverse - forward) > PAIR_ASYMMETRY_PERCENT * reverse
        }
    }
}

/// An agent has traffic in a team, as sender or as recipient.
pub open spec fn has_traffic(rows: Seq<PairRow>, team: Seq<char>, agent: Seq<char>) -> bool {
    exists|i: int|
        0 <= i < rows.len() && (#[trigger] rows[i]).team@ == team && (rows[i].from@ == agent
            || rows[i].to@ == agent)
}

/// A team has traffic.
pub open spec fn team_has_traffic(rows: Seq<PairRow>, team: Seq<char>) -> bool {
    exists|i: int| 0 <= i < rows.len() && (#[trigger] rows[i]).team@ == team
}

/// What the rows count from one agent to another in a team; a row that counts nothing is passed
/// over.
pub open spec fn counted(
    rows: Seq<PairRow>,
    team: Seq<char>,
    from: Seq<char>,
    to: Seq<char>,
) -> usize
    decreases rows.len(),
{
    if rows.len() == 0 {
        0
    } else if rows.last().team@ == team && rows.last().from@ == from && rows.last().to@ == to
        && traffic::counted_rows(rows.last().count) > 0 {
        traffic::counted_rows(rows.last().count)
    } else {
        counted(rows.drop_last(), team, from, to)
    }
}

/// The matrix holds what the rows say of its team, and no count of zero.
pub open spec fn matrix_of(rows: Seq<PairRow>, matrix: PairMatrix) -> bool {
    &&& order::strictly_sorted(matrix.agents@)
    &&& forall|agent: Seq<char>| #[trigger]
        search::lists(matrix.agents@, agent) <==> has_traffic(rows, matrix.team@, agent)
    &&& forall|from: Seq<char>, to: Seq<char>| #[trigger]
        matrix.pair(from, to) == counted(rows, matrix.team@, from, to)
    &&& forall|k: int|
        0 <= k < matrix.counts@.len() ==> (#[trigger] matrix.counts@[k]).count > 0
}

/// There is one matrix for each team with traffic, in the order of the teams' names.
pub open spec fn matrices_of(rows: Seq<PairRow>, matrices: Seq<PairMatrix>) -> bool {
    &&& forall|i: int, j: int|
        0 <= i < j < matrices.len() ==> order::text_less(
            (#[trigger] matrices[i]).team@,
            (#[trigger] matrices[j]).team@,
        )
    &&& forall|i: int| 0 <= i < matrices.len() ==> #[trigger] matrix_of(rows, matrices[i])
    &&& forall|i: int|
        0 <= i < matrices.len() ==> team_has_traffic(rows, (#[trigger] matrices[i]).team@)
    &&& forall|team: Seq<char>| #[trigger]
        team_has_traffic(rows, team) ==> exists|i: int|
            0 <= i < matrices.len() && (#[trigger] matrices[i]).team@ == team
}

fn team_matrix(rows: &Vec<PairRow>, team: &str) -> (matrix: PairMatrix)
    ensures
        matrix.team@ == team@,
        matrix_of(rows@, matrix),
{
    let mut agents: Vec<String> = Vec::new();
    let mut counts: Vec<PairCount> = Vec::new();
    let mut index: usize = 0;
    proof {
        assert(rows@.take(0) =~= Seq::empty());
    }
    while index < rows.len()
        invariant
            index <= rows@.len(),
            order::strictly_sorted(agents@),
            forall|agent: Seq<char>| #[trigger]
                search::lists(agents@, agent) <==> has_traffic(
                    rows@.take(index as int),
                    team@,
                    agent,
                ),
            forall|from: Seq<char>, to: Seq<char>| #[trigger]
                pair_count(counts@, from, to) == counted(
                    rows@.take(index as int),
                    team@,
                    from,
                    to,
                ),
            forall|k: int| 0 <= k < counts@.len() ==> (#[trigger] counts@[k]).count > 0,
        decreases rows@.len() - index,
    {
        let row = &rows[index];
        let ghost before = rows@.take(index as int);
        let ghost after = rows@.take(index + 1);
        proof {
            assert(after.drop_last() =~= before);
            assert(after.last() == *row);
            assert forall|agent: Seq<char>| #[trigger]
                has_traffic(after, team@, agent) <==> has_traffic(before, team@, agent) || (
                row.team@ == team@ && (row.from@ == agent || row.to@ == agent)) by {
                if has_traffic(before, team@, agent) {
                    let i = choose|i: int|
                        0 <= i < before.len() && (#[trigger] before[i]).team@ == team@ && (
                        before[i].from@ == agent || before[i].to@ == agent);
                    assert(after[i] == before[i]);
                }
                if row.team@ == team@ && (row.from@ == agent || row.to@ == agent) {
                    assert(after[index as int] == *row);
                }
                if has_traffic(after, team@, agent) {
                    let i = choose|i: int|
                        0 <= i < after.len() && (#[trigger] after[i]).team@ == team@ && (
                        after[i].from@ == agent || after[i].to@ == agent);
                    if i < index {
                        assert(before[i] == after[i]);
                    }
                }
            }
        }
        if same_text(row.team.as_str(), team) {
            insert_sorted(&mut agents, row.from.clone());
            insert_sorted(&mut agents, row.to.clone());
            let ghost noted = counts@;
            let count: usize = row_count(row.count);
            if count > 0 {
                counts.push(PairCount { from: row.from.clone(), to: row.to.clone(), count });
                assert(counts@.drop_last() =~= noted);
            }
            proof {
                assert forall|from: Seq<char>, to: Seq<char>| #[trigger]
                    pair_count(counts@, from, to) == counted(after, team@, from, to) by {
                    assert(pair_count(noted, from, to) == counted(before, team@, from, to));
                }
            }
        } else {
            proof {
                assert forall|from: Seq<char>, to: Seq<char>| #[trigger]
                    pair_count(counts@, from, to) == counted(after, team@, from, to) by {
                    assert(counted(after, team@, from, to) == counted(before, team@, from, to));
                }
            }
        }
        index += 1;
    }
    proof {
        assert(rows@.take(index as int) =~= rows@);
    }
    PairMatrix { team: team.to_owned(), agents, counts }
}

impl Database {
    /// Makes the matrices of all teams with traffic.
    pub fn pair_matrices(rows: &Vec<PairRow>) -> (matrices: Vec<PairMatrix>)
        ensures
            matrices_of(rows@, matrices@),
    {
        let mut teams: Vec<String> = Vec::new();
        let mut index: usize = 0;
        while index < rows.len()
            invariant
                index <= rows@.len(),
                order::strictly_sorted(teams@),
                forall|team: Seq<char>| #[trigger]
                    search::lists(teams@, team) ==> team_has_traffic(rows@, team),
                forall|i: int| 0 <= i < index ==> search::lists(teams@, (#[trigger] rows@[i]).team@),
            decreases rows@.len() - index,
        {
            let ghost before = teams@;
            insert_sorted(&mut teams, rows[index].team.clone());
            proof {
                assert(team_has_traffic(rows@, rows@[index as int].team@));
                assert forall|i: int| 0 <= i < index implies search::lists(
                    teams@,
                    (#[trigger] rows@[i]).team@,
                ) by {
                    assert(search::lists(before, rows@[i].team@));
                }
            }
            index += 1;
        }
        let mut matrices: Vec<PairMatrix> = Vec::new();
        let mut next: usize = 0;
        while next < teams.len()
            invariant
                next <= teams@.len(),
                matrices@.len() == next,
                forall|i: int| 0 <= i < next ==> (#[trigger] matrices@[i]).team@ == teams@[i]@,
                forall|i: int| 0 <= i < next ==> #[trigger] matrix_of(rows@, matrices@[i]),
            decreases teams@.len() - next,
        {
            matrices.push(team_matrix(rows, teams[next].as_str()));
            next += 1;
        }
        proof {
            assert forall|i: int, j: int| 0 <= i < j < matrices@.len() implies order::text_less(
                (#[trigger] matrices@[i]).team@,
                (#[trigger] matrices@[j]).team@,
            ) by {
                assert(order::text_less(teams@[i]@, teams@[j]@));
            }
            assert forall|i: int| 0 <= i < matrices@.len() implies team_has_traffic(
                rows@,
                (#[trigger] matrices@[i]).team@,
            ) by {
                assert(search::lists(teams@, teams@[i]@));
            }
            assert forall|team: Seq<char>| #[trigger] team_has_traffic(rows@, team) implies exists|
                i: int,
            |
                0 <= i < matrices@.len() && (#[trigger] matrices@[i]).team@ == team by {
                let k = choose|k: int| 0 <= k < rows@.len() && (#[trigger] rows@[k]).team@ == team;
                assert(search::lists(teams@, rows@[k].team@));
                let i = choose|i: int| 0 <= i < teams@.len() && #[trigger] teams@[i]@ == team;
                assert(matrices@[i].team@ == team);
            }
        }
        matrices
    }
}

/// How many messages of a registered agent the store counts in the last weeks.
#[derive(Debug, PartialEq, Eq)]
pub struct RosterRow {
    pub team: String,
    pub agent: String,
    pub count: i64,
}

/// The identities without a single message.
pub open spec fn silent_rows(rows: Seq<RosterRow>) -> Seq<(Seq<char>, Seq<char>)>
    decreases rows.len(),
{
    if rows.len() == 0 {
        Seq::empty()
    } else {
        let before = silent_rows(rows.drop_last());
        if rows.last().count == 0 {
            before.push((rows.last().team@, rows.last().agent@))
        } else {
            before
        }
    }
}

/// The teams and names of some identities.
pub open spec fn zombie_names(zombies: Seq<ZombieIdentity>) -> Seq<(Seq<char>, Seq<char>)> {
    Seq::new(zombies.len(), |i: int| (zombies[i].team@, zombies[i].agent@))
}

impl Database {
    /// Finds the registered identities without a single message.
    pub fn zombie_identities(rows: &Vec<RosterRow>) -> (zombies: Vec<ZombieIdentity>)
        ensures
            zombie_names(zombies@) == silent_rows(rows@),
    {
        let mut zombies: Vec<ZombieIdentity> = Vec::new();
        let mut index: usize = 0;
        proof {
            assert(rows@.take(0) =~= Seq::empty());
            assert(zombie_names(zombies@) =~= silent_rows(rows@.take(0)));
        }
        while index < rows.len()
            invariant
                index <= rows@.len(),
                zombie_names(zombies@) == silent_rows(rows@.take(index as int)),
            decreases rows@.len() - index,
        {
            let row = &rows[index];
            let ghost before = zombie_names(zombies@);
            proof {
                assert(rows@.take(index + 1).drop_last() =~= rows@.take(index as int));
            }
            if row.count == 0 {
                zombies.push(ZombieIdentity { team: row.team.clone(), agent: row.agent.clone() });
                proof {
                    assert(zombie_names(zombies@) =~= before.push((row.team@, row.agent@)));
                }
            }
            index += 1;
        }
        proof {
            assert(rows@.take(index as int) =~= rows@);
        }
        zombies
    }
}

impl Database {
    /// Finds the registered identities that wrote nothing: the rows count what each of them wrote.
    pub fn silent_identities(rows: &Vec<RosterRow>) -> (silent: Vec<SilentIdentity>)
        ensures
            snapshot::identity_names(silent@) == silent_rows(rows@),
    {
        let mut silent: Vec<SilentIdentity> = Vec::new();
        let mut index: usize = 0;
        proof {
            assert(rows@.take(0) =~= Seq::empty());
            assert(snapshot::identity_names(silent@) =~= silent_rows(rows@.take(0)));
        }
        while index < rows.len()
            invariant
                index <= rows@.len(),
                snapshot::identity_names(silent@) == silent_rows(rows@.take(index as int)),
            decreases rows@.len() - index,
        {
            let row = &rows[index];
            let ghost before = snapshot::identity_names(silent@);
            proof {
                assert(rows@.take(index + 1).drop_last() =~= rows@.take(index as int));
            }
            if row.count == 0 {
                silent.push(SilentIdentity { team: row.team.clone(), agent: row.agent.clone() });
                proof {
                    assert(snapshot::identity_names(silent@) =~= before.push(
                        (row.team@, row.agent@),
                    ));
                }
            }
            index += 1;
        }
        proof {
            assert(rows@.take(index as int) =~= rows@);
        }
        silent
    }
}

/// Whether two agents write in unequal measure does not depend on which of them is named first,
/// and nobody is out of balance with themselves.
pub proof fn asymmetry_is_mutual(matrix: PairMatrix, from: Seq<char>, to: Seq<char>)
    ensures
        lopsided(matrix.pair(from, to) as int, matrix.pair(to, from) as int) == lopsided(
            matrix.pair(to, from) as int,
            matrix.pair(from, to) as int,
        ),
        !lopsided(matrix.pair(from, from) as int, matrix.pair(from, from) as int),
{
}

/// The count of a pair is what was noted last for messages from the one to the other, whatever was
/// noted for the other direction; nothing noted counts as no message.
pub proof fn pairs_have_a_direction(matrix: PairMatrix, from: Seq<char>, to: Seq<char>, k: int)
    requires
        0 <= k < matrix.counts@.len() ==> forall|j: int|
            k < j < matrix.counts@.len() ==> !((#[trigger] matrix.counts@[j]).from@ == from
                && matrix.counts@[j].to@ == to),
    ensures
        0 <= k < matrix.counts@.len() && matrix.counts@[k].from@ == from && matrix.counts@[k].to@
            == to ==> matrix.pair(from, to) == matrix.counts@[k].count,
        (forall|j: int|
            0 <= j < matrix.counts@.len() ==> !((#[trigger] matrix.counts@[j]).from@ == from
                && matrix.counts@[j].to@ == to)) ==> matrix.pair(from, to) == 0,
{
    last_noted(matrix.counts@, from, to, k);
}

proof fn last_noted(counts: Seq<PairCount>, from: Seq<char>, to: Seq<char>, k: int)
    requires
        0 <= k < counts.len() ==> forall|j: int|
            k < j < counts.len() ==> !((#[trigger] counts[j]).from@ == from && counts[j].to@ == to),
    ensures
        0 <= k < counts.len() && counts[k].from@ == from && counts[k].to@ == to ==> pair_count(
            counts,
            from,
            to,
        ) == counts[k].count,
        (forall|j: int|
            0 <= j < counts.len() ==> !((#[trigger] counts[j]).from@ == from && counts[j].to@
                == to)) ==> pair_count(counts, from, to) == 0,
    decreases counts.len(),
{
    if counts.len() > 0 {
        let shorter = counts.drop_last();
        assert(counts[counts.len() - 1] == counts.last());
        if k != counts.len() - 1 {
            if 0 <= k < shorter.len() {
                assert forall|j: int| k < j < shorter.len() implies !((
                #[trigger] shorter[j]).from@ == from && shorter[j].to@ == to) by {
                    assert(shorter[j] == counts[j]);
                }
            }
            last_noted(shorter, from, to, k);
        } else {
            last_noted(shorter, from, to, -1);
        }
        if forall|j: int|
            0 <= j < counts.len() ==> !((#[trigger] counts[j]).from@ == from && counts[j].to@
                == to) {
            assert forall|j: int| 0 <= j < shorter.len() implies !((
            #[trigger] shorter[j]).from@ == from && shorter[j].to@ == to) by {
                assert(shorter[j] == counts[j]);
            }
        }
    }
}

/// What the store counts from one agent to another is what the team's matrix holds for that
/// direction, if the store counts the pair once.
pub proof fn matrices_hold_what_was_counted(rows: Seq<PairRow>, matrix: PairMatrix, row: int)
    requires
        matrix_of(rows, matrix),
        0 <= row < rows.len(),
        rows[row].team@ == matrix.team@,
        0 <= rows[row].count <= usize::MAX,
        forall|i: int|
            0 <= i < rows.len() && i != row ==> !((#[trigger] rows[i]).team@ == rows[row].team@
                && rows[i].from@ == rows[row].from@ && rows[i].to@ == rows[row].to@),
    ensures
        matrix.pair(rows[row].from@, rows[row].to@) == rows[row].count,
        exists|i: int| 0 <= i < matrix.agents@.len() && (#[trigger] matrix.agents@[i])@
            == rows[row].from@,
        exists|i: int| 0 <= i < matrix.agents@.len() && (#[trigger] matrix.agents@[i])@
            == rows[row].to@,
{
    assert(has_traffic(rows, matrix.team@, rows[row].from@));
    assert(has_traffic(rows, matrix.team@, rows[row].to@));
    assert(search::lists(matrix.agents@, rows[row].from@));
    assert(search::lists(matrix.agents@, rows[row].to@));
    counted_once(rows, row);
}

proof fn counted_once(rows: Seq<PairRow>, row: int)
    requires
        0 <= row < rows.len(),
        0 <= rows[row].count <= usize::MAX,
        forall|i: int|
            0 <= i < rows.len() && i != row ==> !((#[trigger] rows[i]).team@ == rows[row].team@
                && rows[i].from@ == rows[row].from@ && rows[i].to@ == rows[row].to@),
    ensures
        counted(rows, rows[row].team@, rows[row].from@, rows[row].to@) == rows[row].count,
    decreases rows.len(),
{
    let shorter = rows.drop_last();
    assert(rows[rows.len() - 1] == rows.last());
    if row < shorter.len() {
        assert forall|i: int| 0 <= i < shorter.len() && i != row implies !((
        #[trigger] shorter[i]).team@ == shorter[row].team@ && shorter[i].from@
            == shorter[row].from@ && shorter[i].to@ == shorter[row].to@) by {
            assert(shorter[i] == rows[i]);
        }
        counted_once(shorter, row);
    } else {
        assert forall|i: int| 0 <= i < shorter.len() implies !((
        #[trigger] shorter[i]).team@ == rows[row].team@ && shorter[i].from@ == rows[row].from@
            && shorter[i].to@ == rows[row].to@) by {
            assert(shorter[i] == rows[i]);
        }
        uncounted(shorter, rows[row].team@, rows[row].from@, rows[row].to@);
    }
}

proof fn uncounted(rows: Seq<PairRow>, team: Seq<char>, from: Seq<char>, to: Seq<char>)
    requires
        forall|i: int|
            0 <= i < rows.len() ==> !((#[trigger] rows[i]).team@ == team && rows[i].from@ == from
                && rows[i].to@ == to),
    ensures
        counted(rows, team, from, to) == 0,
    decreases rows.len(),
{
    if rows.len() > 0 {
        let shorter = rows.drop_last();
        assert(rows[rows.len() - 1] == rows.last());
        assert forall|i: int| 0 <= i < shorter.len() implies !((
        #[trigger] shorter[i]).team@ == team && shorter[i].from@ == from && shorter[i].to@ == to) by {
            assert(shorter[i] == rows[i]);
        }
        uncounted(shorter, team, from, to);
    }
}

/// The identities that are listed as silent, and those listed as without traffic, are exactly those
/// of which the store counts no message.
pub proof fn silence_is_no_message(rows: Seq<RosterRow>, team: Seq<char>, agent: Seq<char>)
    ensures
        silent_rows(rows).contains((team, agent)) <==> exists|i: int|
            0 <= i < rows.len() && (#[trigger] rows[i]).team@ == team && rows[i].agent@ == agent
                && rows[i].count == 0,
        silent_rows(rows).len() <= rows.len(),
    decreases rows.len(),
{
    if rows.len() > 0 {
        let shorter = rows.drop_last();
        let before = silent_rows(shorter);
        let after = silent_rows(rows);
        silence_is_no_message(shorter, team, agent);
        assert(rows[rows.len() - 1] == rows.last());
        if before.contains((team, agent)) {
            let k = choose|k: int| 0 <= k < before.len() && before[k] == (team, agent);
            assert(after[k] == (team, agent));
            let i = choose|i: int|
                0 <= i < shorter.len() && (#[trigger] shorter[i]).team@ == team && shorter[i].agent@
                    == agent && shorter[i].count == 0;
            assert(rows[i] == shorter[i]);
        }
        if after.contains((team, agent)) && !before.contains((team, agent)) {
            let k = choose|k: int| 0 <= k < after.len() && after[k] == (team, agent);
            assert(k == before.len());
        }
        if exists|i: int|
            0 <= i < rows.len() && (#[trigger] rows[i]).team@ == team && rows[i].agent@ == agent
                && rows[i].count == 0 {
            let i = choose|i: int|
                0 <= i < rows.len() && (#[trigger] rows[i]).team@ == team && rows[i].agent@ == agent
                    && rows[i].count == 0;
            if i < shorter.len() {
                assert(shorter[i] == rows[i]);
            } else {
                assert(after[before.len() as int] == (team, agent));
            }
        }
    }
}

} // verus!
