//! Messages left unfinished, at most one for each team.

use crate::app::composer::{ComposerState, ComposerView};
use crate::app::model;
use crate::app::model::Draft;
use crate::search;
use crate::strings::same_text;
use vstd::prelude::*;

verus! {

/// The drafts by team.
pub open spec fn draft_map(drafts: Seq<Draft>) -> Map<Seq<char>, ComposerView>
    decreases drafts.len(),
{
    if drafts.len() == 0 {
        Map::empty()
    } else {
        draft_map(drafts.drop_last()).insert(drafts.last().team@, drafts.last().composer@)
    }
}

/// Some draft is for the team.
pub open spec fn has_draft(drafts: Seq<Draft>, team: Seq<char>) -> bool {
    exists|i: int| 0 <= i < drafts.len() && #[trigger] drafts[i].team@ == team
}

/// No team has two drafts.
pub open spec fn one_each(drafts: Seq<Draft>) -> bool {
    forall|i: int, j: int|
        0 <= i < j < drafts.len() ==> #[trigger] drafts[i].team@ != #[trigger] drafts[j].team@
}

/// The teams of the map are those that have a draft.
pub proof fn draft_map_domain(drafts: Seq<Draft>, team: Seq<char>)
    ensures
        draft_map(drafts).dom().contains(team) <==> has_draft(drafts, team),
    decreases drafts.len(),
{
    if drafts.len() > 0 {
        let shorter = drafts.drop_last();
        draft_map_domain(shorter, team);
        if has_draft(shorter, team) {
            let i = choose|i: int| 0 <= i < shorter.len() && #[trigger] shorter[i].team@ == team;
            assert(drafts[i].team@ == team);
        }
        if drafts.last().team@ == team {
            assert(drafts[drafts.len() - 1].team@ == team);
        }
        if has_draft(drafts, team) {
            let i = choose|i: int| 0 <= i < drafts.len() && #[trigger] drafts[i].team@ == team;
            if i < shorter.len() {
                assert(shorter[i].team@ == team);
            }
        }
    }
}

/// The map holds each draft for its team.
pub proof fn draft_map_lookup(drafts: Seq<Draft>, index: int)
    requires
        one_each(drafts),
        0 <= index < drafts.len(),
    ensures
        draft_map(drafts).dom().contains(drafts[index].team@),
        draft_map(drafts)[drafts[index].team@] == drafts[index].composer@,
    decreases drafts.len(),
{
    if index < drafts.len() - 1 {
        let shorter = drafts.drop_last();
        assert forall|i: int, j: int| 0 <= i < j < shorter.len() implies #[trigger] shorter[i].team@
            != #[trigger] shorter[j].team@ by {
            assert(drafts[i].team@ != drafts[j].team@);
        }
        draft_map_lookup(shorter, index);
        assert(drafts[index].team@ != drafts[drafts.len() - 1].team@);
    }
}

/// Finds the draft for a team.
pub fn find_draft(drafts: &Vec<Draft>, team: &str) -> (found: Option<usize>)
    ensures
        match found {
            Some(index) => index < drafts@.len() && drafts@[index as int].team@ == team@,
            None => !has_draft(drafts@, team@),
        },
{
    let mut index: usize = 0;
    while index < drafts.len()
        invariant
            index <= drafts@.len(),
            forall|i: int| 0 <= i < index ==> #[trigger] drafts@[i].team@ != team@,
        decreases drafts@.len() - index,
    {
        if same_text(drafts[index].team.as_str(), team) {
            return Some(index);
        }
        index += 1;
    }
    None
}

/// Takes the draft for a team away.
pub fn remove_draft(drafts: &mut Vec<Draft>, team: &str) -> (removed: Option<ComposerState>)
    requires
        model::drafts_wf(old(drafts)@),
    ensures
        model::drafts_wf(final(drafts)@),
        draft_map(final(drafts)@) == draft_map(old(drafts)@).remove(team@),
        match removed {
            Some(composer) => composer.wf() && draft_map(old(drafts)@).dom().contains(team@)
                && composer@ == draft_map(old(drafts)@)[team@],
            None => !draft_map(old(drafts)@).dom().contains(team@) && *final(drafts) == *old(
                drafts,
            ),
        },
{
    let ghost before = drafts@;
    match find_draft(drafts, team) {
        None => {
            proof {
                draft_map_domain(before, team@);
                assert(draft_map(before).remove(team@) =~= draft_map(before));
            }
            None
        },
        Some(index) => {
            let draft = drafts.remove(index);
            proof {
                let after = drafts@;
                assert(after =~= before.remove(index as int));
                assert forall|i: int| 0 <= i < after.len() implies (
                #[trigger] after[i]).composer.wf() by {
                    assert(after[i] == before[if i < index {
                        i
                    } else {
                        i + 1
                    }]);
                }
                assert forall|i: int, j: int| 0 <= i < j < after.len() implies #[trigger] after[i].team@
                    != #[trigger] after[j].team@ by {
                    let a = if i < index {
                        i
                    } else {
                        i + 1
                    };
                    let b = if j < index {
                        j
                    } else {
                        j + 1
                    };
                    assert(before[a].team@ != before[b].team@);
                }
                draft_map_lookup(before, index as int);
                assert forall|name: Seq<char>|
                    #![trigger draft_map(after).dom().contains(name)]
                    draft_map(after).dom().contains(name) == draft_map(before).remove(
                        team@,
                    ).dom().contains(name) && (draft_map(after).dom().contains(name) ==> draft_map(
                        after,
                    )[name] == draft_map(before)[name]) by {
                    draft_map_domain(after, name);
                    draft_map_domain(before, name);
                    if has_draft(after, name) {
                        let i = choose|i: int|
                            0 <= i < after.len() && #[trigger] after[i].team@ == name;
                        let a = if i < index {
                            i
                        } else {
                            i + 1
                        };
                        assert(before[a].team@ == name);
                        assert(before[a].team@ != before[index as int].team@);
                        draft_map_lookup(after, i);
                        draft_map_lookup(before, a);
                    }
                    if has_draft(before, name) && name != team@ {
                        let a = choose|a: int|
                            0 <= a < before.len() && #[trigger] before[a].team@ == name;
                        let i = if a < index {
                            a
                        } else {
                            a - 1
                        };
                        assert(after[i].team@ == name);
                    }
                }
                assert(draft_map(after) =~= draft_map(before).remove(team@));
            }
            Some(draft.composer)
        },
    }
}

/// Keeps a draft for a team, in place of the one it had.
pub fn insert_draft(drafts: &mut Vec<Draft>, team: &str, composer: ComposerState)
    requires
        model::drafts_wf(old(drafts)@),
        composer.wf(),
    ensures
        model::drafts_wf(final(drafts)@),
        draft_map(final(drafts)@) == draft_map(old(drafts)@).insert(team@, composer@),
{
    let _ = remove_draft(drafts, team);
    let ghost between = drafts@;
    let ghost view = composer@;
    drafts.push(Draft { team: team.to_owned(), composer });
    proof {
        let after = drafts@;
        assert(after.drop_last() =~= between);
        draft_map_domain(between, team@);
        assert forall|i: int, j: int| 0 <= i < j < after.len() implies #[trigger] after[i].team@
            != #[trigger] after[j].team@ by {
            if j == after.len() - 1 {
                assert(between[i].team@ == after[i].team@);
            } else {
                assert(between[i].team@ != between[j].team@);
            }
        }
        assert forall|i: int| 0 <= i < after.len() implies (#[trigger] after[i]).composer.wf() by {
            if i < between.len() {
                assert(after[i] == between[i]);
            }
        }
        assert(draft_map(after) =~= draft_map(old(drafts)@).insert(team@, view));
    }
}

/// A copy of the drafts.
pub fn clone_drafts(drafts: &Vec<Draft>) -> (copy: Vec<Draft>)
    ensures
        draft_map(copy@) == draft_map(drafts@),
        model::drafts_wf(drafts@) ==> model::drafts_wf(copy@),
{
    let mut copy: Vec<Draft> = Vec::new();
    let mut index: usize = 0;
    proof {
        assert(drafts@.take(0) =~= Seq::empty());
    }
    while index < drafts.len()
        invariant
            index <= drafts@.len(),
            copy@.len() == index,
            forall|i: int|
                0 <= i < index ==> (#[trigger] copy@[i]).team@ == drafts@[i].team@
                    && copy@[i].composer@ == drafts@[i].composer@,
            draft_map(copy@) == draft_map(drafts@.take(index as int)),
        decreases drafts@.len() - index,
    {
        let ghost before = copy@;
        copy.push(
            Draft { team: drafts[index].team.clone(), composer: drafts[index].composer.clone() },
        );
        proof {
            assert(copy@.drop_last() =~= before);
            assert(drafts@.take(index + 1).drop_last() =~= drafts@.take(index as int));
        }
        index += 1;
    }
    proof {
        assert(drafts@.take(index as int) =~= drafts@);
        if model::drafts_wf(drafts@) {
            assert forall|i: int| 0 <= i < copy@.len() implies (
            #[trigger] copy@[i]).composer.wf() by {
                assert(copy@[i].composer@ == drafts@[i].composer@);
                assert(drafts@[i].composer.wf());
            }
            assert forall|i: int, j: int| 0 <= i < j < copy@.len() implies #[trigger] copy@[i].team@
                != #[trigger] copy@[j].team@ by {
                assert(drafts@[i].team@ != drafts@[j].team@);
            }
        }
    }
    copy
}

fn same_texts(left: &Vec<String>, right: &Vec<String>) -> (same: bool)
    ensures
        same == (search::texts(left@) == search::texts(right@)),
{
    if left.len() != right.len() {
        assert(search::texts(left@).len() != search::texts(right@).len());
        return false;
    }
    let mut index: usize = 0;
    while index < left.len()
        invariant
            index <= left@.len(),
            left@.len() == right@.len(),
            forall|i: int| 0 <= i < index ==> #[trigger] left@[i]@ == right@[i]@,
        decreases left@.len() - index,
    {
        if !same_text(left[index].as_str(), right[index].as_str()) {
            assert(search::texts(left@)[index as int] != search::texts(right@)[index as int]);
            return false;
        }
        index += 1;
    }
    proof {
        assert(search::texts(left@) =~= search::texts(right@));
    }
    true
}

/// Whether two composers hold the same.
pub fn same_composer(left: &ComposerState, right: &ComposerState) -> (same: bool)
    ensures
        same == (left@ == right@),
{
    same_texts(&left.roster, &right.roster) && left.from_index == right.from_index && left.to_index
        == right.to_index && same_text(left.body.as_str(), right.body.as_str()) && left.cursor
        == right.cursor
}

/// Each of the first drafts is among the second ones.
pub open spec fn drafts_within(left: Seq<Draft>, right: Seq<Draft>) -> bool {
    forall|team: Seq<char>| #[trigger]
        draft_map(left).dom().contains(team) ==> draft_map(right).dom().contains(team) && draft_map(
            left,
        )[team] == draft_map(right)[team]
}

fn are_drafts_within(left: &Vec<Draft>, right: &Vec<Draft>) -> (within: bool)
    requires
        one_each(left@),
        one_each(right@),
    ensures
        within == drafts_within(left@, right@),
{
    let mut index: usize = 0;
    while index < left.len()
        invariant
            index <= left@.len(),
            one_each(left@),
            one_each(right@),
            forall|i: int|
                0 <= i < index ==> draft_map(right@).dom().contains(#[trigger] left@[i].team@)
                    && draft_map(right@)[left@[i].team@] == left@[i].composer@,
        decreases left@.len() - index,
    {
        proof {
            draft_map_lookup(left@, index as int);
            draft_map_domain(right@, left@[index as int].team@);
        }
        match find_draft(right, left[index].team.as_str()) {
            None => {
                assert(draft_map(left@).dom().contains(left@[index as int].team@));
                return false;
            },
            Some(other) => {
                proof {
                    draft_map_lookup(right@, other as int);
                }
                if !same_composer(&left[index].composer, &right[other].composer) {
                    assert(draft_map(left@).dom().contains(left@[index as int].team@));
                    return false;
                }
            },
        }
        index += 1;
    }
    proof {
        assert forall|team: Seq<char>| #[trigger]
            draft_map(left@).dom().contains(team) implies draft_map(right@).dom().contains(team)
            && draft_map(left@)[team] == draft_map(right@)[team] by {
            draft_map_domain(left@, team);
            let i = choose|i: int| 0 <= i < left@.len() && #[trigger] left@[i].team@ == team;
            draft_map_lookup(left@, i);
        }
    }
    true
}

/// Whether two lists of drafts hold the same, in whatever order.
pub fn same_drafts(left: &Vec<Draft>, right: &Vec<Draft>) -> (same: bool)
    requires
        one_each(left@),
        one_each(right@),
    ensures
        same == (draft_map(left@) == draft_map(right@)),
{
    let same = are_drafts_within(left, right) && are_drafts_within(right, left);
    proof {
        if same {
            assert(draft_map(left@) =~= draft_map(right@));
        }
    }
    same
}

/// A message with the cursor in its body: one that lies behind the body is put at its end.
pub open spec fn with_cursor_inside(message: ComposerView) -> ComposerView {
    if message.cursor <= message.body.len() {
        message
    } else {
        ComposerView { cursor: message.body.len() as int, ..message }
    }
}

/// The drafts by team, every cursor in its body.
pub open spec fn mended_map(drafts: Seq<Draft>) -> Map<Seq<char>, ComposerView> {
    draft_map(drafts).map_values(|message: ComposerView| with_cursor_inside(message))
}

/// Drafts whose cursors stand in their bodies are kept as they are.
pub proof fn sound_drafts_are_kept(drafts: Seq<Draft>)
    requires
        model::drafts_wf(drafts),
    ensures
        mended_map(drafts) == draft_map(drafts),
{
    assert forall|team: Seq<char>| #[trigger] draft_map(drafts).dom().contains(team) implies
        with_cursor_inside(draft_map(drafts)[team]) == draft_map(drafts)[team] by {
        draft_map_domain(drafts, team);
        let i = choose|i: int| 0 <= i < drafts.len() && #[trigger] drafts[i].team@ == team;
        draft_map_lookup(drafts, i);
        assert(drafts[i].composer.wf());
    }
    assert(mended_map(drafts) =~= draft_map(drafts));
}

/// Puts every cursor into its body; of two drafts for a team the later one stays.
pub fn mend_drafts(drafts: Vec<Draft>) -> (mended: Vec<Draft>)
    ensures
        model::drafts_wf(mended@),
        draft_map(mended@) == mended_map(drafts@),
{
    let ghost all = drafts@;
    let mut mended: Vec<Draft> = Vec::new();
    proof {
        assert(all.take(0) =~= Seq::empty());
        assert(draft_map(mended@) =~= mended_map(all.take(0)));
    }
    for draft in it: drafts
        invariant
            it.seq() == all,
            model::drafts_wf(mended@),
            draft_map(mended@) == mended_map(all.take(it.index() as int)),
    {
        let ghost before = all.take(it.index() as int);
        let ghost view = draft.composer@;
        let mut composer = draft.composer;
        let length: usize = crate::strings::char_count(composer.body.as_str());
        if composer.cursor > length {
            composer.cursor = length;
        }
        proof {
            assert(all.take(it.index() + 1).drop_last() =~= before);
            assert(composer@ == with_cursor_inside(view));
        }
        insert_draft(&mut mended, draft.team.as_str(), composer);
        proof {
            assert(draft_map(mended@) =~= mended_map(all.take(it.index() + 1)));
        }
    }
    proof {
        assert(all.take(all.len() as int) =~= all);
    }
    mended
}

/// What is kept for a team is what is found for it, and nothing else changes.
pub proof fn draft_is_kept(
    before: Seq<Draft>,
    after: Seq<Draft>,
    team: Seq<char>,
    kept: ComposerView,
    other: Seq<char>,
)
    requires
        draft_map(after) == draft_map(before).insert(team, kept),
        other != team,
    ensures
        draft_map(after).dom().contains(team),
        draft_map(after)[team] == kept,
        draft_map(after).dom().contains(other) == draft_map(before).dom().contains(other),
        draft_map(before).dom().contains(other) ==> draft_map(after)[other] == draft_map(
            before,
        )[other],
{
}

} // verus!
