//! Writing a message: what the keys change, what is kept, and who is written to.

use crate::app::composer;
use crate::app::composer::ComposerState;
use crate::app::drafts;
use crate::app::model::Writing;
use crate::app::status::StatusLine;
use crate::app::writing::ComposerRequest;
use crate::input::{KeyCode, KeyEvent};
use crate::strings;
use vstd::prelude::*;

verus! {

/// A character that is typed stands at the cursor, which goes behind it; what stood before it and
/// what stood behind it stay, and Enter types the end of a line.
pub proof fn characters_are_typed_at_the_cursor(
    before: ComposerState,
    key: KeyEvent,
    after: ComposerState,
)
    requires
        before.wf(),
        before.cursor < usize::MAX,
        before.key_post(key, after),
        key.code is Char || key.code == KeyCode::Enter,
    ensures
        after.body@.len() == before.body@.len() + 1,
        key.code matches KeyCode::Char(typed) ==> after.body@[before.cursor as int] == typed,
        key.code == KeyCode::Enter ==> after.body@[before.cursor as int] == '\n',
        forall|i: int| 0 <= i < before.cursor ==> #[trigger] after.body@[i] == before.body@[i],
        forall|i: int|
            before.cursor <= i < before.body@.len() ==> after.body@[i + 1]
                == #[trigger] before.body@[i],
        after.cursor == before.cursor + 1,
        after.roster == before.roster,
        after.from_index == before.from_index,
        after.to_index == before.to_index,
{
}

/// Backspace takes the character before the cursor away and Delete the one at it; the others stay
/// in their order, and where there is no such character nothing changes.
pub proof fn characters_are_taken_at_the_cursor(
    before: ComposerState,
    key: KeyEvent,
    after: ComposerState,
)
    requires
        before.wf(),
        before.key_post(key, after),
        key.code == KeyCode::Backspace || key.code == KeyCode::Delete,
    ensures
        key.code == KeyCode::Backspace && before.cursor > 0 ==> {
            &&& after.cursor == before.cursor - 1
            &&& after.body@ == before.body@.take(before.cursor - 1) + before.body@.skip(
                before.cursor as int,
            )
        },
        key.code == KeyCode::Backspace && before.cursor == 0 ==> after == before,
        key.code == KeyCode::Delete && before.cursor < before.body@.len() ==> {
            &&& after.cursor == before.cursor
            &&& after.body@ == before.body@.take(before.cursor as int) + before.body@.skip(
                before.cursor + 1,
            )
        },
        key.code == KeyCode::Delete && before.cursor == before.body@.len() ==> after == before,
        after.roster == before.roster,
        after.from_index == before.from_index,
        after.to_index == before.to_index,
{
    if key.code == KeyCode::Backspace && before.cursor > 0 {
        assert(after.body@ =~= before.body@.take(before.cursor - 1) + before.body@.skip(
            before.cursor as int,
        ));
    }
    if key.code == KeyCode::Delete && before.cursor < before.body@.len() {
        assert(after.body@ =~= before.body@.take(before.cursor as int) + before.body@.skip(
            before.cursor + 1,
        ));
    }
}

/// Left and Right move the cursor by one character, Home and End to the two ends of the body; the
/// cursor stays in the body, and nothing else changes.
pub proof fn cursor_goes_through_the_body(
    before: ComposerState,
    key: KeyEvent,
    after: ComposerState,
)
    requires
        before.wf(),
        before.body@.len() <= usize::MAX,
        before.key_post(key, after),
        key.code == KeyCode::Left || key.code == KeyCode::Right || key.code == KeyCode::Home
            || key.code == KeyCode::End,
    ensures
        after == (ComposerState { cursor: after.cursor, ..before }),
        after.cursor <= before.body@.len(),
        key.code == KeyCode::Left && before.cursor > 0 ==> after.cursor + 1 == before.cursor,
        key.code == KeyCode::Left && before.cursor == 0 ==> after.cursor == 0,
        key.code == KeyCode::Right && before.cursor < before.body@.len() ==> after.cursor
            == before.cursor + 1,
        key.code == KeyCode::Right && before.cursor == before.body@.len() ==> after.cursor
            == before.cursor,
        key.code == KeyCode::Home ==> after.cursor == 0,
        key.code == KeyCode::End ==> after.cursor == before.body@.len(),
{
}

/// Tab goes on to the next sender of the roster and Shift-Tab to the next recipient, from the last
/// one to the first; neither changes the other one or the body.
pub proof fn tabs_choose_sender_and_recipient(
    before: ComposerState,
    key: KeyEvent,
    after: ComposerState,
)
    requires
        before.key_post(key, after),
        key.code == KeyCode::Tab || key.code == KeyCode::BackTab,
        before.roster@.len() <= usize::MAX,
    ensures
        after.roster == before.roster,
        after.body == before.body,
        after.cursor == before.cursor,
        key.code == KeyCode::Tab ==> {
            &&& after.to_index == before.to_index
            &&& before.from_index + 1 < before.roster@.len() ==> after.from_index
                == before.from_index + 1
            &&& before.from_index + 1 == before.roster@.len() ==> after.from_index == 0
        },
        key.code == KeyCode::BackTab ==> {
            &&& after.from_index == before.from_index
            &&& before.to_index + 1 < before.roster@.len() ==> after.to_index == before.to_index + 1
            &&& before.to_index + 1 == before.roster@.len() ==> after.to_index == 0
        },
{
    let count = before.roster@.len() as int;
    if before.from_index + 1 < count {
        vstd::arithmetic::div_mod::lemma_small_mod((before.from_index + 1) as nat, count as nat);
    }
    if before.to_index + 1 < count {
        vstd::arithmetic::div_mod::lemma_small_mod((before.to_index + 1) as nat, count as nat);
    }
    if count > 0 {
        vstd::arithmetic::div_mod::lemma_mod_self_0(count);
    }
}

proof fn blanks_are_white(body: Seq<char>, position: int)
    requires
        0 <= position <= body.len(),
    ensures
        0 <= composer::blanks_start(body, position) <= position,
        forall|i: int|
            composer::blanks_start(body, position) <= i < position ==> strings::is_white_space(
                #[trigger] body[i],
            ),
        composer::blanks_start(body, position) > 0 ==> !strings::is_white_space(
            body[composer::blanks_start(body, position) - 1],
        ),
    decreases position,
{
    if 0 < position && strings::is_white_space(body[position - 1]) {
        blanks_are_white(body, position - 1);
    }
}

proof fn letters_are_not_white(body: Seq<char>, position: int)
    requires
        0 <= position <= body.len(),
    ensures
        0 <= composer::letters_start(body, position) <= position,
        forall|i: int|
            composer::letters_start(body, position) <= i < position ==> !strings::is_white_space(
                #[trigger] body[i],
            ),
        composer::letters_start(body, position) > 0 ==> strings::is_white_space(
            body[composer::letters_start(body, position) - 1],
        ),
        position > 0 && !strings::is_white_space(body[position - 1]) ==> composer::letters_start(
            body,
            position,
        ) < position,
    decreases position,
{
    if 0 < position && !strings::is_white_space(body[position - 1]) {
        letters_are_not_white(body, position - 1);
    }
}

/// Ctrl-W takes one whole word before the cursor away together with the white space between it and
/// the cursor: what is taken away is characters without white space, from `start` on, and white
/// space, up to the cursor; it begins at the beginning of the body or behind white space, and holds
/// a word unless it begins at the beginning. What stands behind the cursor stays.
pub proof fn whole_words_are_taken(
    before: Writing,
    key: KeyEvent,
    team: Option<String>,
    busy: bool,
    after: Writing,
    line: Option<StatusLine>,
    request: ComposerRequest,
)
    requires
        before.wf(),
        before.composer is Some,
        key.code == KeyCode::Char('w'),
        key.modifiers.control,
        before.key_post(key, team, busy, after, line, request),
    ensures
        after.drafts == before.drafts,
        line is None,
        request is Nothing,
        after.composer is Some,
        ({
            let was = before.composer->Some_0;
            let now = after.composer->Some_0;
            let start = now.cursor as int;
            &&& start <= was.cursor
            &&& now.body@ == was.body@.take(start) + was.body@.skip(was.cursor as int)
            &&& start == 0 || strings::is_white_space(was.body@[start - 1])
            &&& exists|word_end: int|
                #![trigger was.body@.take(word_end)]
                start <= word_end <= was.cursor && (start > 0 ==> start < word_end) && (forall|
                    i: int,
                |
                    start <= i < word_end ==> !strings::is_white_space(#[trigger] was.body@[i]))
                    && (forall|i: int|
                    word_end <= i < was.cursor ==> strings::is_white_space(
                        #[trigger] was.body@[i],
                    ))
            &&& now.roster == was.roster
            &&& now.from_index == was.from_index
            &&& now.to_index == was.to_index
        }),
{
    let was = before.composer->Some_0;
    let now = after.composer->Some_0;
    let word_end = composer::blanks_start(was.body@, was.cursor as int);
    blanks_are_white(was.body@, was.cursor as int);
    letters_are_not_white(was.body@, word_end);
    if was.cursor == 0 {
        assert(now.body@ =~= was.body@.take(0) + was.body@.skip(0));
    }
    let shown = was.body@.take(word_end);
}

/// Ctrl-A and Ctrl-E move the cursor to the two ends of the body, Ctrl-K empties the body and
/// forgets the draft of the team that is shown, and no other one.
pub proof fn control_keys_edit_the_message(
    before: Writing,
    key: KeyEvent,
    team: Option<String>,
    busy: bool,
    after: Writing,
    line: Option<StatusLine>,
    request: ComposerRequest,
    other: Seq<char>,
)
    requires
        before.wf(),
        before.composer is Some,
        before.composer->Some_0.body@.len() <= usize::MAX,
        key.modifiers.control,
        key.code == KeyCode::Char('a') || key.code == KeyCode::Char('e') || key.code
            == KeyCode::Char('k'),
        before.key_post(key, team, busy, after, line, request),
    ensures
        request is Nothing,
        after.composer is Some,
        after.composer->Some_0.roster == before.composer->Some_0.roster,
        after.composer->Some_0.from_index == before.composer->Some_0.from_index,
        after.composer->Some_0.to_index == before.composer->Some_0.to_index,
        key.code == KeyCode::Char('a') ==> after.composer->Some_0.cursor == 0
            && after.composer->Some_0.body == before.composer->Some_0.body && after.drafts
            == before.drafts,
        key.code == KeyCode::Char('e') ==> after.composer->Some_0.cursor
            == before.composer->Some_0.body@.len() && after.composer->Some_0.body
            == before.composer->Some_0.body && after.drafts == before.drafts,
        key.code == KeyCode::Char('k') ==> after.composer->Some_0.cursor == 0
            && after.composer->Some_0.body@.len() == 0,
        key.code == KeyCode::Char('k') && (team matches Some(team) && team@ == other)
            ==> !drafts::has_draft(after.drafts@, other),
        key.code == KeyCode::Char('k') && !(team matches Some(team) && team@ == other) ==> (
        drafts::has_draft(after.drafts@, other) <==> drafts::has_draft(before.drafts@, other)) && (
        drafts::has_draft(before.drafts@, other) ==> drafts::draft_map(after.drafts@)[other]
            == drafts::draft_map(before.drafts@)[other]),
{
    drafts::draft_map_domain(before.drafts@, other);
    drafts::draft_map_domain(after.drafts@, other);
}

/// Escape leaves the screen and keeps the message as the draft of the team that is shown; the drafts
/// of the others stay as they are.
pub proof fn escape_keeps_the_message(
    before: Writing,
    key: KeyEvent,
    team: Option<String>,
    busy: bool,
    after: Writing,
    line: Option<StatusLine>,
    request: ComposerRequest,
    other: Seq<char>,
)
    requires
        key.code == KeyCode::Esc,
        before.key_post(key, team, busy, after, line, request),
    ensures
        request is LeaveScreen,
        after.composer is None,
        line matches Some(line) && !line.is_error && line.text@ == "draft saved"@,
        (team matches Some(team) && team@ == other) && before.composer is Some
            ==> drafts::has_draft(after.drafts@, other) && drafts::draft_map(after.drafts@)[other]
            == before.composer->Some_0@,
        !(team matches Some(team) && team@ == other) ==> (drafts::has_draft(after.drafts@, other)
            <==> drafts::has_draft(before.drafts@, other)) && (drafts::has_draft(
            before.drafts@,
            other,
        ) ==> drafts::draft_map(after.drafts@)[other] == drafts::draft_map(before.drafts@)[other]),
{
    drafts::draft_map_domain(before.drafts@, other);
    drafts::draft_map_domain(after.drafts@, other);
}

/// Ctrl-S alone sends, and not while a script runs; whatever is answered, the message stays.
pub proof fn only_one_key_sends(
    before: Writing,
    key: KeyEvent,
    team: Option<String>,
    busy: bool,
    after: Writing,
    line: Option<StatusLine>,
    request: ComposerRequest,
)
    requires
        before.key_post(key, team, busy, after, line, request),
    ensures
        request is Send ==> key.code == KeyCode::Char('s') && key.modifiers.control && !busy
            && team is Some && after == before,
        request is Spinner ==> busy && key.code == KeyCode::Char('s') && after == before,
        request is LeaveScreen <==> key.code == KeyCode::Esc || before.composer is None,
        line matches Some(line) && line.is_error ==> request is Nothing && after == before,
{
}

/// A new message comes from the own identity and goes to the one that is asked for, as far as they
/// are in the roster; else it comes from the first one. It is empty.
pub proof fn new_messages_come_from_oneself(
    before: Writing,
    identity: Option<String>,
    to: Option<String>,
    fallback: int,
    roster: Vec<String>,
    after: Writing,
    k: int,
)
    requires
        before.open_post(identity, to, fallback, roster, after),
        0 <= k < roster@.len(),
    ensures
        after.drafts == before.drafts,
        after.composer is Some,
        after.composer->Some_0.body@.len() == 0,
        after.composer->Some_0.cursor == 0,
        after.composer->Some_0.roster == roster,
        identity matches Some(own) && own@ == roster@[k]@
            ==> roster@[after.composer->Some_0.from_index as int]@ == identity->Some_0@,
        identity is None ==> after.composer->Some_0.from_index == 0,
        to matches Some(name) && name@ == roster@[k]@
            ==> roster@[after.composer->Some_0.to_index as int]@ == to->Some_0@,
        to is None ==> after.composer->Some_0.to_index == fallback,
{
    if identity matches Some(own) && own@ == roster@[k]@ {
        assert(crate::search::lists(roster@, identity->Some_0@));
    }
    if to matches Some(name) && name@ == roster@[k]@ {
        assert(crate::search::lists(roster@, to->Some_0@));
    }
}

/// A draft that is taken up with another roster keeps its text, and its sender and its recipient by
/// name, wherever they stand in the new roster; it is no draft any more.
pub proof fn drafts_find_their_people_again(
    before: Writing,
    team: Seq<char>,
    roster: Vec<String>,
    after: Writing,
    k: int,
)
    requires
        before.restore_post(team, Some(roster), after),
        0 <= k < roster@.len(),
    ensures
        after.composer is Some,
        !drafts::has_draft(after.drafts@, team),
        ({
            let kept = drafts::draft_map(before.drafts@)[team];
            let now = after.composer->Some_0;
            &&& now.roster == roster
            &&& now.body@ == kept.body
            &&& now.cursor == kept.cursor
            &&& 0 <= kept.from_index < kept.roster.len() && kept.roster[kept.from_index]
                == roster@[k]@ ==> roster@[now.from_index as int]@ == kept.roster[kept.from_index]
            &&& 0 <= kept.to_index < kept.roster.len() && kept.roster[kept.to_index]
                == roster@[k]@ ==> roster@[now.to_index as int]@ == kept.roster[kept.to_index]
        }),
{
    let kept = drafts::draft_map(before.drafts@)[team];
    drafts::draft_map_domain(after.drafts@, team);
    if 0 <= kept.from_index < kept.roster.len() && kept.roster[kept.from_index] == roster@[k]@ {
        assert(crate::search::lists(roster@, kept.roster[kept.from_index]));
    }
    if 0 <= kept.to_index < kept.roster.len() && kept.roster[kept.to_index] == roster@[k]@ {
        assert(crate::search::lists(roster@, kept.roster[kept.to_index]));
    }
}

} // verus!
