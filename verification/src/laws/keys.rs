//! Keys: what they are called, what they do, and what a file of bindings changes.

use crate::input::{KeyCode, KeyEvent, KeyModifiers};
use crate::keys;
use crate::keys::chord;
use crate::keys::chord::Chord;
use crate::keys::map::{Binding, Loaded};
use crate::keys::Action;
use crate::strings;
use vstd::prelude::*;

verus! {

/// Every action goes by its own word in a file of bindings.
pub proof fn actions_go_by_their_words(action: Action)
    ensures
        keys::action_name(action) == match action {
            Action::Quit => "quit"@,
            Action::Help => "help"@,
            Action::Compose => "compose"@,
            Action::Audit => "audit"@,
            Action::Agents => "agents"@,
            Action::Health => "health"@,
            Action::Bulk => "bulk"@,
            Action::Filter => "filter"@,
            Action::NotifSettings => "notif_settings"@,
            Action::Split => "split"@,
            Action::Replay => "replay"@,
            Action::NavUp => "nav_up"@,
            Action::NavDown => "nav_down"@,
            Action::TabNext => "tab_next"@,
            Action::LaunchagentToggle => "launchagent_toggle"@,
        },
        keys::action_named(keys::action_name(action)) == Some(action),
{
    keys::actions_are_found_by_name(action);
}

/// Without a file, these keys ask for these actions.
pub proof fn keys_ask_for_their_actions(held: KeyModifiers)
    requires
        !held.control,
        !held.alt,
        !held.shift,
    ensures
        ({
            let plain = |code: KeyCode| crate::keys::map::bound(crate::keys::map::default_list(), Chord { code, modifiers: held });
            let control = |character: char|
                crate::keys::map::bound(
                    crate::keys::map::default_list(),
                    Chord {
                        code: KeyCode::Char(character),
                        modifiers: KeyModifiers { control: true, ..held },
                    },
                );
            &&& plain(KeyCode::Char('q')) == Some(Action::Quit)
            &&& plain(KeyCode::Char('?')) == Some(Action::Help)
            &&& plain(KeyCode::Char('c')) == Some(Action::Compose)
            &&& control('a') == Some(Action::Audit)
            &&& plain(KeyCode::Char('A')) == Some(Action::Agents)
            &&& plain(KeyCode::Char('H')) == Some(Action::Health)
            &&& control('f') == Some(Action::Bulk)
            &&& plain(KeyCode::Char('F')) == Some(Action::Filter)
            &&& control('n') == Some(Action::NotifSettings)
            &&& control('s') == Some(Action::Split)
            &&& control('r') == Some(Action::Replay)
            &&& plain(KeyCode::Char('k')) == Some(Action::NavUp)
            &&& plain(KeyCode::Char('j')) == Some(Action::NavDown)
            &&& plain(KeyCode::Tab) == Some(Action::TabNext)
            &&& plain(KeyCode::Char('L')) == Some(Action::LaunchagentToggle)
        }),
{
    crate::keys::map::default_chords_are_read_back(0);
    let list = crate::keys::map::default_list();
    assert forall|k: int| 0 <= k < 15 implies crate::keys::map::bound(list, (#[trigger] list[k]).chord) == Some(
        list[k].action,
    ) by {
        bindings_are_found(list, k);
    }
    assert(list[0].chord == Chord { code: KeyCode::Char('q'), modifiers: held });
    assert(list[1].chord == Chord { code: KeyCode::Char('?'), modifiers: held });
    assert(list[2].chord == Chord { code: KeyCode::Char('c'), modifiers: held });
    assert(list[3].chord.code == KeyCode::Char('a'));
    assert(list[4].chord == Chord { code: KeyCode::Char('A'), modifiers: held });
    assert(list[5].chord == Chord { code: KeyCode::Char('H'), modifiers: held });
    assert(list[6].chord.code == KeyCode::Char('f'));
    assert(list[7].chord == Chord { code: KeyCode::Char('F'), modifiers: held });
    assert(list[8].chord.code == KeyCode::Char('n'));
    assert(list[9].chord.code == KeyCode::Char('s'));
    assert(list[10].chord.code == KeyCode::Char('r'));
    assert(list[11].chord == Chord { code: KeyCode::Char('k'), modifiers: held });
    assert(list[12].chord == Chord { code: KeyCode::Char('j'), modifiers: held });
    assert(list[13].chord == Chord { code: KeyCode::Tab, modifiers: held });
    assert(list[14].chord == Chord { code: KeyCode::Char('L'), modifiers: held });
}

/// In a list where no two bindings share a key, each key asks for the action it is bound to.
pub proof fn bindings_are_found(bindings: Seq<Binding>, k: int)
    requires
        crate::keys::map::unambiguous(bindings),
        0 <= k < bindings.len(),
    ensures
        crate::keys::map::bound(bindings, bindings[k].chord) == Some(bindings[k].action),
    decreases bindings.len(),
{
    assert(bindings[bindings.len() - 1] == bindings.last());
    if k < bindings.len() - 1 {
        let shorter = bindings.drop_last();
        assert forall|i: int, j: int| 0 <= i < j < shorter.len() implies (
        #[trigger] shorter[i]).chord != (#[trigger] shorter[j]).chord && shorter[i].action
            != shorter[j].action by {
            assert(shorter[i] == bindings[i] && shorter[j] == bindings[j]);
        }
        assert(shorter[k] == bindings[k]);
        bindings_are_found(shorter, k);
        assert(bindings[k].chord != bindings[bindings.len() - 1].chord);
    }
}

/// A key that types a character counts the same with Shift and without, for the character tells; any
/// other key and the other modifiers count as they are held.
pub proof fn shift_counts_where_no_character_tells(key: KeyEvent)
    ensures
        crate::keys::map::event_chord(key).code == key.code,
        crate::keys::map::event_chord(key).modifiers.control == key.modifiers.control,
        crate::keys::map::event_chord(key).modifiers.alt == key.modifiers.alt,
        key.code is Char ==> !crate::keys::map::event_chord(key).modifiers.shift,
        !(key.code is Char) ==> crate::keys::map::event_chord(key).modifiers.shift == key.modifiers.shift,
{
}

/// A line of the file binds its action to its key, and is warned of if that takes the key from
/// another action; a line with an unknown action or an unreadable key changes nothing and is warned
/// of.
pub proof fn lines_bind_their_action(before: Loaded, name: Seq<char>, text: Seq<char>, action: Action)
    requires
        crate::keys::map::unambiguous(before.bindings),
        keys::action_named(name) is Some ==> keys::action_named(name) == Some(action),
    ensures
        ({
            let after = crate::keys::map::entry_applied(before, name, text);
            let binds = keys::action_named(name) is Some && chord::chord_of(text) is Ok;
            &&& binds ==> crate::keys::map::bound(after.bindings, chord::chord_of(text)->Ok_0) == Some(action)
            &&& !binds ==> after.bindings == before.bindings && after.warnings.len()
                == before.warnings.len() + 1
            &&& binds ==> (after.warnings.len() == before.warnings.len() + 1 <==> crate::keys::map::bound(
                before.bindings,
                chord::chord_of(text)->Ok_0,
            ) is Some && crate::keys::map::bound(before.bindings, chord::chord_of(text)->Ok_0) != Some(action))
            &&& before.warnings.is_prefix_of(after.warnings)
        }),
{
    let after = crate::keys::map::entry_applied(before, name, text);
    if keys::action_named(name) is Some && chord::chord_of(text) is Ok {
        let chord = chord::chord_of(text)->Ok_0;
        crate::keys::map::rebinding_moves_one_action(before.bindings, chord, action, chord);
    }
    assert(before.warnings =~= after.warnings.subrange(0, before.warnings.len() as int));
}

/// Each modifier goes by its names, and each holds itself alone.
pub proof fn modifiers_go_by_their_names()
    ensures
        chord::modifier_named("ctrl"@) == Some(
            KeyModifiers { control: true, alt: false, shift: false },
        ),
        chord::modifier_named("control"@) == chord::modifier_named("ctrl"@),
        chord::modifier_named("alt"@) == Some(
            KeyModifiers { control: false, alt: true, shift: false },
        ),
        chord::modifier_named("opt"@) == chord::modifier_named("alt"@),
        chord::modifier_named("option"@) == chord::modifier_named("alt"@),
        chord::modifier_named("shift"@) == Some(
            KeyModifiers { control: false, alt: false, shift: true },
        ),
{
    reveal_strlit("ctrl");
    reveal_strlit("control");
    reveal_strlit("alt");
    reveal_strlit("opt");
    reveal_strlit("option");
    reveal_strlit("shift");
    assert("alt"@[0] == 'a' && "opt"@[0] == 'o' && "option"@[0] == 'o' && "shift"@[0] == 's'
        && "ctrl"@[0] == 'c' && "control"@[0] == 'c');
}

/// Every key is written by its own name, and a key that types a character by the character.
pub proof fn keys_go_by_their_names(code: KeyCode, character: char, number: u8)
    requires
        character != ' ',
    ensures
        chord::key_text(KeyCode::Char(character)) == seq![character],
        chord::key_text(KeyCode::Char(' ')) == "space"@,
        chord::key_text(KeyCode::F(number)) == "f"@ + strings::decimal(number as nat),
        code == KeyCode::Enter ==> chord::key_text(code) == "enter"@,
        code == KeyCode::Esc ==> chord::key_text(code) == "esc"@,
        code == KeyCode::Tab ==> chord::key_text(code) == "tab"@,
        code == KeyCode::BackTab ==> chord::key_text(code) == "backtab"@,
        code == KeyCode::Backspace ==> chord::key_text(code) == "backspace"@,
        code == KeyCode::Delete ==> chord::key_text(code) == "delete"@,
        code == KeyCode::Insert ==> chord::key_text(code) == "insert"@,
        code == KeyCode::Left ==> chord::key_text(code) == "left"@,
        code == KeyCode::Right ==> chord::key_text(code) == "right"@,
        code == KeyCode::Up ==> chord::key_text(code) == "up"@,
        code == KeyCode::Down ==> chord::key_text(code) == "down"@,
        code == KeyCode::Home ==> chord::key_text(code) == "home"@,
        code == KeyCode::End ==> chord::key_text(code) == "end"@,
        code == KeyCode::PageUp ==> chord::key_text(code) == "pageup"@,
        code == KeyCode::PageDown ==> chord::key_text(code) == "pagedown"@,
{
}

/// A chord with modifiers is read as the modifiers that its words name, in any order, and the key
/// that its last word names.
pub proof fn modifiers_add_up(words: Seq<Seq<char>>, last: Seq<char>)
    requires
        chord::modifiers_of(words) is Ok,
    ensures
        chord::modifiers_of(words.push(last)) is Ok <==> chord::modifier_named(
            strings::lower_ascii(last),
        ) is Some,
        chord::modifiers_of(words.push(last)) matches Ok(held) ==> {
            let before = chord::modifiers_of(words)->Ok_0;
            let added = chord::modifier_named(strings::lower_ascii(last))->Some_0;
            &&& held.control <==> before.control || added.control
            &&& held.alt <==> before.alt || added.alt
            &&& held.shift <==> before.shift || added.shift
        },
{
    assert(words.push(last).drop_last() =~= words);
}

/// A chord is read from its words: all but the last name modifiers, and the last one names the key; a
/// chord with a word missing is none.
pub proof fn chords_are_read_word_by_word(text: Seq<char>)
    ensures
        ({
            let words = crate::search::pieces(crate::search::trimmed(text), '+');
            let gap = exists|i: int| 0 <= i < words.len() && (#[trigger] words[i]).len() == 0;
            &&& gap || crate::search::trimmed(text).len() == 0 ==> chord::chord_of(text) is Err
            &&& chord::chord_of(text) matches Ok(read) ==> chord::modifiers_of(words.drop_last())
                == Ok::<KeyModifiers, Seq<char>>(read.modifiers) && chord::key_of(words.last())
                == Ok::<KeyCode, Seq<char>>(read.code)
            &&& !gap && crate::search::trimmed(text).len() > 0 && chord::modifiers_of(
                words.drop_last(),
            ) is Ok && chord::key_of(words.last()) is Ok ==> chord::chord_of(text) is Ok
        }),
{
}

/// The function keys go from one to twelve.
pub proof fn function_keys_go_to_twelve(number: nat)
    requires
        number <= 255,
    ensures
        1 <= number <= 12 ==> chord::key_of("f"@ + strings::decimal(number)) == Ok::<
            KeyCode,
            Seq<char>,
        >(KeyCode::F(number as u8)),
{
    if 1 <= number <= 12 {
        let read = Chord {
            code: KeyCode::F(number as u8),
            modifiers: KeyModifiers { control: false, alt: false, shift: false },
        };
        chord::chords_are_read_back(read);
        reveal_strlit("f");
        let text = chord::chord_text(read);
        let digits = strings::decimal(number);
        crate::lines::decimal_is_digits(number);
        assert(text =~= "f"@ + digits);
        chords_are_read_word_by_word(text);
        assert(!text.contains('+')) by {
            if text.contains('+') {
                let i = choose|i: int| 0 <= i < text.len() && text[i] == '+';
                if i > 0 {
                    assert(strings::is_digit(digits[i - 1]));
                }
            }
        }
        let last = digits[digits.len() - 1];
        assert(strings::is_digit(last));
        assert(text.last() == last);
        assert(crate::search::trimmed(text) == text);
        crate::laws::texts::cut_texts_are_joined_again(text, '+');
        one_piece(text);
    }
}

proof fn one_piece(text: Seq<char>)
    requires
        !text.contains('+'),
    ensures
        crate::search::pieces(text, '+') == seq![text],
    decreases text.len(),
{
    if text.len() > 0 {
        let shorter = text.drop_last();
        assert(!shorter.contains('+')) by {
            if shorter.contains('+') {
                let i = choose|i: int| 0 <= i < shorter.len() && shorter[i] == '+';
                assert(text[i] == '+');
            }
        }
        one_piece(shorter);
        assert(text[text.len() - 1] != '+');
        assert(shorter.push(text.last()) =~= text);
        assert(crate::search::pieces(text, '+') =~= seq![text]);
    } else {
        assert(text =~= Seq::empty());
    }
}

} // verus!
