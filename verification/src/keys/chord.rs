//! Keys together with modifier keys, and how they are written.

use crate::input::{KeyCode, KeyModifiers};
use crate::lines;
use crate::lines::parse_number;
use crate::search;
use crate::search::{split, trim};
use crate::strings;
use crate::strings::{
    char_is_digit, chars_of, concat2, concat3, decimal_u64, same_text, string_of,
    to_ascii_lowercase,
};
use vstd::prelude::*;

verus! {

/// A key together with the modifier keys.
#[derive(Clone, Copy, Debug, PartialEq, Eq, Structural)]
pub struct Chord {
    pub code: KeyCode,
    pub modifiers: KeyModifiers,
}

/// The modifier keys of a name.
pub open spec fn modifier_named(name: Seq<char>) -> Option<KeyModifiers> {
    if name == "ctrl"@ || name == "control"@ {
        Some(KeyModifiers { control: true, alt: false, shift: false })
    } else if name == "alt"@ || name == "opt"@ || name == "option"@ {
        Some(KeyModifiers { control: false, alt: true, shift: false })
    } else if name == "shift"@ {
        Some(KeyModifiers { control: false, alt: false, shift: true })
    } else {
        None
    }
}

/// All the modifier keys of two sets.
pub open spec fn together(left: KeyModifiers, right: KeyModifiers) -> KeyModifiers {
    KeyModifiers {
        control: left.control || right.control,
        alt: left.alt || right.alt,
        shift: left.shift || right.shift,
    }
}

/// The modifier keys that some words name, or what is wrong with the first one that names none.
pub open spec fn modifiers_of(words: Seq<Seq<char>>) -> Result<KeyModifiers, Seq<char>>
    decreases words.len(),
{
    if words.len() == 0 {
        Ok(KeyModifiers { control: false, alt: false, shift: false })
    } else {
        match modifiers_of(words.drop_last()) {
            Ok(before) => {
                let name = strings::lower_ascii(words.last());
                match modifier_named(name) {
                    Some(modifiers) => Ok(together(before, modifiers)),
                    None => Err("unknown modifier '"@ + name + "'"@),
                }
            },
            Err(error) => Err(error),
        }
    }
}

/// The key of a name, in small letters.
pub open spec fn key_named(name: Seq<char>) -> Option<KeyCode> {
    if name == "enter"@ || name == "return"@ {
        Some(KeyCode::Enter)
    } else if name == "esc"@ || name == "escape"@ {
        Some(KeyCode::Esc)
    } else if name == "tab"@ {
        Some(KeyCode::Tab)
    } else if name == "backtab"@ {
        Some(KeyCode::BackTab)
    } else if name == "space"@ {
        Some(KeyCode::Char(' '))
    } else if name == "up"@ {
        Some(KeyCode::Up)
    } else if name == "down"@ {
        Some(KeyCode::Down)
    } else if name == "left"@ {
        Some(KeyCode::Left)
    } else if name == "right"@ {
        Some(KeyCode::Right)
    } else if name == "pageup"@ {
        Some(KeyCode::PageUp)
    } else if name == "pagedown"@ {
        Some(KeyCode::PageDown)
    } else if name == "home"@ {
        Some(KeyCode::Home)
    } else if name == "end"@ {
        Some(KeyCode::End)
    } else if name == "insert"@ {
        Some(KeyCode::Insert)
    } else if name == "delete"@ || name == "del"@ {
        Some(KeyCode::Delete)
    } else if name == "backspace"@ {
        Some(KeyCode::Backspace)
    } else {
        None
    }
}

/// The name is an f and digits.
pub open spec fn names_function_key(name: Seq<char>) -> bool {
    &&& name.len() >= 2
    &&& name[0] == 'f'
    &&& forall|i: int| 1 <= i < name.len() ==> strings::is_digit(#[trigger] name[i])
}

/// The key that a word names, or what is wrong with the word. Names may be written in capitals; a
/// single character stands for itself.
pub open spec fn key_of(word: Seq<char>) -> Result<KeyCode, Seq<char>> {
    let name = strings::lower_ascii(word);
    match key_named(name) {
        Some(code) => Ok(code),
        None => if names_function_key(name) {
            match lines::parsed_number(name.skip(1), u8::MAX as nat) {
                Some(number) => if 1 <= number <= 12 {
                    Ok(KeyCode::F(number as u8))
                } else {
                    Err("function key out of range (f1-f12): '"@ + word + "'"@)
                },
                None => Err("invalid function key '"@ + word + "'"@),
            }
        } else if word.len() == 1 {
            Ok(KeyCode::Char(word[0]))
        } else {
            Err("unrecognized key '"@ + word + "'"@)
        },
    }
}

/// Some word is empty.
pub open spec fn has_gap(words: Seq<Seq<char>>) -> bool {
    exists|i: int| 0 <= i < words.len() && (#[trigger] words[i]).len() == 0
}

/// The chord that a text stands for, or what is wrong with the text.
pub open spec fn chord_of(text: Seq<char>) -> Result<Chord, Seq<char>> {
    let words = search::pieces(search::trimmed(text), '+');
    if search::trimmed(text).len() == 0 {
        Err("empty key string"@)
    } else if has_gap(words) {
        Err("malformed chord '"@ + text + "'"@)
    } else {
        match modifiers_of(words.drop_last()) {
            Ok(modifiers) => match key_of(words.last()) {
                Ok(code) => Ok(Chord { code, modifiers }),
                Err(error) => Err(error),
            },
            Err(error) => Err(error),
        }
    }
}

fn find_modifier(name: &str) -> (modifiers: Option<KeyModifiers>)
    ensures
        modifiers == modifier_named(name@),
{
    if same_text(name, "ctrl") || same_text(name, "control") {
        Some(KeyModifiers { control: true, alt: false, shift: false })
    } else if same_text(name, "alt") || same_text(name, "opt") || same_text(name, "option") {
        Some(KeyModifiers { control: false, alt: true, shift: false })
    } else if same_text(name, "shift") {
        Some(KeyModifiers { control: false, alt: false, shift: true })
    } else {
        None
    }
}

fn find_key(name: &str) -> (code: Option<KeyCode>)
    ensures
        code == key_named(name@),
{
    if same_text(name, "enter") || same_text(name, "return") {
        Some(KeyCode::Enter)
    } else if same_text(name, "esc") || same_text(name, "escape") {
        Some(KeyCode::Esc)
    } else if same_text(name, "tab") {
        Some(KeyCode::Tab)
    } else if same_text(name, "backtab") {
        Some(KeyCode::BackTab)
    } else if same_text(name, "space") {
        Some(KeyCode::Char(' '))
    } else if same_text(name, "up") {
        Some(KeyCode::Up)
    } else if same_text(name, "down") {
        Some(KeyCode::Down)
    } else if same_text(name, "left") {
        Some(KeyCode::Left)
    } else if same_text(name, "right") {
        Some(KeyCode::Right)
    } else if same_text(name, "pageup") {
        Some(KeyCode::PageUp)
    } else if same_text(name, "pagedown") {
        Some(KeyCode::PageDown)
    } else if same_text(name, "home") {
        Some(KeyCode::Home)
    } else if same_text(name, "end") {
        Some(KeyCode::End)
    } else if same_text(name, "insert") {
        Some(KeyCode::Insert)
    } else if same_text(name, "delete") || same_text(name, "del") {
        Some(KeyCode::Delete)
    } else if same_text(name, "backspace") {
        Some(KeyCode::Backspace)
    } else {
        None
    }
}

fn is_function_key(name: &Vec<char>) -> (result: bool)
    ensures
        result == names_function_key(name@),
{
    if name.len() < 2 || name[0] != 'f' {
        return false;
    }
    let mut index: usize = 1;
    while index < name.len()
        invariant
            1 <= index <= name@.len(),
            forall|i: int| 1 <= i < index ==> strings::is_digit(#[trigger] name@[i]),
        decreases name@.len() - index,
    {
        if !char_is_digit(name[index]) {
            assert(!strings::is_digit(name@[index as int]));
            return false;
        }
        index += 1;
    }
    true
}

fn parse_key_code(word: &str) -> (result: Result<KeyCode, String>)
    ensures
        match result {
            Ok(code) => key_of(word@) == Ok::<KeyCode, Seq<char>>(code),
            Err(error) => key_of(word@) == Err::<KeyCode, Seq<char>>(error@),
        },
{
    let name = to_ascii_lowercase(word);
    if let Some(code) = find_key(name.as_str()) {
        return Ok(code);
    }
    let chars = chars_of(name.as_str());
    if is_function_key(&chars) {
        let digits = string_of(&chars, 1, chars.len());
        proof {
            assert(digits@ =~= name@.skip(1));
        }
        return match parse_number(digits.as_str(), u8::MAX as u64) {
            Some(number) => if 1 <= number && number <= 12 {
                Ok(KeyCode::F(number as u8))
            } else {
                Err(concat3("function key out of range (f1-f12): '", word, "'"))
            },
            None => Err(concat3("invalid function key '", word, "'")),
        };
    }
    let letters = chars_of(word);
    if letters.len() == 1 {
        Ok(KeyCode::Char(letters[0]))
    } else {
        Err(concat3("unrecognized key '", word, "'"))
    }
}

fn find_gap(words: &Vec<String>) -> (found: bool)
    ensures
        found == has_gap(search::texts(words@)),
{
    let ghost texts = search::texts(words@);
    let mut index: usize = 0;
    while index < words.len()
        invariant
            index <= words@.len(),
            texts == search::texts(words@),
            forall|i: int| 0 <= i < index ==> (#[trigger] texts[i]).len() > 0,
        decreases words@.len() - index,
    {
        assert(texts[index as int] == words@[index as int]@);
        if words[index].as_str().is_empty() {
            return true;
        }
        index += 1;
    }
    false
}

fn parse_modifiers(words: &Vec<String>, count: usize) -> (result: Result<KeyModifiers, String>)
    requires
        count <= words@.len(),
    ensures
        match result {
            Ok(modifiers) => modifiers_of(search::texts(words@).take(count as int)) == Ok::<
                KeyModifiers,
                Seq<char>,
            >(modifiers),
            Err(error) => modifiers_of(search::texts(words@).take(count as int)) == Err::<
                KeyModifiers,
                Seq<char>,
            >(error@),
        },
    decreases count,
{
    if count == 0 {
        return Ok(KeyModifiers::none());
    }
    let ghost texts = search::texts(words@);
    proof {
        assert(texts.take(count as int).drop_last() =~= texts.take(count - 1));
        assert(texts.take(count as int).last() == words@[count - 1]@);
    }
    match parse_modifiers(words, count - 1) {
        Ok(before) => {
            let name = to_ascii_lowercase(words[count - 1].as_str());
            match find_modifier(name.as_str()) {
                Some(modifiers) => Ok(
                    KeyModifiers {
                        control: before.control || modifiers.control,
                        alt: before.alt || modifiers.alt,
                        shift: before.shift || modifiers.shift,
                    },
                ),
                None => Err(concat3("unknown modifier '", name.as_str(), "'")),
            }
        },
        Err(error) => Err(error),
    }
}

/// Reads a chord such as `ctrl+s`, `alt+enter`, `shift+f2` or `q`. Modifiers and the names of keys
/// may be written in capitals; a single character keeps its case.
pub fn parse_chord(text: &str) -> (result: Result<Chord, String>)
    ensures
        match result {
            Ok(chord) => chord_of(text@) == Ok::<Chord, Seq<char>>(chord),
            Err(error) => chord_of(text@) == Err::<Chord, Seq<char>>(error@),
        },
{
    let trimmed = trim(text);
    if trimmed.as_str().is_empty() {
        return Err("empty key string".to_owned());
    }
    let words = split(trimmed.as_str(), '+');
    let ghost texts = search::texts(words@);
    if find_gap(&words) {
        return Err(concat3("malformed chord '", text, "'"));
    }
    let last: usize = words.len() - 1;
    proof {
        assert(texts.drop_last() =~= texts.take(last as int));
        assert(texts.last() == words@[last as int]@);
    }
    match parse_modifiers(&words, last) {
        Ok(modifiers) => match parse_key_code(words[last].as_str()) {
            Ok(code) => Ok(Chord { code, modifiers }),
            Err(error) => Err(error),
        },
        Err(error) => Err(error),
    }
}

/// How a key is written.
pub open spec fn key_text(code: KeyCode) -> Seq<char> {
    match code {
        KeyCode::Char(character) => if character == ' ' {
            "space"@
        } else {
            seq![character]
        },
        KeyCode::F(number) => "f"@ + strings::decimal(number as nat),
        KeyCode::Enter => "enter"@,
        KeyCode::Esc => "esc"@,
        KeyCode::Tab => "tab"@,
        KeyCode::BackTab => "backtab"@,
        KeyCode::Backspace => "backspace"@,
        KeyCode::Delete => "delete"@,
        KeyCode::Insert => "insert"@,
        KeyCode::Left => "left"@,
        KeyCode::Right => "right"@,
        KeyCode::Up => "up"@,
        KeyCode::Down => "down"@,
        KeyCode::Home => "home"@,
        KeyCode::End => "end"@,
        KeyCode::PageUp => "pageup"@,
        KeyCode::PageDown => "pagedown"@,
        KeyCode::Unbound => Seq::empty(),
    }
}

/// How a modifier key is written, if it is held.
pub open spec fn modifier_text(held: bool, name: Seq<char>) -> Seq<char> {
    if held {
        name + "+"@
    } else {
        Seq::empty()
    }
}

/// How a chord is written.
pub open spec fn chord_text(chord: Chord) -> Seq<char> {
    modifier_text(chord.modifiers.control, "ctrl"@) + (modifier_text(chord.modifiers.alt, "alt"@) + (
    modifier_text(chord.modifiers.shift, "shift"@) + key_text(chord.code)))
}

fn key_code_to_string(code: KeyCode) -> (text: String)
    requires
        code != KeyCode::Unbound,
    ensures
        text@ == key_text(code),
{
    match code {
        KeyCode::Char(character) => if character == ' ' {
            "space".to_owned()
        } else {
            let mut text: String = String::new();
            text.push(character);
            proof {
                assert(text@ =~= seq![character]);
            }
            text
        },
        KeyCode::F(number) => {
            let digits = decimal_u64(number as u64);
            concat2("f", digits.as_str())
        },
        KeyCode::Enter => "enter".to_owned(),
        KeyCode::Esc => "esc".to_owned(),
        KeyCode::Tab => "tab".to_owned(),
        KeyCode::BackTab => "backtab".to_owned(),
        KeyCode::Backspace => "backspace".to_owned(),
        KeyCode::Delete => "delete".to_owned(),
        KeyCode::Insert => "insert".to_owned(),
        KeyCode::Left => "left".to_owned(),
        KeyCode::Right => "right".to_owned(),
        KeyCode::Up => "up".to_owned(),
        KeyCode::Down => "down".to_owned(),
        KeyCode::Home => "home".to_owned(),
        KeyCode::End => "end".to_owned(),
        KeyCode::PageUp => "pageup".to_owned(),
        KeyCode::PageDown => "pagedown".to_owned(),
        KeyCode::Unbound => String::new(),
    }
}

/// Writes a chord down.
pub fn chord_to_string(chord: Chord) -> (text: String)
    requires
        chord.code != KeyCode::Unbound,
    ensures
        text@ == chord_text(chord),
{
    let mut text = key_code_to_string(chord.code);
    proof {
        assert(Seq::<char>::empty() + text@ =~= text@);
    }
    if chord.modifiers.shift {
        text = concat3("shift", "+", text.as_str());
    }
    proof {
        assert(Seq::<char>::empty() + text@ =~= text@);
    }
    if chord.modifiers.alt {
        text = concat3("alt", "+", text.as_str());
    }
    proof {
        assert(Seq::<char>::empty() + text@ =~= text@);
    }
    if chord.modifiers.control {
        text = concat3("ctrl", "+", text.as_str());
    }
    text
}

/// The chord can be written down and read back: its key has a name, and is neither the plus sign,
/// which separates, nor white space other than the space bar.
pub open spec fn writable(chord: Chord) -> bool {
    match chord.code {
        KeyCode::Char(character) => character == ' ' || (character != '+'
            && !strings::is_white_space(character)),
        KeyCode::F(number) => 1 <= number <= 12,
        KeyCode::Unbound => false,
        _ => true,
    }
}

proof fn one_piece(text: Seq<char>, separator: char)
    requires
        !text.contains(separator),
    ensures
        search::pieces(text, separator) == seq![text],
    decreases text.len(),
{
    if text.len() > 0 {
        assert(text[text.len() - 1] == text.last());
        assert(!text.drop_last().contains(separator)) by {
            if text.drop_last().contains(separator) {
                let i = choose|i: int|
                    0 <= i < text.drop_last().len() && text.drop_last()[i] == separator;
                assert(text[i] == separator);
            }
        }
        one_piece(text.drop_last(), separator);
        assert(text.drop_last().push(text.last()) =~= text);
        assert(search::pieces(text, separator) =~= seq![text]);
    } else {
        assert(text =~= Seq::empty());
    }
}

proof fn first_piece(word: Seq<char>, rest: Seq<char>, separator: char)
    requires
        !word.contains(separator),
    ensures
        search::pieces(word.push(separator) + rest, separator) == seq![word] + search::pieces(
            rest,
            separator,
        ),
    decreases rest.len(),
{
    let text = word.push(separator) + rest;
    if rest.len() == 0 {
        one_piece(word, separator);
        assert(text =~= word.push(separator));
        assert(text.drop_last() =~= word);
        assert(search::pieces(text, separator) =~= seq![word] + search::pieces(rest, separator));
    } else {
        first_piece(word, rest.drop_last(), separator);
        assert(text.drop_last() =~= word.push(separator) + rest.drop_last());
        assert(text.last() == rest.last());
        assert(search::pieces(text, separator) =~= seq![word] + search::pieces(rest, separator));
    }
}

proof fn nothing_to_trim(text: Seq<char>)
    requires
        text.len() > 0,
        !strings::is_white_space(text[0]),
        !strings::is_white_space(text.last()),
    ensures
        search::trimmed(text) == text,
{
}

proof fn small_names(text: Seq<char>)
    requires
        forall|i: int| 0 <= i < text.len() ==> !strings::is_upper(#[trigger] text[i]),
    ensures
        strings::lower_ascii(text) == text,
{
    assert(strings::lower_ascii(text) =~= text);
}

proof fn reveal_key_names()
    ensures
        "enter"@ =~= seq!['e', 'n', 't', 'e', 'r'],
        "return"@ =~= seq!['r', 'e', 't', 'u', 'r', 'n'],
        "esc"@ =~= seq!['e', 's', 'c'],
        "escape"@ =~= seq!['e', 's', 'c', 'a', 'p', 'e'],
        "tab"@ =~= seq!['t', 'a', 'b'],
        "backtab"@ =~= seq!['b', 'a', 'c', 'k', 't', 'a', 'b'],
        "space"@ =~= seq!['s', 'p', 'a', 'c', 'e'],
        "up"@ =~= seq!['u', 'p'],
        "down"@ =~= seq!['d', 'o', 'w', 'n'],
        "left"@ =~= seq!['l', 'e', 'f', 't'],
        "right"@ =~= seq!['r', 'i', 'g', 'h', 't'],
        "pageup"@ =~= seq!['p', 'a', 'g', 'e', 'u', 'p'],
        "pagedown"@ =~= seq!['p', 'a', 'g', 'e', 'd', 'o', 'w', 'n'],
        "home"@ =~= seq!['h', 'o', 'm', 'e'],
        "end"@ =~= seq!['e', 'n', 'd'],
        "insert"@ =~= seq!['i', 'n', 's', 'e', 'r', 't'],
        "delete"@ =~= seq!['d', 'e', 'l', 'e', 't', 'e'],
        "del"@ =~= seq!['d', 'e', 'l'],
        "backspace"@ =~= seq!['b', 'a', 'c', 'k', 's', 'p', 'a', 'c', 'e'],
        "f"@ =~= seq!['f'],
{
    reveal_strlit("enter");
    reveal_strlit("return");
    reveal_strlit("esc");
    reveal_strlit("escape");
    reveal_strlit("tab");
    reveal_strlit("backtab");
    reveal_strlit("space");
    reveal_strlit("up");
    reveal_strlit("down");
    reveal_strlit("left");
    reveal_strlit("right");
    reveal_strlit("pageup");
    reveal_strlit("pagedown");
    reveal_strlit("home");
    reveal_strlit("end");
    reveal_strlit("insert");
    reveal_strlit("delete");
    reveal_strlit("del");
    reveal_strlit("backspace");
    reveal_strlit("f");
}

proof fn named_keys(code: KeyCode)
    requires
        match code {
            KeyCode::Char(character) => character == ' ',
            KeyCode::F(_) => false,
            KeyCode::Unbound => false,
            _ => true,
        },
    ensures
        key_of(key_text(code)) == Ok::<KeyCode, Seq<char>>(code),
        key_text(code).len() > 0,
        forall|i: int| 0 <= i < key_text(code).len() ==> strings::is_lower(
            #[trigger] key_text(code)[i],
        ),
{
    reveal_key_names();
    let text = key_text(code);
    small_names(text);
    assert(text[0] == text[0]);
    assert(text[1] == text[1]);
    assert(text[2] == text[2]);
    assert(text[4] == text[4]);
    assert(text[6] == text[6]);
}

proof fn function_keys(number: u8)
    requires
        1 <= number <= 12,
    ensures
        key_of(key_text(KeyCode::F(number))) == Ok::<KeyCode, Seq<char>>(KeyCode::F(number)),
        key_text(KeyCode::F(number)).len() > 1,
        key_text(KeyCode::F(number))[0] == 'f',
        forall|i: int| 1 <= i < key_text(KeyCode::F(number)).len() ==> strings::is_digit(
            #[trigger] key_text(KeyCode::F(number))[i],
        ),
{
    reveal_key_names();
    let digits = strings::decimal(number as nat);
    let text = key_text(KeyCode::F(number));
    lines::written_numbers_are_read_back(number as nat, u8::MAX as nat);
    assert(text.skip(1) =~= digits);
    assert forall|i: int| 1 <= i < text.len() implies strings::is_digit(#[trigger] text[i]) by {
        assert(text[i] == digits[i - 1]);
        lines::decimal_is_digits(number as nat);
    }
    lines::decimal_is_digits(number as nat);
    small_names(text);
    assert(key_named(text) is None) by {
        assert(text[0] == 'f');
    }
}

proof fn key_is_read_back(code: KeyCode)
    requires
        writable(Chord { code, modifiers: KeyModifiers { control: false, alt: false, shift: false } }),
    ensures
        key_of(key_text(code)) == Ok::<KeyCode, Seq<char>>(code),
        key_text(code).len() > 0,
        !key_text(code).contains('+'),
        !strings::is_white_space(key_text(code)[0]),
        !strings::is_white_space(key_text(code).last()),
{
    let text = key_text(code);
    match code {
        KeyCode::Char(character) => {
            if character == ' ' {
                named_keys(code);
                assert(text[text.len() - 1] == text.last());
            } else {
                reveal_key_names();
                assert(strings::lower_ascii(text).len() == 1);
            }
        },
        KeyCode::F(number) => {
            function_keys(number);
            assert(text[text.len() - 1] == text.last());
        },
        _ => {
            named_keys(code);
            assert(text[text.len() - 1] == text.last());
        },
    }
}

proof fn reveal_modifier_names()
    ensures
        "ctrl"@ =~= seq!['c', 't', 'r', 'l'],
        "control"@ =~= seq!['c', 'o', 'n', 't', 'r', 'o', 'l'],
        "alt"@ =~= seq!['a', 'l', 't'],
        "opt"@ =~= seq!['o', 'p', 't'],
        "option"@ =~= seq!['o', 'p', 't', 'i', 'o', 'n'],
        "shift"@ =~= seq!['s', 'h', 'i', 'f', 't'],
        "+"@ =~= seq!['+'],
        modifier_named(strings::lower_ascii("ctrl"@)) == Some(
            KeyModifiers { control: true, alt: false, shift: false },
        ),
        modifier_named(strings::lower_ascii("alt"@)) == Some(
            KeyModifiers { control: false, alt: true, shift: false },
        ),
        modifier_named(strings::lower_ascii("shift"@)) == Some(
            KeyModifiers { control: false, alt: false, shift: true },
        ),
{
    reveal_strlit("ctrl");
    reveal_strlit("control");
    reveal_strlit("alt");
    reveal_strlit("opt");
    reveal_strlit("option");
    reveal_strlit("shift");
    reveal_strlit("+");
    small_names("ctrl"@);
    small_names("alt"@);
    small_names("shift"@);
    assert("alt"@[0] == 'a');
    assert("shift"@[0] == 's');
}

/// The words that a chord is written with.
spec fn chord_words(chord: Chord) -> Seq<Seq<char>> {
    let key = seq![key_text(chord.code)];
    let shifted = if chord.modifiers.shift {
        seq!["shift"@] + key
    } else {
        key
    };
    let alternated = if chord.modifiers.alt {
        seq!["alt"@] + shifted
    } else {
        shifted
    };
    if chord.modifiers.control {
        seq!["ctrl"@] + alternated
    } else {
        alternated
    }
}

proof fn chord_is_cut(chord: Chord)
    requires
        writable(chord),
    ensures
        search::pieces(chord_text(chord), '+') == chord_words(chord),
        chord_text(chord).len() > 0,
        !strings::is_white_space(chord_text(chord)[0]),
        !strings::is_white_space(chord_text(chord).last()),
{
    reveal_modifier_names();
    key_is_read_back(chord.code);
    let key = key_text(chord.code);
    one_piece(key, '+');
    let shifted = modifier_text(chord.modifiers.shift, "shift"@) + key;
    if chord.modifiers.shift {
        assert(shifted =~= "shift"@.push('+') + key);
        first_piece("shift"@, key, '+');
    } else {
        assert(shifted =~= key);
    }
    assert(shifted.last() == key.last());
    let alternated = modifier_text(chord.modifiers.alt, "alt"@) + shifted;
    if chord.modifiers.alt {
        assert(alternated =~= "alt"@.push('+') + shifted);
        first_piece("alt"@, shifted, '+');
    } else {
        assert(alternated =~= shifted);
    }
    assert(alternated.last() == key.last());
    let text = modifier_text(chord.modifiers.control, "ctrl"@) + alternated;
    if chord.modifiers.control {
        assert(text =~= "ctrl"@.push('+') + alternated);
        first_piece("ctrl"@, alternated, '+');
    } else {
        assert(text =~= alternated);
    }
    assert(text.last() == key.last());
}

proof fn modifiers_are_read_back(chord: Chord)
    ensures
        modifiers_of(chord_words(chord).drop_last()) == Ok::<KeyModifiers, Seq<char>>(
            chord.modifiers,
        ),
{
    reveal_modifier_names();
    reveal_with_fuel(modifiers_of, 4);
    let words = chord_words(chord).drop_last();
    let (c, a, s) = (chord.modifiers.control, chord.modifiers.alt, chord.modifiers.shift);
    if c && a && s {
        assert(words =~= seq!["ctrl"@, "alt"@, "shift"@]);
        assert(words.drop_last() =~= seq!["ctrl"@, "alt"@]);
        assert(words.drop_last().drop_last() =~= seq!["ctrl"@]);
    } else if c && a {
        assert(words =~= seq!["ctrl"@, "alt"@]);
        assert(words.drop_last() =~= seq!["ctrl"@]);
    } else if c && s {
        assert(words =~= seq!["ctrl"@, "shift"@]);
        assert(words.drop_last() =~= seq!["ctrl"@]);
    } else if a && s {
        assert(words =~= seq!["alt"@, "shift"@]);
        assert(words.drop_last() =~= seq!["alt"@]);
    } else if c {
        assert(words =~= seq!["ctrl"@]);
    } else if a {
        assert(words =~= seq!["alt"@]);
    } else if s {
        assert(words =~= seq!["shift"@]);
    } else {
        assert(words =~= Seq::empty());
    }
}

/// A chord that was written down is read back.
pub proof fn chords_are_read_back(chord: Chord)
    requires
        writable(chord),
    ensures
        chord_of(chord_text(chord)) == Ok::<Chord, Seq<char>>(chord),
{
    reveal_modifier_names();
    chord_is_cut(chord);
    key_is_read_back(chord.code);
    modifiers_are_read_back(chord);
    nothing_to_trim(chord_text(chord));
    let words = chord_words(chord);
    assert(words.last() == key_text(chord.code));
    assert forall|i: int| 0 <= i < words.len() implies (#[trigger] words[i]).len() > 0 by {
    }
}

} // verus!
