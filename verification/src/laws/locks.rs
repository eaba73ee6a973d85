//! Locks: whose a lock file is, and who holds it.

use crate::bulk::lock;
use crate::bulk::lock::LockName;
use crate::search;
use vstd::prelude::*;

verus! {

proof fn plain_bytes_stay(bytes: Seq<u8>)
    requires
        forall|i: int| 0 <= i < bytes.len() ==> #[trigger] bytes[i] != 37,
    ensures
        lock::decoded_bytes(bytes) == Some(bytes),
    decreases bytes.len(),
{
    if bytes.len() > 0 {
        let rest = bytes.skip(1);
        assert forall|i: int| 0 <= i < rest.len() implies #[trigger] rest[i] != 37 by {
            assert(rest[i] == bytes[i + 1]);
        }
        plain_bytes_stay(rest);
        assert(bytes[0] != 37);
        assert(seq![bytes[0]] + rest =~= bytes);
    } else {
        assert(bytes =~= Seq::empty());
    }
}

/// The sixteen digits, small and capital, stand for the numbers from zero to fifteen.
pub proof fn hex_digits_count_to_sixteen(digit: u8)
    ensures
        48 <= digit <= 57 ==> lock::hex_value(digit) == Some(digit - 48),
        97 <= digit <= 102 ==> lock::hex_value(digit) == Some(digit - 97 + 10),
        65 <= digit <= 70 ==> lock::hex_value(digit) == Some(digit - 65 + 10),
        lock::hex_value(digit) is Some ==> 0 <= lock::hex_value(digit)->Some_0 < 16,
{
}

/// The digit that writes a number below sixteen.
pub open spec fn hex_digit(value: int) -> u8 {
    if value < 10 {
        (48 + value) as u8
    } else {
        (55 + value) as u8
    }
}

/// A byte that is written as a percent sign and two digits is read back, whatever stands behind it;
/// a percent sign without two digits behind it cannot be read, and any other byte stands for itself.
pub proof fn written_bytes_are_read_back(byte: u8, rest: Seq<u8>, other: u8)
    requires
        other != 37,
    ensures
        lock::decoded_bytes(
            seq![37u8, hex_digit(byte as int / 16), hex_digit(byte as int % 16)] + rest,
        ) == match lock::decoded_bytes(rest) {
            Some(decoded) => Some(seq![byte] + decoded),
            None => None,
        },
        lock::decoded_bytes(seq![other] + rest) == match lock::decoded_bytes(rest) {
            Some(decoded) => Some(seq![other] + decoded),
            None => None,
        },
        rest.len() < 2 ==> lock::decoded_bytes(seq![37u8] + rest) is None,
{
    let high = byte as int / 16;
    let low = byte as int % 16;
    let written = seq![37u8, hex_digit(high), hex_digit(low)] + rest;
    assert(written.skip(3) =~= rest);
    assert(lock::hex_value(hex_digit(high)) == Some(high));
    assert(lock::hex_value(hex_digit(low)) == Some(low));
    assert(high * 16 + low == byte);
    assert(lock::hex_pair(written[1], written[2]) == Some(byte));
    assert((seq![other] + rest).skip(1) =~= rest);
}

proof fn marked_bytes_are_high(byte: u8)
    ensures
        (0xC0u8 | byte) >= 0x80,
        (0xE0u8 | byte) >= 0x80,
        (0xF0u8 | byte) >= 0x80,
        (0x80u8 | byte) >= 0x80,
{
    assert((0xC0u8 | byte) >= 0x80 && (0xE0u8 | byte) >= 0x80 && (0xF0u8 | byte) >= 0x80 && (
    0x80u8 | byte) >= 0x80) by (bit_vector);
}

proof fn plain_characters_have_plain_bytes(code: u32)
    requires
        code != 37,
    ensures
        forall|i: int|
            0 <= i < vstd::utf8::encode_scalar(code).len() ==> #[trigger] vstd::utf8::encode_scalar(
                code,
            )[i] != 37,
{
    marked_bytes_are_high(((code >> 6) & 0x1F) as u8);
    marked_bytes_are_high(((code >> 12) & 0x0F) as u8);
    marked_bytes_are_high(((code >> 18) & 0x7) as u8);
    marked_bytes_are_high((code & 0x3F) as u8);
    marked_bytes_are_high(((code >> 6) & 0x3F) as u8);
    marked_bytes_are_high(((code >> 12) & 0x3F) as u8);
    if code <= 0x7F {
        assert((code & 0x7F) as u8 == code as u8) by (bit_vector)
            requires
                code <= 0x7F,
        ;
    }
}

proof fn plain_text_has_plain_bytes(text: Seq<char>)
    requires
        !text.contains('%'),
    ensures
        forall|i: int|
            0 <= i < vstd::utf8::encode_utf8(text).len() ==> #[trigger] vstd::utf8::encode_utf8(
                text,
            )[i] != 37,
    decreases text.len(),
{
    if text.len() > 0 {
        let rest = text.drop_first();
        assert(!rest.contains('%')) by {
            if rest.contains('%') {
                let i = choose|i: int| 0 <= i < rest.len() && rest[i] == '%';
                assert(text[i + 1] == '%');
            }
        }
        plain_text_has_plain_bytes(rest);
        let character = text[0];
        vstd::utf8::char_is_scalar(character);
        vstd::utf8::char_u32_cast(character, character as u32);
        assert(character != '%');
        assert(character as u32 != 37);
        plain_characters_have_plain_bytes(text[0] as u32);
        let first = vstd::utf8::encode_scalar(text[0] as u32);
        let bytes = vstd::utf8::encode_utf8(text);
        assert forall|i: int| 0 <= i < bytes.len() implies #[trigger] bytes[i] != 37 by {
            if i < first.len() {
                assert(bytes[i] == first[i]);
            } else {
                assert(bytes[i] == vstd::utf8::encode_utf8(rest)[i - first.len()]);
            }
        }
    }
}

proof fn plain_text_stays(text: Seq<char>)
    requires
        !text.contains('%'),
    ensures
        lock::decoded_text(text) == Some(text),
{
    plain_text_has_plain_bytes(text);
    plain_bytes_stay(vstd::utf8::encode_utf8(text));
    vstd::utf8::encode_utf8_valid_utf8(text);
    vstd::utf8::encode_utf8_decode_utf8(text);
}

/// The lock file of an agent names the team first and the agent behind it: its name is read back as
/// exactly these two.
pub proof fn lock_names_are_read_back(team: Seq<char>, agent: Seq<char>, result: LockName)
    requires
        !team.contains('%'),
        !team.contains('_'),
        !agent.contains('%'),
        lock::lock_name_of("actas."@ + team + "__"@ + agent + ".session"@, result),
    ensures
        result matches LockName::Lock { team: t, agent: a } && t@ == team && a@ == agent,
{
    reveal_strlit("actas.");
    reveal_strlit("__");
    reveal_strlit(".session");
    let head = "actas."@;
    let mark = "__"@;
    let tail = ".session"@;
    let name = head + team + mark + agent + tail;
    let key = team + mark + agent;
    assert(head =~= name.subrange(0, head.len() as int));
    assert(tail =~= name.subrange(name.len() - tail.len(), name.len() as int));
    assert(lock::lock_key(name) =~= key);
    let place = team.len() as int;
    assert(key.subrange(place, place + 2) =~= mark);
    assert(search::occurs_at(key, mark, place));
    assert(search::contains_text(key, mark));
    assert forall|i: int| 0 <= i < place implies !#[trigger] search::occurs_at(key, mark, i) by {
        if search::occurs_at(key, mark, i) {
            assert(key.subrange(i, i + 2)[0] == mark[0]);
            assert(team[i] == '_');
        }
    }
    assert(lock::is_first_separator(key, place));
    let index = choose|index: int|
        #![trigger lock::is_first_separator(key, index)]
        lock::is_first_separator(key, index) && match (
            lock::decoded_text(key.take(index)),
            lock::decoded_text(key.skip(index + 2)),
        ) {
            (Some(t), Some(a)) => result matches LockName::Lock { team: x, agent: y } && x@ == t
                && y@ == a,
            _ => result is Unreadable,
        };
    assert(index == place);
    assert(key.take(place) =~= team);
    assert(key.skip(place + 2) =~= agent);
    plain_text_stays(team);
    plain_text_stays(agent);
}

/// A file that does not begin and end as lock files do is none.
pub proof fn other_files_are_no_locks(name: Seq<char>, result: LockName)
    requires
        lock::lock_name_of(name, result),
    ensures
        !"actas."@.is_prefix_of(name) || !".session"@.is_suffix_of(name) <==> result is NoLock,
{
    if "actas."@.is_prefix_of(name) && ".session"@.is_suffix_of(name) {
        if search::contains_text(lock::lock_key(name), "__"@) {
            assert(!(result is NoLock));
        }
    }
}

/// The holder of a lock stands in the first line of its file, without the white space around it.
pub proof fn holders_stand_in_the_first_line(line: Seq<char>, rest: Seq<char>)
    requires
        !line.contains('\n'),
    ensures
        lock::first_line(line) == search::trimmed(line),
        lock::first_line(line.push('\n') + rest) == search::trimmed(line),
    decreases rest.len(),
{
    first_piece(line, rest);
}

proof fn whole_line_is_one_piece(line: Seq<char>)
    requires
        !line.contains('\n'),
    ensures
        search::pieces(line, '\n') == seq![line],
    decreases line.len(),
{
    if line.len() > 0 {
        let shorter = line.drop_last();
        assert(!shorter.contains('\n')) by {
            if shorter.contains('\n') {
                let i = choose|i: int| 0 <= i < shorter.len() && shorter[i] == '\n';
                assert(line[i] == '\n');
            }
        }
        whole_line_is_one_piece(shorter);
        assert(line[line.len() - 1] != '\n');
        assert(shorter.push(line.last()) =~= line);
        assert(search::pieces(line, '\n') =~= seq![line]);
    } else {
        assert(line =~= Seq::empty());
    }
}

proof fn first_piece(line: Seq<char>, rest: Seq<char>)
    requires
        !line.contains('\n'),
    ensures
        search::pieces(line, '\n') == seq![line],
        search::pieces(line.push('\n') + rest, '\n').len() >= 2,
        search::pieces(line.push('\n') + rest, '\n')[0] == line,
    decreases rest.len(),
{
    whole_line_is_one_piece(line);
    let text = line.push('\n') + rest;
    if rest.len() == 0 {
        assert(text.drop_last() =~= line);
        assert(text.last() == '\n');
    } else {
        first_piece(line, rest.drop_last());
        assert(text.drop_last() =~= line.push('\n') + rest.drop_last());
    }
}

/// A file that is named for a team and an agent is the lock on these two, and on nobody else.
pub proof fn locks_are_on_one_agent(
    names: Seq<Option<String>>,
    index: int,
    team: Seq<char>,
    agent: Seq<char>,
    own_team: Seq<char>,
    own_agent: Seq<char>,
)
    requires
        0 <= index < names.len(),
        !own_team.contains('%'),
        !own_team.contains('_'),
        !own_agent.contains('%'),
        names[index] matches Some(name) && name@ == "actas."@ + own_team + "__"@ + own_agent
            + ".session"@,
        lock::is_lock_on(names, index, team, agent),
    ensures
        team == own_team,
        agent == own_agent,
{
    let name = names[index]->Some_0;
    let read = choose|read: LockName|
        #![trigger lock::lock_name_of(name@, read)]
        lock::lock_name_of(name@, read) && (read matches LockName::Lock { team: t, agent: a } && t@
            == team && a@ == agent);
    lock_names_are_read_back(own_team, own_agent, read);
}

} // verus!
