//! The lock files that say which session acts as an agent.

use crate::search;
use crate::search::{find_chars, trim};
use crate::strings::{chars_of, same_text, string_of};
use vstd::prelude::*;

verus! {

/// Who holds the lock on an agent.
#[derive(Debug, PartialEq, Eq)]
pub enum LockStatus {
    Unlocked,
    Owned(String),
    ParseError,
}

/// The value of a hexadecimal digit.
pub open spec fn hex_value(byte: u8) -> Option<int> {
    if 48 <= byte <= 57 {
        Some(byte - 48)
    } else if 97 <= byte <= 102 {
        Some(byte - 97 + 10)
    } else if 65 <= byte <= 70 {
        Some(byte - 65 + 10)
    } else {
        None
    }
}

fn hex_digit(byte: u8) -> (value: Option<u8>)
    ensures
        match value {
            Some(value) => hex_value(byte) == Some(value as int) && value < 16,
            None => hex_value(byte) is None,
        },
{
    if 48 <= byte && byte <= 57 {
        Some((byte - 48) as u8)
    } else if 97 <= byte && byte <= 102 {
        Some((byte - 97 + 10) as u8)
    } else if 65 <= byte && byte <= 70 {
        Some((byte - 65 + 10) as u8)
    } else {
        None
    }
}

/// The byte that two characters after a percent sign stand for: two hexadecimal digits, or a plus
/// sign and one.
pub open spec fn hex_pair(first: u8, second: u8) -> Option<u8> {
    match (hex_value(first), hex_value(second)) {
        (Some(high), Some(low)) => Some((high * 16 + low) as u8),
        (None, Some(low)) => if first == 43 {
            Some(low as u8)
        } else {
            None
        },
        _ => None,
    }
}

fn decode_pair(first: u8, second: u8) -> (byte: Option<u8>)
    ensures
        byte == hex_pair(first, second),
{
    match (hex_digit(first), hex_digit(second)) {
        (Some(high), Some(low)) => Some(high * 16 + low),
        (None, Some(low)) => {
            if first == 43 {
                Some(low)
            } else {
                None
            }
        },
        _ => None,
    }
}

/// The bytes that percent-encoded bytes stand for; `None` if an escape is incomplete or wrong.
pub open spec fn decoded_bytes(bytes: Seq<u8>) -> Option<Seq<u8>>
    decreases bytes.len(),
{
    if bytes.len() == 0 {
        Some(Seq::empty())
    } else if bytes[0] == 37 {
        if bytes.len() < 3 {
            None
        } else {
            match (hex_pair(bytes[1], bytes[2]), decoded_bytes(bytes.skip(3))) {
                (Some(byte), Some(rest)) => Some(seq![byte] + rest),
                _ => None,
            }
        }
    } else {
        match decoded_bytes(bytes.skip(1)) {
            Some(rest) => Some(seq![bytes[0]] + rest),
            None => None,
        }
    }
}

/// The text that a percent-encoded text stands for.
pub open spec fn decoded_text(text: Seq<char>) -> Option<Seq<char>> {
    match decoded_bytes(vstd::utf8::encode_utf8(text)) {
        Some(bytes) => if vstd::utf8::valid_utf8(bytes) {
            Some(vstd::utf8::decode_utf8(bytes))
        } else {
            None
        },
        None => None,
    }
}

/// `String::from_utf8`: the text that the bytes encode, if they are UTF-8.
#[verifier::external_body]
fn utf8_text(bytes: Vec<u8>) -> (text: Option<String>)
    ensures
        match text {
            Some(text) => vstd::utf8::valid_utf8(bytes@) && text@ == vstd::utf8::decode_utf8(
                bytes@,
            ),
            None => !vstd::utf8::valid_utf8(bytes@),
        },
{
    String::from_utf8(bytes).ok()
}

/// Decodes a percent-encoded text.
pub fn percent_decode(text: &str) -> (decoded: Option<String>)
    ensures
        match decoded {
            Some(decoded) => decoded_text(text@) == Some(decoded@),
            None => decoded_text(text@) is None,
        },
{
    let bytes = text.as_bytes();
    let total: usize = bytes.len();
    let mut output: Vec<u8> = Vec::new();
    let mut index: usize = 0;
    let ghost all = bytes@;
    proof {
        assert(all.skip(0) =~= all);
        match decoded_bytes(all) {
            Some(rest) => {
                assert(Seq::<u8>::empty() + rest =~= rest);
            },
            None => {},
        }
    }
    while index < total
        invariant
            index <= total,
            total == all.len(),
            all == bytes@,
            all == vstd::utf8::encode_utf8(text@),
            decoded_bytes(all) == match decoded_bytes(all.skip(index as int)) {
                Some(rest) => Some(output@ + rest),
                None => None,
            },
        decreases total - index,
    {
        let ghost rest = all.skip(index as int);
        if bytes[index] == 37 {
            if total - index < 3 {
                return None;
            }
            proof {
                assert(rest[0] == all[index as int]);
                assert(rest[1] == all[index + 1]);
                assert(rest[2] == all[index + 2]);
                assert(rest.skip(3) =~= all.skip(index + 3));
            }
            match decode_pair(bytes[index + 1], bytes[index + 2]) {
                Some(byte) => {
                    let ghost before = output@;
                    output.push(byte);
                    proof {
                        match decoded_bytes(all.skip(index + 3)) {
                            Some(tail) => {
                                assert(before + (seq![byte] + tail) =~= output@ + tail);
                            },
                            None => {},
                        }
                    }
                },
                None => {
                    return None;
                },
            }
            index += 3;
        } else {
            proof {
                assert(rest[0] == all[index as int]);
                assert(rest.skip(1) =~= all.skip(index + 1));
            }
            let ghost before = output@;
            output.push(bytes[index]);
            proof {
                match decoded_bytes(all.skip(index + 1)) {
                    Some(tail) => {
                        assert(before + (seq![all[index as int]] + tail) =~= output@ + tail);
                    },
                    None => {},
                }
            }
            index += 1;
        }
    }
    proof {
        assert(all.skip(index as int) =~= Seq::empty());
        assert(output@ + Seq::<u8>::empty() =~= output@);
    }
    utf8_text(output)
}

/// What the name of a file in the run directory says.
#[derive(Debug, PartialEq, Eq)]
pub enum LockName {
    /// It is no lock file.
    NoLock,
    /// It is a lock file whose name cannot be read.
    Unreadable,
    /// It is the lock on an agent of a team.
    Lock { team: String, agent: String },
}

/// What stands between `actas.` and `.session` in the name of a lock file.
pub open spec fn lock_key(name: Seq<char>) -> Seq<char> {
    name.subrange("actas."@.len() as int, name.len() - ".session"@.len())
}

/// The name begins and ends like that of a lock file.
pub open spec fn is_lock_name(name: Seq<char>) -> bool {
    "actas."@.is_prefix_of(name) && ".session"@.is_suffix_of(name)
}

/// The first place at which the two parts of a lock's key meet.
pub open spec fn is_first_separator(key: Seq<char>, index: int) -> bool {
    &&& search::occurs_at(key, "__"@, index)
    &&& forall|i: int| 0 <= i < index ==> !#[trigger] search::occurs_at(key, "__"@, i)
}

/// What the name of a file says: `result` is the lock on the decoded team and agent, which stand
/// on both sides of the first double underscore.
pub open spec fn lock_name_of(name: Seq<char>, result: LockName) -> bool {
    if !is_lock_name(name) {
        result is NoLock
    } else if !search::contains_text(lock_key(name), "__"@) {
        result is Unreadable
    } else {
        exists|index: int|
            #![trigger is_first_separator(lock_key(name), index)]
            is_first_separator(lock_key(name), index) && match (
                decoded_text(lock_key(name).take(index)),
                decoded_text(lock_key(name).skip(index + 2)),
            ) {
                (Some(team), Some(agent)) => result matches LockName::Lock { team: t, agent: a }
                    && t@ == team && a@ == agent,
                _ => result is Unreadable,
            }
    }
}

/// Reads the name of a file in the run directory.
pub fn read_lock_name(name: &str) -> (result: LockName)
    requires
        name@ != "actas.session"@,
    ensures
        lock_name_of(name@, result),
{
    if !search::starts_with(name, "actas.") || !search::ends_with(name, ".session") {
        return LockName::NoLock;
    }
    proof {
        reveal_strlit("actas.");
        reveal_strlit(".session");
        reveal_strlit("__");
        reveal_strlit("actas.session");
        let n = name@.len() as int;
        assert(forall|i: int| 0 <= i < 6 ==> name@[i] == "actas."@[i]);
        assert(forall|i: int| 0 <= i < 8 ==> #[trigger] ".session"@[i] == name@[n - 8 + i]);
        if n < 14 {
            assert(".session"@[0] == name@[n - 8]);
            assert(n == 13);
            assert forall|i: int| 0 <= i < 13 implies name@[i] == "actas.session"@[i] by {
                if i >= 5 {
                    assert(".session"@[i - 5] == name@[n - 8 + (i - 5)]);
                }
            }
            assert(name@ =~= "actas.session"@);
        }
    }
    let chars = chars_of(name);
    let end: usize = chars.len() - 8;
    let key = chars_of(string_of(&chars, 6, end).as_str());
    assert(key@ == lock_key(name@));
    match find_chars(&key, &chars_of("__")) {
        None => LockName::Unreadable,
        Some(index) => {
            let team = string_of(&key, 0, index);
            let agent = string_of(&key, index + 2, key.len());
            proof {
                assert(team@ =~= key@.take(index as int));
                assert(agent@ =~= key@.skip(index + 2));
                assert(is_first_separator(key@, index as int));
            }
            match (percent_decode(team.as_str()), percent_decode(agent.as_str())) {
                (Some(team), Some(agent)) => LockName::Lock { team, agent },
                _ => LockName::Unreadable,
            }
        },
    }
}

/// What the run directory says about the lock on an agent.
#[derive(Debug, PartialEq, Eq)]
pub enum LockLookup {
    /// The file at this position is the lock.
    Found(usize),
    /// There is no lock, and every name could be read.
    Free,
    /// There is no lock among the names that could be read.
    Unclear,
}

/// The file at `index` is the lock on the agent.
pub open spec fn is_lock_on(
    names: Seq<Option<String>>,
    index: int,
    team: Seq<char>,
    agent: Seq<char>,
) -> bool {
    &&& names[index] matches Some(name) && exists|read: LockName|
        #![trigger lock_name_of(name@, read)]
        lock_name_of(name@, read) && (read matches LockName::Lock { team: t, agent: a } && t@ == team
            && a@ == agent)
}

/// The name of the file at `index` is not text, or is that of a lock that cannot be read.
pub open spec fn is_unreadable(names: Seq<Option<String>>, index: int) -> bool {
    match names[index] {
        None => true,
        Some(name) => exists|read: LockName|
            #![trigger lock_name_of(name@, read)]
            lock_name_of(name@, read) && read is Unreadable,
    }
}

/// Two readings of one name say the same.
proof fn lock_name_unique(name: Seq<char>, a: LockName, b: LockName)
    requires
        lock_name_of(name, a),
        lock_name_of(name, b),
    ensures
        a is NoLock <==> b is NoLock,
        a is Unreadable <==> b is Unreadable,
        a matches LockName::Lock { team: t, agent: g } ==> (b matches LockName::Lock {
            team: u,
            agent: h,
        } && t@ == u@ && g@ == h@),
{
    if is_lock_name(name) && search::contains_text(lock_key(name), "__"@) {
        let key = lock_key(name);
        let i = choose|index: int|
            #![trigger is_first_separator(key, index)]
            is_first_separator(key, index) && match (
                decoded_text(key.take(index)),
                decoded_text(key.skip(index + 2)),
            ) {
                (Some(team), Some(agent)) => a matches LockName::Lock { team: t, agent: g } && t@
                    == team && g@ == agent,
                _ => a is Unreadable,
            };
        let j = choose|index: int|
            #![trigger is_first_separator(key, index)]
            is_first_separator(key, index) && match (
                decoded_text(key.take(index)),
                decoded_text(key.skip(index + 2)),
            ) {
                (Some(team), Some(agent)) => b matches LockName::Lock { team: t, agent: g } && t@
                    == team && g@ == agent,
                _ => b is Unreadable,
            };
        if i < j {
            assert(!search::occurs_at(key, "__"@, i));
        } else if j < i {
            assert(!search::occurs_at(key, "__"@, j));
        }
    }
}

/// Looks for the lock on an agent among the names of the files in the run directory. A name that
/// is not text is given as `None`.
pub fn find_lock(names: &Vec<Option<String>>, team: &str, agent: &str) -> (lookup: LockLookup)
    requires
        forall|i: int|
            0 <= i < names@.len() ==> (#[trigger] names@[i] matches Some(name) ==> name@
                != "actas.session"@),
    ensures
        match lookup {
            LockLookup::Found(index) => index < names@.len() && is_lock_on(
                names@,
                index as int,
                team@,
                agent@,
            ) && forall|i: int| 0 <= i < index ==> !#[trigger] is_lock_on(names@, i, team@, agent@),
            LockLookup::Free => forall|i: int|
                0 <= i < names@.len() ==> !#[trigger] is_lock_on(names@, i, team@, agent@)
                    && !is_unreadable(names@, i),
            LockLookup::Unclear => (forall|i: int|
                0 <= i < names@.len() ==> !#[trigger] is_lock_on(names@, i, team@, agent@)) && (
            exists|i: int| 0 <= i < names@.len() && #[trigger] is_unreadable(names@, i)),
        },
{
    let mut unclear = false;
    let ghost mut witness: int = 0;
    let mut index: usize = 0;
    while index < names.len()
        invariant
            index <= names@.len(),
            forall|i: int|
                0 <= i < names@.len() ==> (#[trigger] names@[i] matches Some(name) ==> name@
                    != "actas.session"@),
            forall|i: int| 0 <= i < index ==> !#[trigger] is_lock_on(names@, i, team@, agent@),
            !unclear ==> forall|i: int| 0 <= i < index ==> !#[trigger] is_unreadable(names@, i),
            unclear ==> 0 <= witness < index && is_unreadable(names@, witness),
        decreases names@.len() - index,
    {
        let mut unreadable = false;
        match &names[index] {
            None => {
                unreadable = true;
                proof {
                    assert(names@[index as int] is None);
                    assert(is_unreadable(names@, index as int));
                    assert(!is_lock_on(names@, index as int, team@, agent@));
                }
            },
            Some(name) => {
                assert(names@[index as int] matches Some(n) && n@ == name@);
                let read = read_lock_name(name.as_str());
                let ghost reading = read;
                proof {
                    assert forall|other: LockName| #[trigger] lock_name_of(name@, other) implies (
                    reading is Unreadable <==> other is Unreadable) && (
                    other matches LockName::Lock { team: t, agent: a } ==> (
                    reading matches LockName::Lock { team: u, agent: h } && t@ == u@ && a@ == h@))
                        by {
                        lock_name_unique(name@, reading, other);
                        lock_name_unique(name@, other, reading);
                    }
                    assert(lock_name_of(name@, reading));
                }
                match read {
                    LockName::NoLock => {},
                    LockName::Unreadable => {
                        unreadable = true;
                    },
                    LockName::Lock { team: lock_team, agent: lock_agent } => {
                        if same_text(lock_team.as_str(), team) && same_text(
                            lock_agent.as_str(),
                            agent,
                        ) {
                            assert(is_lock_on(names@, index as int, team@, agent@));
                            return LockLookup::Found(index);
                        }
                    },
                }
                proof {
                    assert(!is_lock_on(names@, index as int, team@, agent@));
                    assert(unreadable == is_unreadable(names@, index as int));
                }
            },
        }
        if unreadable {
            unclear = true;
            proof {
                witness = index as int;
            }
        }
        index += 1;
    }
    if unclear {
        assert(is_unreadable(names@, witness));
        LockLookup::Unclear
    } else {
        LockLookup::Free
    }
}

/// The first line of a text, without the white space around it.
pub open spec fn first_line(content: Seq<char>) -> Seq<char> {
    search::trimmed(search::pieces(content, '\n')[0])
}

/// Who holds a lock, from the content of its file; a file that cannot be read has no content.
pub fn lock_owner(content: Option<&str>) -> (status: LockStatus)
    ensures
        match content {
            None => status is ParseError,
            Some(content) => if first_line(content@).len() == 0 {
                status is ParseError
            } else {
                status matches LockStatus::Owned(owner) && owner@ == first_line(content@)
            },
        },
{
    match content {
        None => LockStatus::ParseError,
        Some(content) => {
            let lines = search::split(content, '\n');
            let owner = trim(lines[0].as_str());
            proof {
                assert(search::texts(lines@)[0] == lines@[0]@);
            }
            if owner.as_str().is_empty() {
                LockStatus::ParseError
            } else {
                LockStatus::Owned(owner)
            }
        },
    }
}

/// What is known of a lock that was not found.
pub fn absent_lock_status(unclear: bool) -> (status: LockStatus)
    ensures
        status == if unclear {
            LockStatus::ParseError
        } else {
            LockStatus::Unlocked
        },
{
    if unclear {
        LockStatus::ParseError
    } else {
        LockStatus::Unlocked
    }
}

} // verus!
