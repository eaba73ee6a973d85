//! Text as sequences of characters: the functions on strings that the rest of the library uses.

use vstd::prelude::*;

verus! {

/// `String::push` appends one character.
pub assume_specification[ String::push ](text: &mut String, character: char)
    ensures
        final(text)@ == old(text)@.push(character),
;

/// `String::pop` takes the last character off and returns it; an empty string stays as it is.
pub assume_specification[ String::pop ](text: &mut String) -> (character: Option<char>)
    ensures
        old(text)@.len() == 0 ==> character is None && final(text)@ == old(text)@,
        old(text)@.len() > 0 ==> character == Some(old(text)@.last()) && final(text)@
            == old(text)@.drop_last(),
;

/// `String::clear` leaves the empty string.
pub assume_specification[ String::clear ](text: &mut String)
    ensures
        final(text)@ == Seq::<char>::empty(),
;

/// What `str::to_lowercase` makes of a text: its Unicode lowercase form.
pub uninterp spec fn lowercase(text: Seq<char>) -> Seq<char>;

/// `str::to_lowercase`. The result depends on the text alone and is named [`lowercase`]; the
/// Unicode case tables themselves are not stated.
#[verifier::external_body]
pub(crate) fn to_lowercase(text: &str) -> (lower: String)
    ensures
        lower@ == lowercase(text@),
{
    text.to_lowercase()
}

/// Unicode's White_Space property.
pub open spec fn is_white_space(character: char) -> bool {
    let code = character as u32;
    ||| 0x09 <= code <= 0x0d
    ||| code == 0x20
    ||| code == 0x85
    ||| code == 0xa0
    ||| code == 0x1680
    ||| 0x2000 <= code <= 0x200a
    ||| code == 0x2028
    ||| code == 0x2029
    ||| code == 0x202f
    ||| code == 0x205f
    ||| code == 0x3000
}

/// Whether a character has Unicode's White_Space property.
pub fn char_is_whitespace(character: char) -> (white: bool)
    ensures
        white == is_white_space(character),
{
    let code = character as u32;
    (0x09 <= code && code <= 0x0d) || code == 0x20 || code == 0x85 || code == 0xa0 || code
        == 0x1680 || (0x2000 <= code && code <= 0x200a) || code == 0x2028 || code == 0x2029 || code
        == 0x202f || code == 0x205f || code == 0x3000
}

/// Unicode's general category Cc: the two blocks of control characters.
pub open spec fn is_control_char(character: char) -> bool {
    (character as u32) < 0x20 || 0x7f <= (character as u32) < 0xa0
}

/// Whether a character is a control character.
pub fn char_is_control(character: char) -> (control: bool)
    ensures
        control == is_control_char(character),
{
    (character as u32) < 0x20 || (0x7f <= (character as u32) && (character as u32) < 0xa0)
}

pub open spec fn is_digit(character: char) -> bool {
    '0' <= character <= '9'
}

pub open spec fn is_lower(character: char) -> bool {
    'a' <= character <= 'z'
}

pub open spec fn is_upper(character: char) -> bool {
    'A' <= character <= 'Z'
}

/// Whether a character is an ASCII digit.
pub fn char_is_digit(character: char) -> (digit: bool)
    ensures
        digit == is_digit(character),
{
    '0' <= character && character <= '9'
}

/// Whether a character is an ASCII lowercase letter.
pub fn char_is_lower(character: char) -> (lower: bool)
    ensures
        lower == is_lower(character),
{
    'a' <= character && character <= 'z'
}

/// A character with an ASCII capital made small.
pub open spec fn small_ascii(character: char) -> char {
    if is_upper(character) {
        (character as u8 + 32) as char
    } else {
        character
    }
}

/// A text with its ASCII capitals made small.
pub open spec fn lower_ascii(text: Seq<char>) -> Seq<char> {
    text.map_values(|character: char| small_ascii(character))
}

/// Makes the ASCII capitals of a text small.
pub fn to_ascii_lowercase(text: &str) -> (lower: String)
    ensures
        lower@ == lower_ascii(text@),
{
    let chars = chars_of(text);
    let mut lower: String = String::new();
    let mut index: usize = 0;
    while index < chars.len()
        invariant
            index <= chars@.len(),
            chars@ == text@,
            lower@ == lower_ascii(text@).take(index as int),
        decreases chars@.len() - index,
    {
        let character = chars[index];
        if 'A' <= character && character <= 'Z' {
            lower.push((character as u8 + 32) as char);
        } else {
            lower.push(character);
        }
        index += 1;
        proof {
            assert(lower@ =~= lower_ascii(text@).take(index as int));
        }
    }
    proof {
        assert(lower_ascii(text@).take(index as int) =~= lower_ascii(text@));
    }
    lower
}

/// The characters of a string slice, in order.
pub fn chars_of(text: &str) -> (chars: Vec<char>)
    ensures
        chars@ == text@,
{
    let mut chars: Vec<char> = Vec::new();
    for c in it: text.chars()
        invariant
            chars@ == it.seq().take(it.index() as int),
            it.seq() == text@,
    {
        chars.push(c);
    }
    chars
}

/// The number of characters of a string slice.
pub fn char_count(text: &str) -> (count: usize)
    ensures
        count == text@.len(),
{
    text.unicode_len()
}

/// The string of the characters `from..to`.
pub fn string_of(chars: &Vec<char>, from: usize, to: usize) -> (text: String)
    requires
        from <= to <= chars@.len(),
    ensures
        text@ == chars@.subrange(from as int, to as int),
{
    let mut text: String = String::new();
    let mut index: usize = from;
    while index < to
        invariant
            from <= index <= to <= chars@.len(),
            text@ == chars@.subrange(from as int, index as int),
        decreases to - index,
    {
        text.push(chars[index]);
        index += 1;
        proof {
            assert(chars@.subrange(from as int, index as int) =~= chars@.subrange(
                from as int,
                index - 1,
            ).push(chars@[index - 1]));
        }
    }
    text
}

/// The string of all the characters.
pub fn string_from(chars: &Vec<char>) -> (text: String)
    ensures
        text@ == chars@,
{
    let text = string_of(chars, 0, chars.len());
    proof {
        assert(chars@.subrange(0, chars@.len() as int) =~= chars@);
    }
    text
}

/// Whether two texts hold the same characters.
pub fn same_text(left: &str, right: &str) -> (same: bool)
    ensures
        same == (left@ == right@),
{
    left.to_owned() == right.to_owned()
}

/// What an optional text holds.
pub open spec fn held(text: Option<String>) -> Option<Seq<char>> {
    match text {
        Some(text) => Some(text@),
        None => None,
    }
}

/// Whether an optional text is there and holds the same characters as another.
pub fn option_is(left: &Option<String>, right: &str) -> (same: bool)
    ensures
        same == (*left matches Some(text) && text@ == right@),
{
    match left {
        Some(text) => same_text(text.as_str(), right),
        None => false,
    }
}

/// Two texts one after the other.
pub fn concat2(a: &str, b: &str) -> (text: String)
    ensures
        text@ == a@ + b@,
{
    let mut text = a.to_owned();
    text.append(b);
    text
}

/// Three texts one after the other.
pub fn concat3(a: &str, b: &str, c: &str) -> (text: String)
    ensures
        text@ == a@ + b@ + c@,
{
    let mut text = a.to_owned();
    text.append(b);
    text.append(c);
    text
}

/// Four texts one after the other.
pub fn concat4(a: &str, b: &str, c: &str, d: &str) -> (text: String)
    ensures
        text@ == a@ + b@ + c@ + d@,
{
    let mut text = a.to_owned();
    text.append(b);
    text.append(c);
    text.append(d);
    text
}

/// Five texts one after the other.
pub fn concat5(a: &str, b: &str, c: &str, d: &str, e: &str) -> (text: String)
    ensures
        text@ == a@ + b@ + c@ + d@ + e@,
{
    let mut text = a.to_owned();
    text.append(b);
    text.append(c);
    text.append(d);
    text.append(e);
    text
}

/// The decimal digit of a value below ten.
pub open spec fn digit_char(value: nat) -> char {
    (('0' as nat) + value % 10) as char
}

/// A natural number in decimal, without leading zeros.
pub open spec fn decimal(value: nat) -> Seq<char>
    decreases value,
{
    if value < 10 {
        seq![digit_char(value)]
    } else {
        decimal(value / 10).push(digit_char(value))
    }
}

/// A number in two digits at least.
pub open spec fn two_digits(number: nat) -> Seq<char> {
    if number < 10 {
        "0"@ + decimal(number)
    } else {
        decimal(number)
    }
}

/// An integer in decimal, with a minus sign if it is negative.
pub open spec fn signed_decimal(value: int) -> Seq<char> {
    if value < 0 {
        seq!['-'] + decimal((-value) as nat)
    } else {
        decimal(value as nat)
    }
}

fn decimal_digit(value: u128) -> (digit: char)
    requires
        value < 10,
    ensures
        digit == digit_char(value as nat),
{
    let code: u8 = 48u8 + value as u8;
    code as char
}

/// An unsigned number in decimal.
pub fn decimal_u128(value: u128) -> (text: String)
    ensures
        text@ == decimal(value as nat),
    decreases value,
{
    if value < 10 {
        let mut text: String = String::new();
        text.push(decimal_digit(value));
        proof {
            assert(text@ =~= seq![digit_char(value as nat)]);
        }
        text
    } else {
        let mut text = decimal_u128(value / 10);
        text.push(decimal_digit(value % 10));
        text
    }
}

/// An unsigned 64-bit number in decimal.
pub fn decimal_u64(value: u64) -> (text: String)
    ensures
        text@ == decimal(value as nat),
{
    decimal_u128(value as u128)
}

/// Two numbers with the same decimal form are the same number.
pub proof fn decimal_injective(a: nat, b: nat)
    requires
        decimal(a) == decimal(b),
    ensures
        a == b,
    decreases a,
{
    assert(digit_char(a) == decimal(a).last());
    assert(digit_char(b) == decimal(b).last());
    assert(a % 10 == b % 10) by {
        assert(digit_char(a) as nat == '0' as nat + a % 10);
        assert(digit_char(b) as nat == '0' as nat + b % 10);
    }
    if a >= 10 && b >= 10 {
        assert(decimal(a / 10) =~= decimal(a).drop_last());
        assert(decimal(b / 10) =~= decimal(b).drop_last());
        decimal_injective(a / 10, b / 10);
    } else {
        if a >= 10 {
            decimal_nonempty(a / 10);
            assert(decimal(a).len() == decimal(a / 10).len() + 1);
            assert(decimal(b).len() == 1);
        }
        if b >= 10 {
            decimal_nonempty(b / 10);
            assert(decimal(b).len() == decimal(b / 10).len() + 1);
            assert(decimal(a).len() == 1);
        }
    }
}

/// Every number has at least one digit.
pub proof fn decimal_nonempty(value: nat)
    ensures
        decimal(value).len() > 0,
    decreases value,
{
    if value >= 10 {
        decimal_nonempty(value / 10);
    }
}

/// A length or an index in decimal.
pub fn decimal_usize(value: usize) -> (text: String)
    ensures
        text@ == decimal(value as nat),
{
    decimal_u64(value as u64)
}

/// A signed 64-bit number in decimal.
pub fn decimal_i64(value: i64) -> (text: String)
    ensures
        text@ == signed_decimal(value as int),
{
    if value < 0 {
        let magnitude: u64 = if value == i64::MIN {
            9_223_372_036_854_775_808u64
        } else {
            (-value) as u64
        };
        let digits = decimal_u64(magnitude);
        let text = concat2("-", digits.as_str());
        proof {
            reveal_strlit("-");
            assert("-"@ =~= seq!['-']);
        }
        text
    } else {
        decimal_u64(value as u64)
    }
}

} // verus!
