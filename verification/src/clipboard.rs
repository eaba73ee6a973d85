//! Copying to the terminal's clipboard.
//!
//! The terminal takes the text as a control sequence that holds it in Base64.

use crate::strings::concat3;
use vstd::prelude::*;

verus! {

/// The Base64 digit of a value below sixty-four.
pub open spec fn digit(value: int) -> char {
    if value < 26 {
        ('A' as int + value) as char
    } else if value < 52 {
        ('a' as int + (value - 26)) as char
    } else if value < 62 {
        ('0' as int + (value - 52)) as char
    } else if value == 62 {
        '+'
    } else {
        '/'
    }
}

/// The digits of three bytes.
pub open spec fn group(first: u8, second: u8, third: u8) -> Seq<char> {
    seq![
        digit(first as int / 4),
        digit((first as int % 4) * 16 + second as int / 16),
        digit((second as int % 16) * 4 + third as int / 64),
        digit(third as int % 64),
    ]
}

/// Some bytes in Base64: three bytes are four digits, and equals signs fill the last group up.
pub open spec fn base64(bytes: Seq<u8>) -> Seq<char>
    decreases bytes.len(),
{
    if bytes.len() == 0 {
        Seq::empty()
    } else if bytes.len() == 1 {
        group(bytes[0], 0, 0).take(2) + seq!['=', '=']
    } else if bytes.len() == 2 {
        group(bytes[0], bytes[1], 0).take(3) + seq!['=']
    } else {
        group(bytes[0], bytes[1], bytes[2]) + base64(bytes.skip(3))
    }
}

fn digit_char(value: u8) -> (result: char)
    requires
        value < 64,
    ensures
        result == digit(value as int),
{
    if value < 26 {
        (65 + value) as char
    } else if value < 52 {
        (97 + (value - 26)) as char
    } else if value < 62 {
        (48 + (value - 52)) as char
    } else if value == 62 {
        '+'
    } else {
        '/'
    }
}

/// Encodes bytes in Base64.
pub fn base64_encode(input: &[u8]) -> (output: String)
    ensures
        output@ == base64(input@),
{
    let length: usize = input.len();
    let mut output: String = String::new();
    let mut index: usize = 0;
    proof {
        assert(input@.skip(0) =~= input@);
    }
    while index < length
        invariant
            index <= length,
            length == input@.len(),
            output@ + base64(input@.skip(index as int)) == base64(input@),
        decreases length - index,
    {
        let ghost before = output@;
        let ghost rest = input@.skip(index as int);
        let left: usize = length - index;
        let first: u8 = input[index];
        let second: u8 = if left > 1 {
            input[index + 1]
        } else {
            0
        };
        let third: u8 = if left > 2 {
            input[index + 2]
        } else {
            0
        };
        output.push(digit_char(first / 4));
        output.push(digit_char((first % 4) * 16 + second / 16));
        output.push(
            if left > 1 {
                digit_char((second % 16) * 4 + third / 64)
            } else {
                '='
            },
        );
        output.push(
            if left > 2 {
                digit_char(third % 64)
            } else {
                '='
            },
        );
        let step: usize = if left > 2 {
            3
        } else {
            left
        };
        proof {
            let added = if left == 1 {
                group(first, 0, 0).take(2) + seq!['=', '=']
            } else if left == 2 {
                group(first, second, 0).take(3) + seq!['=']
            } else {
                group(first, second, third)
            };
            assert(output@ =~= before + added);
            assert(rest.skip(step as int) =~= input@.skip(index + step));
            if left <= 2 {
                assert(rest.skip(step as int) =~= Seq::empty());
                assert(base64(rest) =~= added + base64(rest.skip(step as int)));
            }
            assert(before + base64(rest) =~= (before + added) + base64(rest.skip(step as int)));
        }
        index += step;
    }
    proof {
        assert(input@.skip(index as int) =~= Seq::empty());
        assert(output@ =~= output@ + base64(input@.skip(index as int)));
    }
    output
}

/// The control sequence that puts a text into the terminal's clipboard.
pub fn clipboard_sequence(body: &str) -> (sequence: String)
    ensures
        sequence@ == "\x1b]52;c;"@ + base64(vstd::utf8::encode_utf8(body@)) + "\x07"@,
{
    let encoded = base64_encode(body.as_bytes());
    concat3("\x1b]52;c;", encoded.as_str(), "\x07")
}

/// The value of a Base64 digit.
pub open spec fn value(digit: char) -> int {
    if 'A' <= digit <= 'Z' {
        digit as int - 'A' as int
    } else if 'a' <= digit <= 'z' {
        digit as int - 'a' as int + 26
    } else if '0' <= digit <= '9' {
        digit as int - '0' as int + 52
    } else if digit == '+' {
        62
    } else {
        63
    }
}

/// The bytes that a Base64 text stands for.
pub open spec fn decoded(text: Seq<char>) -> Seq<u8>
    decreases text.len(),
{
    if text.len() < 4 {
        Seq::empty()
    } else {
        let first = (value(text[0]) * 4 + value(text[1]) / 16) as u8;
        let second = ((value(text[1]) % 16) * 16 + value(text[2]) / 4) as u8;
        let third = ((value(text[2]) % 4) * 64 + value(text[3])) as u8;
        if text[2] == '=' {
            seq![first]
        } else if text[3] == '=' {
            seq![first, second]
        } else {
            seq![first, second, third] + decoded(text.skip(4))
        }
    }
}

proof fn digits_have_their_value(number: int)
    requires
        0 <= number < 64,
    ensures
        value(digit(number)) == number,
        digit(number) != '=',
{
}

/// What is put into the clipboard is what was copied: the encoded bytes are decoded to themselves.
pub proof fn base64_is_read_back(bytes: Seq<u8>)
    ensures
        decoded(base64(bytes)) == bytes,
    decreases bytes.len(),
{
    let text = base64(bytes);
    if bytes.len() > 0 {
        let first = bytes[0];
        let second = if bytes.len() > 1 {
            bytes[1]
        } else {
            0u8
        };
        let third = if bytes.len() > 2 {
            bytes[2]
        } else {
            0u8
        };
        digits_have_their_value(first as int / 4);
        digits_have_their_value((first as int % 4) * 16 + second as int / 16);
        digits_have_their_value((second as int % 16) * 4 + third as int / 64);
        digits_have_their_value(third as int % 64);
        if bytes.len() > 2 {
            base64_is_read_back(bytes.skip(3));
            assert(text.skip(4) =~= base64(bytes.skip(3)));
            assert(bytes =~= seq![first, second, third] + bytes.skip(3));
        } else if bytes.len() == 2 {
            assert(bytes =~= seq![first, second]);
        } else {
            assert(bytes =~= seq![first]);
        }
    } else {
        assert(bytes =~= Seq::empty());
    }
}

} // verus!
