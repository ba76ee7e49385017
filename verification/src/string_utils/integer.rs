//! Integer literals, which are kept as texts.

use vstd::prelude::*;
use crate::decimal::{decimal, push_decimal};
use crate::text::{chars_of, push_char};

verus! {

/// The error of std for a text that is no number. The library hands such
/// a value on and never looks into it.
#[verifier::external_type_specification]
#[verifier::external_body]
pub struct ExParseIntError(std::num::ParseIntError);

/// The value of a digit: `0` to `9`, then the letters in either case from
/// ten on.
pub open spec fn digit_value(c: char) -> Option<nat> {
    if '0' <= c && c <= '9' {
        Some((c as u8 - 0x30u8) as nat)
    } else if 'a' <= c && c <= 'z' {
        Some((c as u8 - 0x61u8 + 10) as nat)
    } else if 'A' <= c && c <= 'Z' {
        Some((c as u8 - 0x41u8 + 10) as nat)
    } else {
        None
    }
}

/// Whether `s` is a run of at least one digit of the base `radix`.
pub open spec fn all_digits(s: Seq<char>, radix: nat) -> bool {
    &&& s.len() > 0
    &&& forall|i: int|
        0 <= i < s.len() ==> digit_value(#[trigger] s[i]) is Some && digit_value(s[i])->Some_0
            < radix
}

/// The number that a run of digits denotes in the base `radix`.
pub open spec fn radix_value(s: Seq<char>, radix: nat) -> nat
    decreases s.len(),
{
    if s.len() == 0 {
        0
    } else {
        radix_value(s.drop_last(), radix) * radix + match digit_value(s.last()) {
            Some(d) => d,
            None => 0,
        }
    }
}

/// The signed number of 64 bits that `s` denotes in the base `radix`, if it
/// denotes one: an optional sign, then at least one digit and nothing else,
/// and a value that fits.
pub open spec fn parsed(s: Seq<char>, radix: nat) -> Option<int> {
    let negative = s.len() > 0 && s[0] == '-';
    let digits = if s.len() > 0 && (s[0] == '-' || s[0] == '+') {
        s.skip(1)
    } else {
        s
    };
    let value = radix_value(digits, radix);
    if !all_digits(digits, radix) {
        None
    } else if negative && value <= 0x8000_0000_0000_0000 {
        Some(-(value as int))
    } else if !negative && value <= 0x7FFF_FFFF_FFFF_FFFF {
        Some(value as int)
    } else {
        None
    }
}

/// The decimal numeral of a number, with a minus sign where it is negative.
pub open spec fn signed_decimal(n: int) -> Seq<char> {
    if n < 0 {
        seq!['-'] + decimal((-n) as nat)
    } else {
        decimal(n as nat)
    }
}

/// The number that an integer literal denotes, if it denotes one: binary
/// after `0b`, hexadecimal after `0x`, octal after any other `0` that does
/// not stand alone, and decimal everywhere else.
pub open spec fn literal_value(s: Seq<char>) -> Option<int> {
    if s.len() > 1 && s[0] == '0' {
        if s[1] == 'b' || s[1] == 'B' {
            parsed(s.skip(2), 2)
        } else if s[1] == 'x' || s[1] == 'X' {
            parsed(s.skip(2), 16)
        } else {
            parsed(s, 8)
        }
    } else {
        parsed(s, 10)
    }
}

/// Reads a signed number of 64 bits in the base `radix`.
///
/// Wraps `i64::from_str_radix`, which expects an optional `+` or `-` sign
/// followed by only digits of the base, where the digits are `0-9`, `a-z`
/// and `A-Z`; anything else, the empty text and a number that does not fit
/// are errors. It panics for a base outside of 2 to 36.
#[verifier::external_body]
fn parse_radix(s: &str, radix: u32) -> (r: Result<i64, std::num::ParseIntError>)
    requires
        2 <= radix <= 36,
    ensures
        match r {
            Ok(v) => parsed(s@, radix as nat) == Some(v as int),
            Err(_) => parsed(s@, radix as nat) is None,
        },
{
    i64::from_str_radix(s, radix)
}

/// The decimal numeral of the integer literal `s`, which may be binary,
/// octal, decimal or hexadecimal.
pub fn to_decimal(s: &str) -> (r: Result<String, std::num::ParseIntError>)
    ensures
        match r {
            Ok(text) => literal_value(s@) is Some && text@ == signed_decimal(
                literal_value(s@)->Some_0,
            ),
            Err(_) => literal_value(s@) is None,
        },
{
    let chars = chars_of(s);
    // A lone zero is decimal, not the start of an octal literal.
    let num = if chars.len() > 1 && chars[0] == '0' {
        if chars[1] == 'b' || chars[1] == 'B' {
            let digits = s.substring_char(2, chars.len());
            assert(digits@ =~= s@.skip(2));
            parse_radix(digits, 2)
        } else if chars[1] == 'x' || chars[1] == 'X' {
            let digits = s.substring_char(2, chars.len());
            assert(digits@ =~= s@.skip(2));
            parse_radix(digits, 16)
        } else {
            parse_radix(s, 8)
        }
    } else {
        parse_radix(s, 10)
    };
    match num {
        Ok(n) => {
            let mut text = String::new();
            if n < 0 {
                push_char(&mut text, '-');
                let magnitude: u64 = if n == i64::MIN {
                    0x8000_0000_0000_0000
                } else {
                    (-n) as u64
                };
                push_decimal(&mut text, magnitude);
            } else {
                push_decimal(&mut text, n as u64);
            }
            assert(text@ =~= signed_decimal(n as int));
            Ok(text)
        },
        Err(e) => Err(e),
    }
}

} // verus!
