//! The surface syntax of suppression pragmas: one of two keywords, blanks,
//! and a decimal code in square brackets.
//!
//! ```text
//! HH_FIXME [ \t\n]* "[" [0-9]+ "]"
//! HH_IGNORE_ERROR [ \t\n]* "[" [0-9]+ "]"
//! ```

use vstd::prelude::*;
use vstd::string::StringSliceAdditionalSpecFns;

verus! {

/// The bytes of a text of ASCII characters.
pub open spec fn ascii(s: Seq<char>) -> Seq<u8> {
    Seq::new(s.len(), |i: int| s[i] as u8)
}

/// Whether `b` may stand between the keyword and the bracket: a space, a
/// tab or a line feed.
pub open spec fn is_blank(b: u8) -> bool {
    b == 0x20u8 || b == 0x09u8 || b == 0x0Au8
}

pub open spec fn is_digit(b: u8) -> bool {
    0x30u8 <= b <= 0x39u8
}

/// Whether `word` stands in `text` at byte `i`.
pub open spec fn has_at(text: Seq<u8>, i: int, word: Seq<u8>) -> bool {
    &&& 0 <= i
    &&& i + word.len() <= text.len()
    &&& text.subrange(i, i + word.len()) == word
}

/// The length of the keyword that stands in `text` at byte `i`, if one does.
pub open spec fn keyword_at(text: Seq<u8>, i: int) -> Option<int> {
    if has_at(text, i, ascii("HH_FIXME"@)) {
        Some(8)
    } else if has_at(text, i, ascii("HH_IGNORE_ERROR"@)) {
        Some(15)
    } else {
        None
    }
}

/// The first byte at or after `i` that is no blank, or the length of `text`.
pub open spec fn skip_blanks(text: Seq<u8>, i: int) -> int
    decreases text.len() - i,
{
    if 0 <= i < text.len() && is_blank(text[i]) {
        skip_blanks(text, i + 1)
    } else {
        i
    }
}

/// The first byte at or after `i` that is no digit, or the length of `text`.
pub open spec fn skip_digits(text: Seq<u8>, i: int) -> int
    decreases text.len() - i,
{
    if 0 <= i < text.len() && is_digit(text[i]) {
        skip_digits(text, i + 1)
    } else {
        i
    }
}

/// Where a pragma stands in `text` at byte `i`, the bytes from which to
/// which its code runs.
pub open spec fn pragma_at(text: Seq<u8>, i: int) -> Option<(int, int)> {
    match keyword_at(text, i) {
        None => None,
        Some(k) => {
            let open = skip_blanks(text, i + k);
            let from = open + 1;
            let to = skip_digits(text, from);
            if open < text.len() && text[open] == 0x5Bu8 && from < to && to < text.len()
                && text[to] == 0x5Du8 {
                Some((from, to))
            } else {
                None
            }
        },
    }
}

/// The code digits of the first pragma that stands in `text` at or after
/// byte `i`.
pub open spec fn first_pragma(text: Seq<u8>, i: int) -> Option<(int, int)>
    decreases text.len() - i,
{
    if i < 0 || i >= text.len() {
        None
    } else if pragma_at(text, i) is Some {
        pragma_at(text, i)
    } else {
        first_pragma(text, i + 1)
    }
}

/// The number that a run of decimal digits denotes.
pub open spec fn decimal_value(digits: Seq<u8>) -> nat
    decreases digits.len(),
{
    if digits.len() == 0 {
        0
    } else {
        decimal_value(digits.drop_last()) * 10 + (digits.last() - 0x30u8) as nat
    }
}

/// The code of the first pragma in `text`. There is none where no pragma
/// stands in `text`, and none where the code of the first one is too large
/// for a machine word.
pub open spec fn pragma_code(text: Seq<u8>) -> Option<isize> {
    match first_pragma(text, 0) {
        None => None,
        Some((from, to)) => {
            let value = decimal_value(text.subrange(from, to));
            if value <= isize::MAX {
                Some(value as isize)
            } else {
                None
            }
        },
    }
}

proof fn lemma_skip_blanks_bounds(text: Seq<u8>, i: int)
    requires
        0 <= i <= text.len(),
    ensures
        i <= skip_blanks(text, i) <= text.len(),
    decreases text.len() - i,
{
    if i < text.len() && is_blank(text[i]) {
        lemma_skip_blanks_bounds(text, i + 1);
    }
}

proof fn lemma_skip_digits_bounds(text: Seq<u8>, i: int)
    requires
        0 <= i <= text.len(),
    ensures
        i <= skip_digits(text, i) <= text.len(),
        forall|j: int| i <= j < skip_digits(text, i) ==> is_digit(#[trigger] text[j]),
    decreases text.len() - i,
{
    if i < text.len() && is_digit(text[i]) {
        lemma_skip_digits_bounds(text, i + 1);
    }
}

fn word_at(text: &[u8], i: usize, word: &[u8]) -> (b: bool)
    requires
        i <= text@.len(),
    ensures
        b == has_at(text@, i as int, word@),
{
    if word.len() > text.len() - i {
        return false;
    }
    let mut k: usize = 0;
    while k < word.len()
        invariant
            k <= word@.len(),
            i + word@.len() <= text@.len() <= usize::MAX,
            forall|j: int| 0 <= j < k ==> text@[i + j] == word@[j],
        decreases word@.len() - k,
    {
        if text[i + k] != word[k] {
            proof {
                assert(text@.subrange(i as int, i + word@.len())[k as int] == text@[i + k]);
            }
            return false;
        }
        k += 1;
    }
    assert(text@.subrange(i as int, i + word@.len()) =~= word@);
    true
}

fn keyword_len(text: &[u8], i: usize) -> (r: Option<usize>)
    requires
        i <= text@.len(),
    ensures
        match r {
            Some(k) => keyword_at(text@, i as int) == Some(k as int) && i + k <= text@.len(),
            None => keyword_at(text@, i as int) is None,
        },
{
    broadcast use vstd::string::is_ascii_spec_bytes;

    let fixme = "HH_FIXME";
    let ignore_error = "HH_IGNORE_ERROR";
    proof {
        reveal_strlit("HH_FIXME");
        reveal_strlit("HH_IGNORE_ERROR");
        assert(vstd::string::is_ascii(fixme));
        assert(vstd::string::is_ascii(ignore_error));
        assert(fixme.spec_bytes() =~= ascii("HH_FIXME"@));
        assert(ignore_error.spec_bytes() =~= ascii("HH_IGNORE_ERROR"@));
        assert(ascii("HH_FIXME"@).len() == 8);
        assert(ascii("HH_IGNORE_ERROR"@).len() == 15);
    }
    if word_at(text, i, fixme.as_bytes()) {
        Some(8)
    } else if word_at(text, i, ignore_error.as_bytes()) {
        Some(15)
    } else {
        None
    }
}

fn after_blanks(text: &[u8], i: usize) -> (r: usize)
    requires
        i <= text@.len(),
    ensures
        r == skip_blanks(text@, i as int),
        i <= r <= text@.len(),
{
    let mut k: usize = i;
    while k < text.len() && (text[k] == 0x20u8 || text[k] == 0x09u8 || text[k] == 0x0Au8)
        invariant
            i <= k <= text@.len(),
            skip_blanks(text@, i as int) == skip_blanks(text@, k as int),
        decreases text@.len() - k,
    {
        k += 1;
    }
    k
}

fn after_digits(text: &[u8], i: usize) -> (r: usize)
    requires
        i <= text@.len(),
    ensures
        r == skip_digits(text@, i as int),
        i <= r <= text@.len(),
{
    let mut k: usize = i;
    while k < text.len() && 0x30u8 <= text[k] && text[k] <= 0x39u8
        invariant
            i <= k <= text@.len(),
            skip_digits(text@, i as int) == skip_digits(text@, k as int),
        decreases text@.len() - k,
    {
        k += 1;
    }
    k
}

fn code_digits_at(text: &[u8], i: usize) -> (r: Option<(usize, usize)>)
    requires
        i <= text@.len(),
    ensures
        match r {
            Some((from, to)) => pragma_at(text@, i as int) == Some((from as int, to as int))
                && from < to < text@.len(),
            None => pragma_at(text@, i as int) is None,
        },
{
    let len: usize = text.len();
    match keyword_len(text, i) {
        None => None,
        Some(k) => {
            let open: usize = after_blanks(text, i + k);
            if open >= len || text[open] != 0x5Bu8 {
                return None;
            }
            let from: usize = open + 1;
            let to: usize = after_digits(text, from);
            if from < to && to < text.len() && text[to] == 0x5Du8 {
                Some((from, to))
            } else {
                None
            }
        },
    }
}

proof fn lemma_decimal_value_step(digits: Seq<u8>, k: int)
    requires
        0 <= k < digits.len(),
    ensures
        decimal_value(digits.subrange(0, k + 1)) == decimal_value(digits.subrange(0, k)) * 10 + (
        digits[k] - 0x30u8) as nat,
{
    assert(digits.subrange(0, k + 1).drop_last() =~= digits.subrange(0, k));
}

proof fn lemma_decimal_value_grows(digits: Seq<u8>, k: int)
    requires
        0 <= k <= digits.len(),
        forall|j: int| 0 <= j < digits.len() ==> is_digit(#[trigger] digits[j]),
    ensures
        decimal_value(digits.subrange(0, k)) <= decimal_value(digits),
    decreases digits.len() - k,
{
    if k == digits.len() {
        assert(digits.subrange(0, k) =~= digits);
    } else {
        lemma_decimal_value_step(digits, k);
        lemma_decimal_value_grows(digits, k + 1);
    }
}

/// The number that the digits `text[from..to]` denote, if it fits.
fn code_value(text: &[u8], from: usize, to: usize) -> (r: Option<isize>)
    requires
        from <= to <= text@.len(),
        forall|j: int| from <= j < to ==> is_digit(#[trigger] text@[j]),
    ensures
        match r {
            Some(v) => decimal_value(text@.subrange(from as int, to as int)) == v,
            None => decimal_value(text@.subrange(from as int, to as int)) > isize::MAX,
        },
{
    let ghost digits = text@.subrange(from as int, to as int);
    let mut value: isize = 0;
    let mut k: usize = from;
    assert(digits.subrange(0, 0) =~= Seq::<u8>::empty());
    while k < to
        invariant
            from <= k <= to <= text@.len(),
            digits == text@.subrange(from as int, to as int),
            forall|j: int| 0 <= j < digits.len() ==> is_digit(#[trigger] digits[j]),
            0 <= value,
            value == decimal_value(digits.subrange(0, k - from)),
        decreases to - k,
    {
        assert(digits[k - from] == text@[k as int] && is_digit(digits[k - from]));
        let d: isize = (text[k] - 0x30u8) as isize;
        proof {
            lemma_decimal_value_step(digits, k - from);
            lemma_decimal_value_grows(digits, k - from + 1);
        }
        if value > (isize::MAX - d) / 10 {
            return None;
        }
        value = value * 10 + d;
        k += 1;
    }
    assert(digits.subrange(0, to - from) =~= digits);
    Some(value)
}

/// The code of the first pragma in `text`, if there is one and its code
/// fits a machine word.
pub fn parse_pragma_code(text: &[u8]) -> (r: Option<isize>)
    ensures
        r == pragma_code(text@),
{
    let mut i: usize = 0;
    while i < text.len()
        invariant
            i <= text@.len(),
            first_pragma(text@, 0) == first_pragma(text@, i as int),
        decreases text@.len() - i,
    {
        match code_digits_at(text, i) {
            Some((from, to)) => {
                proof {
                    let k = keyword_at(text@, i as int)->Some_0;
                    lemma_skip_blanks_bounds(text@, i + k);
                    lemma_skip_digits_bounds(text@, from as int);
                }
                return code_value(text, from, to);
            },
            None => {},
        }
        i += 1;
    }
    None
}

} // verus!
