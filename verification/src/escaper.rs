//! Escaping of texts for string literals in the assembly: control
//! characters, quotes and everything outside printable ASCII are written
//! with a backslash, byte by byte.

use vstd::prelude::*;
use vstd::string::StringSliceAdditionalSpecFns;
use crate::decimal::digit_char;
use crate::text::push_char;

verus! {

/// The octal numeral of `n`, without leading zeros.
pub open spec fn octal(n: nat) -> Seq<char>
    decreases n,
{
    if n < 8 {
        seq![digit_char(n)]
    } else {
        octal(n / 8) + seq![digit_char(n % 8)]
    }
}

/// Whether `b` is a printable ASCII character, the space included.
pub open spec fn is_lit_printable(b: u8) -> bool {
    0x20u8 <= b <= 0x7Eu8
}

/// What stands for the byte `b` in an escaped text: a letter after a
/// backslash for line feed, carriage return and tab; a backslash before a
/// backslash and before a double quote; the byte itself where it is
/// printable; and its octal numeral after a backslash everywhere else.
pub open spec fn escape_byte(b: u8) -> Seq<char> {
    if b == 0x0Au8 {
        seq!['\\', 'n']
    } else if b == 0x0Du8 {
        seq!['\\', 'r']
    } else if b == 0x09u8 {
        seq!['\\', 't']
    } else if b == 0x5Cu8 {
        seq!['\\', '\\']
    } else if b == 0x22u8 {
        seq!['\\', '"']
    } else if is_lit_printable(b) {
        seq![b as char]
    } else {
        seq!['\\'] + octal(b as nat)
    }
}

/// The escaped form of a text given by its bytes.
pub open spec fn escaped(bytes: Seq<u8>) -> Seq<char>
    decreases bytes.len(),
{
    if bytes.len() == 0 {
        Seq::empty()
    } else {
        escaped(bytes.drop_last()) + escape_byte(bytes.last())
    }
}

fn push_octal(out: &mut String, n: u8)
    ensures
        final(out)@ == old(out)@ + octal(n as nat),
    decreases n,
{
    if n >= 8 {
        push_octal(out, n / 8);
    }
    let d: u8 = n % 8;
    push_char(out, (0x30u8 + d) as char);
    proof {
        assert((0x30u8 + d) as char == digit_char(d as nat));
        assert(out@ =~= old(out)@ + octal(n as nat));
    }
}

fn push_escaped_byte(out: &mut String, b: u8)
    ensures
        final(out)@ == old(out)@ + escape_byte(b),
{
    if b == 0x0Au8 {
        push_char(out, '\\');
        push_char(out, 'n');
    } else if b == 0x0Du8 {
        push_char(out, '\\');
        push_char(out, 'r');
    } else if b == 0x09u8 {
        push_char(out, '\\');
        push_char(out, 't');
    } else if b == 0x5Cu8 {
        push_char(out, '\\');
        push_char(out, '\\');
    } else if b == 0x22u8 {
        push_char(out, '\\');
        push_char(out, '"');
    } else if 0x20u8 <= b && b <= 0x7Eu8 {
        push_char(out, b as char);
    } else {
        push_char(out, '\\');
        push_octal(out, b);
    }
    assert(out@ =~= old(out)@ + escape_byte(b));
}

/// Appends the escaped form of `s`.
pub fn push_escaped(out: &mut String, s: &str)
    ensures
        final(out)@ == old(out)@ + escaped(s.spec_bytes()),
{
    let bytes = s.as_bytes();
    let mut i: usize = 0;
    assert(bytes@.subrange(0, 0) =~= Seq::<u8>::empty());
    assert(out@ =~= old(out)@ + escaped(bytes@.subrange(0, 0)));
    while i < bytes.len()
        invariant
            i <= bytes@.len(),
            out@ == old(out)@ + escaped(bytes@.subrange(0, i as int)),
        decreases bytes@.len() - i,
    {
        push_escaped_byte(out, bytes[i]);
        proof {
            let next = bytes@.subrange(0, i + 1);
            assert(next.drop_last() =~= bytes@.subrange(0, i as int));
            assert(next.last() == bytes@[i as int]);
            assert(out@ =~= old(out)@ + escaped(next));
        }
        i += 1;
    }
    assert(bytes@.subrange(0, bytes@.len() as int) =~= bytes@);
}

/// The escaped form of `s`.
pub fn escape(s: &str) -> (r: String)
    ensures
        r@ == escaped(s.spec_bytes()),
{
    let mut r = String::new();
    push_escaped(&mut r, s);
    assert(r@ =~= escaped(s.spec_bytes()));
    r
}

} // verus!
