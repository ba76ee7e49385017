//! Names of local variables.

use vstd::prelude::*;
use crate::text::chars_of;

verus! {

/// The name without the dollar sign at its start, if it has one.
pub open spec fn without_dollar(s: Seq<char>) -> Seq<char> {
    if s.len() > 0 && s[0] == '$' {
        s.skip(1)
    } else {
        s
    }
}

pub fn strip_dollar(s: &str) -> (r: &str)
    ensures
        r@ == without_dollar(s@),
{
    let chars = chars_of(s);
    if chars.len() > 0 && chars[0] == '$' {
        let r = s.substring_char(1, chars.len());
        assert(r@ =~= s@.skip(1));
        r
    } else {
        s
    }
}

} // verus!
