//! Names of collection types.

use vstd::prelude::*;

verus! {

/// The lower-case form of a text by the rules of Unicode.
pub uninterp spec fn lowercase(s: Seq<char>) -> Seq<char>;

/// The lower-case form of `s`.
///
/// Wraps `str::to_lowercase`, which returns the lower-case equivalent of a
/// string slice as a new string, by the Unicode property `Lowercase`. The
/// outcome depends on the text alone; the contract gives it the name
/// `lowercase` and says nothing more of it.
#[verifier::external_body]
fn to_lowercase(s: &str) -> (r: String)
    ensures
        r@ == lowercase(s@),
{
    s.to_lowercase()
}

/// The name of a collection type in its proper case, given the name as it
/// was written and its lower-case form; any other name as it was written.
pub open spec fn cased(s: Seq<char>, lowered: Seq<char>) -> Seq<char> {
    if lowered == "vector"@ {
        "Vector"@
    } else if lowered == "immvector"@ {
        "ImmVector"@
    } else if lowered == "set"@ {
        "Set"@
    } else if lowered == "immset"@ {
        "ImmSet"@
    } else if lowered == "map"@ {
        "Map"@
    } else if lowered == "immmap"@ {
        "ImmMap"@
    } else if lowered == "pair"@ {
        "Pair"@
    } else {
        s
    }
}

fn is(lowered: &str, word: &str) -> (b: bool)
    ensures
        b == (lowered@ == word@),
{
    let a = crate::text::chars_of(lowered);
    let b = crate::text::chars_of(word);
    crate::text::eq_chars(a.as_slice(), b.as_slice())
}

/// The name of a collection type in its proper case, given the name `s` as
/// it was written and its lower-case form `lowered`.
pub fn fix_casing_of<'a>(s: &'a str, lowered: &str) -> (r: &'a str)
    ensures
        r@ == cased(s@, lowered@),
{
    if is(lowered, "vector") {
        "Vector"
    } else if is(lowered, "immvector") {
        "ImmVector"
    } else if is(lowered, "set") {
        "Set"
    } else if is(lowered, "immset") {
        "ImmSet"
    } else if is(lowered, "map") {
        "Map"
    } else if is(lowered, "immmap") {
        "ImmMap"
    } else if is(lowered, "pair") {
        "Pair"
    } else {
        s
    }
}

/// The name of a collection type in its proper case, whatever the case in
/// which it was written; any other name as it was written.
pub fn fix_casing(s: &str) -> (r: &str)
    ensures
        r@ == cased(s@, lowercase(s@)),
{
    let lowered = to_lowercase(s);
    fix_casing_of(s, lowered.as_str())
}

} // verus!
