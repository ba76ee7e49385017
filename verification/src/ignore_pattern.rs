//! A pattern, given by the caller, for suppression pragmas that the harvest
//! is to pass over.

use vstd::prelude::*;

verus! {

/// The compiled regular expressions on bytes of the `regex` crate. The
/// library carries such a value and never looks into it.
#[verifier::external_type_specification]
#[verifier::external_body]
pub struct ExRegex(regex::bytes::Regex);

/// Whether the regular expression with the source `pattern` matches
/// somewhere in `text`.
pub uninterp spec fn pattern_matches(pattern: Seq<char>, text: Seq<u8>) -> bool;

/// A regular expression on bytes, kept together with its source.
///
/// The compiled expression is always the one that `compile` made from
/// `source`: the fields are private and `new` is the only way in from
/// outside this file.
pub struct IgnorePattern {
    source: String,
    regex: regex::bytes::Regex,
}

impl View for IgnorePattern {
    type V = Seq<char>;

    closed spec fn view(&self) -> Seq<char> {
        self.source@
    }
}

/// Whether `source` is a regular expression that can be compiled: it
/// parses, and what it compiles to is within the size limit.
pub uninterp spec fn pattern_compiles(source: Seq<char>) -> bool;

/// Compiles a regular expression.
///
/// Wraps `regex::bytes::Regex::new`, which returns an error for a pattern
/// that it cannot parse or that compiles to more than its size limit.
/// Whether it does depends on the pattern alone; the contract gives that the
/// name `pattern_compiles` and says nothing more of it.
#[verifier::external_body]
fn compile(source: &str) -> (r: Option<regex::bytes::Regex>)
    ensures
        r is Some <==> pattern_compiles(source@),
{
    regex::bytes::Regex::new(source).ok()
}

impl IgnorePattern {
    /// The pattern with the source `source`, unless the source is no
    /// regular expression that can be compiled.
    pub fn new(source: &str) -> (r: Option<IgnorePattern>)
        ensures
            r is Some <==> pattern_compiles(source@),
            r matches Some(p) ==> p@ == source@,
    {
        Self::from_compiled(source, compile(source))
    }

    /// The pattern with the source `source` and the expression that was
    /// compiled from it, if one was. This stays private, so that the
    /// expression of a pattern is always the one compiled from its source.
    fn from_compiled(source: &str, compiled: Option<regex::bytes::Regex>) -> (r: Option<
        IgnorePattern,
    >)
        ensures
            r is Some <==> compiled is Some,
            r matches Some(p) ==> p@ == source@,
    {
        match compiled {
            Some(regex) => Some(IgnorePattern { source: source.to_owned(), regex }),
            None => None,
        }
    }

    /// The source of the pattern.
    pub fn as_str(&self) -> (s: &str)
        ensures
            s@ == self@,
    {
        self.source.as_str()
    }

    /// Whether the pattern matches somewhere in `text`.
    ///
    /// Wraps `regex::bytes::Regex::is_match`, which returns true if and only
    /// if there is a match for the expression anywhere in the haystack. The
    /// outcome depends on the expression and the haystack alone; the contract
    /// gives it the name `pattern_matches` and says nothing more of it.
    #[verifier::external_body]
    pub(crate) fn is_match(&self, text: &[u8]) -> (b: bool)
        ensures
            b == pattern_matches(self@, text@),
    {
        self.regex.is_match(text)
    }
}

} // verus!
