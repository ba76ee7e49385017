//! Small transformations of names and literals for the assembly: quoting,
//! namespaces, lists of type arguments, and the mangling of XHP names.

use vstd::prelude::*;
use vstd::string::StringSliceAdditionalSpecFns;
use vstd::utf8::{decode_utf8, valid_utf8};
use crate::escaper::{escaped, push_escaped};
use crate::text::{
    chars_of, eq_chars, eq_ignore_ascii_case, find_from, first_index, has_prefix, last_before,
    lemma_first_index_bounds, lemma_last_before_bounds,
    push_char, push_range, rfind_before, same_ignoring_ascii_case, starts_with,
};

pub mod integer;
pub mod locals;
pub mod types;

verus! {

/// The text that a sequence of bytes stands for, with the replacement
/// character in the place of every part that is no valid UTF-8.
pub uninterp spec fn utf8_lossy(bytes: Seq<u8>) -> Seq<char>;

/// The text of `bytes`.
///
/// Wraps `String::from_utf8_lossy`, which converts a slice of bytes to a
/// string and puts U+FFFD in the place of invalid sequences. The outcome is
/// named `utf8_lossy`; for bytes that are valid UTF-8 it is the text that
/// they encode.
#[verifier::external_body]
fn from_utf8_lossy(bytes: &[u8]) -> (s: String)
    ensures
        s@ == utf8_lossy(bytes@),
        valid_utf8(bytes@) ==> s@ == decode_utf8(bytes@),
{
    String::from_utf8_lossy(bytes).into_owned()
}

/// A name kept as bytes, together with the function that undoes the
/// escaping of its text.
pub struct GetName<F: Fn(String) -> String> {
    string: Vec<u8>,
    unescape: F,
}

impl<F: Fn(String) -> String> GetName<F> {
    /// The bytes of the name.
    pub closed spec fn bytes(&self) -> Seq<u8> {
        self.string@
    }

    /// The function that undoes the escaping.
    pub closed spec fn unescape(&self) -> F {
        self.unescape
    }

    pub fn new(string: Vec<u8>, unescape: F) -> (r: GetName<F>)
        ensures
            r.bytes() == string@,
            r.unescape() == unescape,
    {
        GetName { string, unescape }
    }

    pub fn get(&self) -> (r: &Vec<u8>)
        ensures
            r@ == self.bytes(),
    {
        &self.string
    }

    /// The text of the name.
    pub fn to_string(&self) -> (s: String)
        ensures
            s@ == utf8_lossy(self.bytes()),
            valid_utf8(self.bytes()) ==> s@ == decode_utf8(self.bytes()),
    {
        from_utf8_lossy(self.string.as_slice())
    }

    /// The text of the name with its escaping undone.
    pub fn to_unescaped_string(&self) -> (r: String)
        requires
            forall|s: String| call_requires(self.unescape(), (s,)),
        ensures
            exists|s: String|
                s@ == utf8_lossy(self.bytes()) && call_ensures(self.unescape(), (s,), r),
    {
        let s = self.to_string();
        assert(call_requires(self.unescape(), (s,)));
        (self.unescape)(s)
    }
}

impl<F: Fn(String) -> String + Clone> Clone for GetName<F> {
    fn clone(&self) -> (r: GetName<F>)
        ensures
            r.bytes() == self.bytes(),
    {
        GetName { string: self.string.clone(), unescape: self.unescape.clone() }
    }
}

/// Whether XHP names are mangled. A value of this type is handed down
/// through the calls that emit names.
#[derive(Clone, Copy, Debug, PartialEq, Eq, Structural)]
pub struct MangleXhpMode {
    pub enabled: bool,
}

impl MangleXhpMode {
    pub open spec fn spec_is_enabled(&self) -> bool {
        self.enabled
    }

    /// The mode at the start: XHP names are mangled.
    pub fn new() -> (r: MangleXhpMode)
        ensures
            r.is_enabled(),
    {
        MangleXhpMode { enabled: true }
    }

    /// The mode in which XHP names stay as they are.
    pub fn disabled() -> (r: MangleXhpMode)
        ensures
            !r.is_enabled(),
    {
        MangleXhpMode { enabled: false }
    }

    #[verifier::when_used_as_spec(spec_is_enabled)]
    pub fn is_enabled(&self) -> (b: bool)
        ensures
            b == self.spec_is_enabled(),
    {
        self.enabled
    }
}

impl Default for MangleXhpMode {
    fn default() -> (r: MangleXhpMode)
        ensures
            r.is_enabled(),
    {
        MangleXhpMode::new()
    }
}

/// Runs `f` with mangling switched off. The mode of the caller is a value
/// of its own and is the same after the call as before, so calls of this
/// function may be nested.
pub fn without_xhp_mangling<T, F: FnOnce(MangleXhpMode) -> T>(f: F) -> (r: T)
    requires
        call_requires(f, (MangleXhpMode { enabled: false },)),
    ensures
        call_ensures(f, (MangleXhpMode { enabled: false },), r),
{
    f(MangleXhpMode { enabled: false })
}

/// Whether `name` is an XHP name: it starts with a colon.
pub open spec fn spec_is_xhp(name: Seq<char>) -> bool {
    name.len() > 0 && name[0] == ':'
}

pub fn is_xhp(name: &str) -> (b: bool)
    ensures
        b == spec_is_xhp(name@),
{
    let chars = chars_of(name);
    chars.len() > 0 && chars[0] == ':'
}

/// Whether `name` is the name of an anonymous class or of a closure, which
/// is never mangled.
pub open spec fn is_unmangled_name(name: Seq<char>) -> bool {
    has_prefix(name, "class@anonymous"@) || has_prefix(name, "Closure$"@)
}

/// What stands for a character in a mangled name: two underscores for a
/// colon, one for a hyphen.
pub open spec fn mangled_char(c: char) -> Seq<char> {
    if c == ':' {
        seq!['_', '_']
    } else if c == '-' {
        seq!['_']
    } else {
        seq![c]
    }
}

/// The text in which every character has its mangled form.
pub open spec fn mangled_chars(s: Seq<char>) -> Seq<char>
    decreases s.len(),
{
    if s.len() == 0 {
        Seq::empty()
    } else {
        mangled_chars(s.drop_last()) + mangled_char(s.last())
    }
}

/// The mangled form of a name. The names of anonymous classes and closures
/// stay as they are, and so does every name while mangling is switched off.
/// In every other name `xhp_` takes the place of a colon at the start, two
/// underscores that of every other colon and one underscore that of every
/// hyphen.
pub open spec fn mangled(name: Seq<char>, enabled: bool) -> Seq<char> {
    if is_unmangled_name(name) || !enabled {
        name
    } else if spec_is_xhp(name) {
        "xhp_"@ + mangled_chars(name.skip(1))
    } else {
        mangled_chars(name)
    }
}

pub fn mangle_xhp_id(name: String, mode: MangleXhpMode) -> (r: String)
    ensures
        r@ == mangled(name@, mode.is_enabled()),
{
    let chars = chars_of(name.as_str());
    let ignore_id = starts_with(chars.as_slice(), "class@anonymous") || starts_with(
        chars.as_slice(),
        "Closure$",
    );
    if !ignore_id && mode.is_enabled() {
        let mut out = String::new();
        let mut i: usize = 0;
        if chars.len() > 0 && chars[0] == ':' {
            out.append("xhp_");
            i = 1;
        }
        let ghost start = i;
        let ghost head = out@;
        assert(chars@.subrange(start as int, i as int) =~= Seq::<char>::empty());
        assert(out@ =~= head + mangled_chars(chars@.subrange(start as int, i as int)));
        while i < chars.len()
            invariant
                start <= i <= chars@.len(),
                out@ == head + mangled_chars(chars@.subrange(start as int, i as int)),
            decreases chars@.len() - i,
        {
            let c = chars[i];
            if c == ':' {
                push_char(&mut out, '_');
                push_char(&mut out, '_');
            } else if c == '-' {
                push_char(&mut out, '_');
            } else {
                push_char(&mut out, c);
            }
            proof {
                let next = chars@.subrange(start as int, i + 1);
                assert(next.drop_last() =~= chars@.subrange(start as int, i as int));
                assert(out@ =~= head + mangled_chars(next));
            }
            i += 1;
        }
        proof {
            assert(chars@.subrange(start as int, chars@.len() as int) =~= chars@.skip(start as int));
            assert(chars@.skip(0) =~= chars@);
            assert(Seq::<char>::empty() + mangled_chars(chars@) =~= mangled_chars(chars@));
        }
        out
    } else {
        name
    }
}

/// The escaped form of `s` between two backslashes.
pub fn quote_string(s: &str) -> (r: String)
    ensures
        r@ == seq!['\\'] + escaped(s.spec_bytes()) + seq!['\\'],
{
    let mut r = String::new();
    push_char(&mut r, '\\');
    push_escaped(&mut r, s);
    push_char(&mut r, '\\');
    assert(r@ =~= seq!['\\'] + escaped(s.spec_bytes()) + seq!['\\']);
    r
}

/// The escaped form of `s` between two escaped double quotes.
pub fn quote_string_with_escape(s: &str) -> (r: String)
    ensures
        r@ == seq!['\\', '"'] + escaped(s.spec_bytes()) + seq!['\\', '"'],
{
    let mut r = String::new();
    push_char(&mut r, '\\');
    push_char(&mut r, '"');
    push_escaped(&mut r, s);
    push_char(&mut r, '\\');
    push_char(&mut r, '"');
    assert(r@ =~= seq!['\\', '"'] + escaped(s.spec_bytes()) + seq!['\\', '"']);
    r
}

/// The escaped form of `s` between two single quotes.
pub fn single_quote_string_with_escape(s: &str) -> (r: String)
    ensures
        r@ == seq!['\''] + escaped(s.spec_bytes()) + seq!['\''],
{
    let mut r = String::new();
    push_char(&mut r, '\'');
    push_escaped(&mut r, s);
    push_char(&mut r, '\'');
    assert(r@ =~= seq!['\''] + escaped(s.spec_bytes()) + seq!['\'']);
    r
}

/// The escaped form of `s` between two runs of three double quotes.
pub fn triple_quote_string(s: &str) -> (r: String)
    ensures
        r@ == seq!['"', '"', '"'] + escaped(s.spec_bytes()) + seq!['"', '"', '"'],
{
    let mut r = String::new();
    push_char(&mut r, '"');
    push_char(&mut r, '"');
    push_char(&mut r, '"');
    push_escaped(&mut r, s);
    push_char(&mut r, '"');
    push_char(&mut r, '"');
    push_char(&mut r, '"');
    assert(r@ =~= seq!['"', '"', '"'] + escaped(s.spec_bytes()) + seq!['"', '"', '"']);
    r
}

/// The name `s` in the namespace `n`.
pub fn prefix_namespace(n: &str, s: &str) -> (r: String)
    ensures
        r@ == n@ + seq!['\\'] + s@,
{
    let mut r = String::from_str(n);
    push_char(&mut r, '\\');
    r.append(s);
    assert(r@ =~= n@ + seq!['\\'] + s@);
    r
}

/// The number of backslashes at the start of `s`.
pub open spec fn leading_backslashes(s: Seq<char>) -> nat
    decreases s.len(),
{
    if s.len() > 0 && s[0] == '\\' {
        1 + leading_backslashes(s.skip(1))
    } else {
        0
    }
}

/// The name without the backslashes at its start.
pub fn strip_global_ns(s: &str) -> (r: &str)
    ensures
        r@ == s@.skip(leading_backslashes(s@) as int),
        leading_backslashes(s@) <= s@.len(),
{
    let chars = chars_of(s);
    let mut i: usize = 0;
    assert(s@.skip(0) =~= s@);
    while i < chars.len() && chars[i] == '\\'
        invariant
            i <= chars@.len(),
            chars@ == s@,
            leading_backslashes(s@) == i + leading_backslashes(s@.skip(i as int)),
        decreases chars@.len() - i,
    {
        assert(s@.skip(i as int).skip(1) =~= s@.skip(i + 1));
        i += 1;
    }
    let r = s.substring_char(i, chars.len());
    assert(r@ =~= s@.skip(i as int));
    r
}

/// Whether a namespace stands before the name: the text holds a backslash.
pub open spec fn spec_has_ns(s: Seq<char>) -> bool {
    first_index(s, '\\', 0) < s.len()
}

/// The text without its namespace. Where the text holds a backslash, what
/// goes is the line of the first backslash from its start up to the last
/// backslash on it.
pub open spec fn without_ns(s: Seq<char>) -> Seq<char> {
    let first = first_index(s, '\\', 0);
    if first >= s.len() {
        s
    } else {
        let from = last_before(s, '\n', first) + 1;
        let line_end = first_index(s, '\n', first);
        let last = last_before(s, '\\', line_end);
        s.subrange(0, from) + s.subrange(last + 1, s.len() as int)
    }
}

fn strip_ns_chars(chars: &[char]) -> (r: String)
    ensures
        r@ == without_ns(chars@),
{
    let first: usize = find_from(chars, '\\', 0);
    if first >= chars.len() {
        let mut r = String::new();
        push_range(&mut r, chars, 0, chars.len());
        assert(r@ =~= chars@);
        r
    } else {
        let from: usize = match rfind_before(chars, '\n', first) {
            Some(i) => i + 1,
            None => 0,
        };
        let line_end: usize = find_from(chars, '\n', first);
        let last: usize = match rfind_before(chars, '\\', line_end) {
            Some(i) => i,
            None => first,
        };
        let mut r = String::new();
        push_range(&mut r, chars, 0, from);
        push_range(&mut r, chars, last + 1, chars.len());
        assert(r@ =~= chars@.subrange(0, from as int) + chars@.subrange(
            last + 1,
            chars@.len() as int,
        ));
        r
    }
}

pub fn strip_ns(s: &str) -> (r: String)
    ensures
        r@ == without_ns(s@),
{
    let chars = chars_of(s);
    strip_ns_chars(chars.as_slice())
}

pub fn has_ns(s: &str) -> (b: bool)
    ensures
        b == spec_has_ns(s@),
{
    let chars = chars_of(s);
    find_from(chars.as_slice(), '\\', 0) < chars.len()
}

/// The text from `from` on without its lists of type arguments. A list
/// runs from a `<` to the last `>` on the same line.
pub open spec fn without_type_lists_from(s: Seq<char>, from: int) -> Seq<char>
    decreases s.len() - from,
    via without_type_lists_decreases
{
    if from < 0 || from >= s.len() {
        Seq::empty()
    } else {
        let open = first_index(s, '<', from);
        if open >= s.len() {
            s.subrange(from, s.len() as int)
        } else {
            let line_end = first_index(s, '\n', open + 1);
            let close = last_before(s, '>', line_end);
            if close > open {
                s.subrange(from, open) + without_type_lists_from(s, close + 1)
            } else {
                s.subrange(from, open + 1) + without_type_lists_from(s, open + 1)
            }
        }
    }
}

#[via_fn]
proof fn without_type_lists_decreases(s: Seq<char>, from: int) {
    if 0 <= from < s.len() {
        lemma_first_index_bounds(s, '<', from);
        let open = first_index(s, '<', from);
        if open < s.len() {
            lemma_first_index_bounds(s, '\n', open + 1);
            lemma_last_before_bounds(s, '>', first_index(s, '\n', open + 1));
        }
    }
}

/// The text without its lists of type arguments.
pub open spec fn without_type_lists(s: Seq<char>) -> Seq<char> {
    without_type_lists_from(s, 0)
}

pub fn strip_type_list(s: &str) -> (r: String)
    ensures
        r@ == without_type_lists(s@),
{
    let chars = chars_of(s);
    let len: usize = chars.len();
    let mut r = String::new();
    let mut from: usize = 0;
    assert(r@ + without_type_lists_from(chars@, 0) =~= without_type_lists_from(chars@, 0));
    while from < len
        invariant
            from <= len == chars@.len(),
            r@ + without_type_lists_from(chars@, from as int) == without_type_lists(chars@),
        decreases len - from,
    {
        let open: usize = find_from(chars.as_slice(), '<', from);
        if open >= len {
            push_range(&mut r, chars.as_slice(), from, len);
            proof {
                assert(r@ =~= without_type_lists(chars@));
            }
            from = len;
        } else {
            let line_end: usize = find_from(chars.as_slice(), '\n', open + 1);
            let close: usize = match rfind_before(chars.as_slice(), '>', line_end) {
                Some(i) => i,
                None => 0,
            };
            let ghost before = r@;
            if close > open {
                push_range(&mut r, chars.as_slice(), from, open);
                proof {
                    assert(r@ + without_type_lists_from(chars@, close + 1) =~= before + (
                    chars@.subrange(from as int, open as int) + without_type_lists_from(
                        chars@,
                        close + 1,
                    )));
                }
                from = close + 1;
            } else {
                push_range(&mut r, chars.as_slice(), from, open + 1);
                proof {
                    assert(r@ + without_type_lists_from(chars@, open + 1) =~= before + (
                    chars@.subrange(from as int, open + 1) + without_type_lists_from(
                        chars@,
                        open + 1,
                    )));
                }
                from = open + 1;
            }
        }
    }
    assert(r@ + Seq::<char>::empty() =~= r@);
    r
}

/// Whether two names are the same, with or without regard to the case of
/// ASCII letters and with or without their namespaces.
pub open spec fn same_name(
    s1: Seq<char>,
    s2: Seq<char>,
    case_sensitive: bool,
    ignore_ns: bool,
) -> bool {
    let a = if ignore_ns {
        without_ns(s1)
    } else {
        s1
    };
    let b = if ignore_ns {
        without_ns(s2)
    } else {
        s2
    };
    if case_sensitive {
        a == b
    } else {
        same_ignoring_ascii_case(a, b)
    }
}

fn canon(s: &str, ignore_ns: bool) -> (r: Vec<char>)
    ensures
        r@ == if ignore_ns {
            without_ns(s@)
        } else {
            s@
        },
{
    if ignore_ns {
        let stripped = strip_ns(s);
        chars_of(stripped.as_str())
    } else {
        chars_of(s)
    }
}

pub fn cmp(s1: &str, s2: &str, case_sensitive: bool, ignore_ns: bool) -> (r: bool)
    ensures
        r == same_name(s1@, s2@, case_sensitive, ignore_ns),
{
    let a = canon(s1, ignore_ns);
    let b = canon(s2, ignore_ns);
    if case_sensitive {
        eq_chars(a.as_slice(), b.as_slice())
    } else {
        eq_ignore_ascii_case(a.as_slice(), b.as_slice())
    }
}

fn is_word(s: &str, word: &str) -> (r: bool)
    ensures
        r == same_ignoring_ascii_case(s@, word@),
{
    let a = chars_of(s);
    let b = chars_of(word);
    eq_ignore_ascii_case(a.as_slice(), b.as_slice())
}

pub fn is_self(s: &str) -> (r: bool)
    ensures
        r == same_ignoring_ascii_case(s@, "self"@),
{
    is_word(s, "self")
}

pub fn is_parent(s: &str) -> (r: bool)
    ensures
        r == same_ignoring_ascii_case(s@, "parent"@),
{
    is_word(s, "parent")
}

pub fn is_static(s: &str) -> (r: bool)
    ensures
        r == same_ignoring_ascii_case(s@, "static"@),
{
    is_word(s, "static")
}

pub fn is_class(s: &str) -> (r: bool)
    ensures
        r == same_ignoring_ascii_case(s@, "class"@),
{
    is_word(s, "class")
}

/// The name under which a call of the method `f_name` of the class
/// `mangled_cls_name` by way of `meth_caller` is known.
pub fn mangle_meth_caller(mangled_cls_name: &str, f_name: &str) -> (r: String)
    ensures
        r@ == "\\MethCaller$"@ + mangled_cls_name@ + seq!['$'] + f_name@,
{
    let mut r = String::from_str("\\MethCaller$");
    r.append(mangled_cls_name);
    push_char(&mut r, '$');
    r.append(f_name);
    assert(r@ =~= "\\MethCaller$"@ + mangled_cls_name@ + seq!['$'] + f_name@);
    r
}

} // verus!
