//! File identifiers: a root kind together with a path below that root.

use std::rc::Rc;
use vstd::prelude::*;
use vstd::utf8::encode_utf8;

verus! {

/// Whether `a` and `b` agree on their first `k` bytes and `a` is the lesser
/// at position `k`: it ends there while `b` goes on, or it holds the smaller
/// byte.
pub open spec fn lex_less_at(a: Seq<u8>, b: Seq<u8>, k: int) -> bool {
    &&& 0 <= k <= a.len()
    &&& k < b.len()
    &&& forall|j: int| 0 <= j < k ==> a[j] == b[j]
    &&& k < a.len() ==> a[k] < b[k]
}

/// Whether `a` comes before `b` in the lexicographic order of byte strings.
pub open spec fn lex_less(a: Seq<u8>, b: Seq<u8>) -> bool {
    exists|k: int| lex_less_at(a, b, k)
}

/// The first place at or after `from` at which `a` and `b` differ or one
/// of the two ends.
spec fn first_difference(a: Seq<u8>, b: Seq<u8>, from: int) -> int
    decreases a.len() - from,
{
    if 0 <= from < a.len() && from < b.len() && a[from] == b[from] {
        first_difference(a, b, from + 1)
    } else {
        from
    }
}

proof fn lemma_first_difference(a: Seq<u8>, b: Seq<u8>, from: int)
    requires
        0 <= from <= a.len(),
        from <= b.len(),
        forall|j: int| 0 <= j < from ==> a[j] == b[j],
    ensures
        ({
            let k = first_difference(a, b, from);
            &&& from <= k <= a.len()
            &&& k <= b.len()
            &&& forall|j: int| 0 <= j < k ==> a[j] == b[j]
            &&& k < a.len() && k < b.len() ==> a[k] != b[k]
        }),
    decreases a.len() - from,
{
    if from < a.len() && from < b.len() && a[from] == b[from] {
        lemma_first_difference(a, b, from + 1);
    }
}

/// Of two byte strings exactly one comes before the other, unless they are
/// the same.
pub proof fn lemma_lex_trichotomy(a: Seq<u8>, b: Seq<u8>)
    ensures
        lex_less(a, b) || lex_less(b, a) || a == b,
        !(lex_less(a, b) && lex_less(b, a)),
        !(lex_less(a, b) && a == b),
{
    let k = first_difference(a, b, 0);
    lemma_first_difference(a, b, 0);
    if k == a.len() && k == b.len() {
        assert(a =~= b);
    } else if k == a.len() {
        assert(lex_less_at(a, b, k));
    } else if k == b.len() {
        assert(lex_less_at(b, a, k));
    } else if a[k] < b[k] {
        assert(lex_less_at(a, b, k));
    } else {
        assert(lex_less_at(b, a, k));
    }
    if lex_less(a, b) {
        let k1 = choose|k1: int| lex_less_at(a, b, k1);
        if a == b {
            assert(false);
        }
        if lex_less(b, a) {
            let k2 = choose|k2: int| lex_less_at(b, a, k2);
            if k1 < k2 {
                assert(b[k1] == a[k1]);
            } else if k2 < k1 {
                assert(a[k2] == b[k2]);
            }
            assert(false);
        }
    }
}

/// The order of byte strings is transitive.
pub proof fn lemma_lex_less_transitive(a: Seq<u8>, b: Seq<u8>, c: Seq<u8>)
    requires
        lex_less(a, b),
        lex_less(b, c),
    ensures
        lex_less(a, c),
{
    let k1 = choose|k1: int| lex_less_at(a, b, k1);
    let k2 = choose|k2: int| lex_less_at(b, c, k2);
    let k = if k1 <= k2 {
        k1
    } else {
        k2
    };
    assert forall|j: int| 0 <= j < k implies a[j] == c[j] by {
        assert(a[j] == b[j]);
        assert(b[j] == c[j]);
    }
    if k1 < k2 {
        assert(b[k1] == c[k1]);
    } else if k2 < k1 {
        assert(a[k2] == b[k2]);
    }
    assert(lex_less_at(a, c, k));
}

/// Whether `a` comes before `b` in the lexicographic order of byte strings.
pub fn bytes_less(a: &[u8], b: &[u8]) -> (r: bool)
    ensures
        r == lex_less(a@, b@),
{
    let mut i: usize = 0;
    while i < a.len() && i < b.len() && a[i] == b[i]
        invariant
            i <= a@.len(),
            i <= b@.len(),
            forall|j: int| 0 <= j < i ==> a@[j] == b@[j],
        decreases a@.len() - i,
    {
        i += 1;
    }
    let r = i < b.len() && (i == a.len() || a[i] < b[i]);
    proof {
        if r {
            assert(lex_less_at(a@, b@, i as int));
        } else {
            assert forall|k: int| !lex_less_at(a@, b@, k) by {
                if lex_less_at(a@, b@, k) {
                    if k < i {
                        assert(a@[k] == b@[k]);
                    } else if k > i {
                        assert(a@[i as int] == b@[i as int]);
                    }
                }
            }
        }
    }
    r
}

/// The root that a path is relative to.
#[derive(Clone, Copy, Debug, PartialEq, Eq, Structural)]
pub enum Prefix {
    Root,
    Hhi,
    Dummy,
    Tmp,
}

impl Prefix {
    /// The position of the prefix in the order `Root < Hhi < Dummy < Tmp`.
    pub open spec fn rank(self) -> int {
        match self {
            Prefix::Root => 0,
            Prefix::Hhi => 1,
            Prefix::Dummy => 2,
            Prefix::Tmp => 3,
        }
    }

    /// The lower-case name of the prefix.
    pub open spec fn name(self) -> Seq<char> {
        match self {
            Prefix::Root => "root"@,
            Prefix::Hhi => "hhi"@,
            Prefix::Dummy => "dummy"@,
            Prefix::Tmp => "tmp"@,
        }
    }

    pub fn to_rank(self) -> (r: u8)
        ensures
            r == self.rank(),
    {
        match self {
            Prefix::Root => 0,
            Prefix::Hhi => 1,
            Prefix::Dummy => 2,
            Prefix::Tmp => 3,
        }
    }

    pub fn as_str(self) -> (s: &'static str)
        ensures
            s@ == self.name(),
    {
        match self {
            Prefix::Root => "root",
            Prefix::Hhi => "hhi",
            Prefix::Dummy => "dummy",
            Prefix::Tmp => "tmp",
        }
    }
}

/// What the contracts see of a file identifier.
pub struct RelativePathView {
    pub prefix: Prefix,
    pub path: Seq<char>,
}

impl RelativePathView {
    /// Whether this is the identifier of no file at all.
    pub open spec fn is_empty(self) -> bool {
        self.prefix == Prefix::Dummy && self.path.len() == 0
    }

    /// The order of file identifiers: by prefix first, then by the bytes of
    /// the path.
    pub open spec fn less_than(self, other: RelativePathView) -> bool {
        self.prefix.rank() < other.prefix.rank() || (self.prefix == other.prefix && lex_less(
            encode_utf8(self.path),
            encode_utf8(other.path),
        ))
    }

    /// The rendering used in messages: the prefix name, a space, the path.
    pub open spec fn rendered(self) -> Seq<char> {
        self.prefix.name() + seq![' '] + self.path
    }
}

/// A path below one of the known roots.
#[derive(Debug)]
pub struct RelativePath {
    prefix: Prefix,
    path: String,
}

impl View for RelativePath {
    type V = RelativePathView;

    closed spec fn view(&self) -> RelativePathView {
        RelativePathView { prefix: self.prefix, path: self.path@ }
    }
}

impl RelativePath {
    pub fn make(prefix: Prefix, path: String) -> (r: RelativePath)
        ensures
            r@ == (RelativePathView { prefix, path: path@ }),
    {
        RelativePath { prefix, path }
    }

    pub fn is_empty(&self) -> (b: bool)
        ensures
            b == self@.is_empty(),
    {
        self.prefix == Prefix::Dummy && self.path.as_str().is_empty()
    }

    pub fn prefix(&self) -> (p: Prefix)
        ensures
            p == self@.prefix,
    {
        self.prefix
    }

    pub fn path_str(&self) -> (s: &str)
        ensures
            s@ == self@.path,
    {
        self.path.as_str()
    }

    /// Whether two identifiers name the same file.
    pub fn same(&self, other: &RelativePath) -> (b: bool)
        ensures
            b == (self@ == other@),
    {
        let b = self.prefix == other.prefix && self.path == other.path;
        proof {
            if self.path@ == other.path@ && self.prefix == other.prefix {
                assert(self@ == other@);
            }
        }
        b
    }

    /// Whether this identifier comes before `other`: by prefix first, then
    /// by the bytes of the path.
    pub fn less_than(&self, other: &RelativePath) -> (b: bool)
        ensures
            b == self@.less_than(other@),
    {
        let r1: u8 = self.prefix.to_rank();
        let r2: u8 = other.prefix.to_rank();
        if r1 != r2 {
            r1 < r2
        } else {
            bytes_less(self.path.as_str().as_bytes(), other.path.as_str().as_bytes())
        }
    }

    pub fn to_string(&self) -> (s: String)
        ensures
            s@ == self@.rendered(),
    {
        let mut s = String::from_str(self.prefix.as_str());
        s.append(" ");
        s.append(self.path.as_str());
        proof {
            reveal_strlit(" ");
            assert(" "@ =~= seq![' ']);
        }
        s
    }
}

/// Of two file identifiers exactly one comes before the other, unless they
/// are the same.
pub proof fn lemma_file_order_trichotomy(f1: RelativePathView, f2: RelativePathView)
    ensures
        f1.less_than(f2) || f2.less_than(f1) || f1 == f2,
        !(f1.less_than(f2) && f2.less_than(f1)),
        !(f1.less_than(f2) && f1 == f2),
{
    lemma_lex_trichotomy(encode_utf8(f1.path), encode_utf8(f2.path));
    if f1.prefix == f2.prefix && encode_utf8(f1.path) == encode_utf8(f2.path) {
        vstd::utf8::encode_utf8_decode_utf8(f1.path);
        vstd::utf8::encode_utf8_decode_utf8(f2.path);
        assert(f1.path == f2.path);
    }
}

/// The order of file identifiers is transitive.
pub proof fn lemma_file_order_transitive(
    f1: RelativePathView,
    f2: RelativePathView,
    f3: RelativePathView,
)
    requires
        f1.less_than(f2),
        f2.less_than(f3),
    ensures
        f1.less_than(f3),
{
    if f1.prefix == f2.prefix && f2.prefix == f3.prefix {
        lemma_lex_less_transitive(
            encode_utf8(f1.path),
            encode_utf8(f2.path),
            encode_utf8(f3.path),
        );
    }
}

/// Another handle on the same shared file identifier.
///
/// Wraps `Rc::clone`, which makes a new pointer to the same allocation, so
/// the value pointed to is the one that `file` points to.
#[verifier::external_body]
pub(crate) fn share(file: &Rc<RelativePath>) -> (r: Rc<RelativePath>)
    ensures
        r == file,
{
    Rc::clone(file)
}

} // verus!
