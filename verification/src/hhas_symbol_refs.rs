//! The symbols and included files that a unit refers to, and the rule that
//! resolves an include below a named root.

use std::collections::{BTreeMap, BTreeSet};
use vstd::prelude::*;

verus! {

/// The symbols and includes met while a unit is emitted, in four groups,
/// each held in order.
#[derive(Debug)]
pub struct HhasSymbolRefs {
    pub includes: BTreeSet<IncludePath>,
    pub constants: BTreeSet<String>,
    pub functions: BTreeSet<String>,
    pub classes: BTreeSet<String>,
}

impl Clone for HhasSymbolRefs {
    fn clone(&self) -> (r: HhasSymbolRefs)
        ensures
            r.includes@ == self.includes@,
            r.constants@ == self.constants@,
            r.functions@ == self.functions@,
            r.classes@ == self.classes@,
    {
        HhasSymbolRefs {
            includes: self.includes.clone(),
            constants: self.constants.clone(),
            functions: self.functions.clone(),
            classes: self.classes.clone(),
        }
    }
}

/// The path of an included file.
#[derive(Debug)]
pub enum IncludePath {
    /// A path from the root of the file system.
    Absolute(String),
    /// A path that is looked up on the search path.
    SearchPathRelative(String),
    /// A path below the include root that a variable names.
    IncludeRootRelative(String, String),
    /// A path below the document root.
    DocRootRelative(String),
}

/// What the contracts see of the path of an included file.
pub enum IncludePathView {
    Absolute(Seq<char>),
    SearchPathRelative(Seq<char>),
    IncludeRootRelative(Seq<char>, Seq<char>),
    DocRootRelative(Seq<char>),
}

impl View for IncludePath {
    type V = IncludePathView;

    open spec fn view(&self) -> IncludePathView {
        match self {
            IncludePath::Absolute(p) => IncludePathView::Absolute(p@),
            IncludePath::SearchPathRelative(p) => IncludePathView::SearchPathRelative(p@),
            IncludePath::IncludeRootRelative(var, lit) => IncludePathView::IncludeRootRelative(
                var@,
                lit@,
            ),
            IncludePath::DocRootRelative(p) => IncludePathView::DocRootRelative(p@),
        }
    }
}

impl Clone for IncludePath {
    fn clone(&self) -> (r: IncludePath)
        ensures
            r@ == self@,
    {
        match self {
            IncludePath::Absolute(p) => IncludePath::Absolute(p.clone()),
            IncludePath::SearchPathRelative(p) => IncludePath::SearchPathRelative(p.clone()),
            IncludePath::IncludeRootRelative(var, lit) => IncludePath::IncludeRootRelative(
                var.clone(),
                lit.clone(),
            ),
            IncludePath::DocRootRelative(p) => IncludePath::DocRootRelative(p.clone()),
        }
    }
}

/// Whether `roots` names a root for the variable `var`.
pub open spec fn has_root(roots: Map<String, String>, var: Seq<char>) -> bool {
    exists|k: String| #[trigger] roots.contains_key(k) && k@ == var
}

/// The root that a variable names.
///
/// Wraps `BTreeMap::get`, which returns the value that belongs to the key,
/// if the map holds the key. Keys of type `String` are the same key exactly
/// when they hold the same text.
#[verifier::external_body]
fn root_of<'a>(roots: &'a BTreeMap<String, String>, var: &String) -> (r: Option<&'a String>)
    ensures
        match r {
            Some(root) => exists|k: String| #[trigger]
                roots@.contains_key(k) && k@ == var@ && roots@[k] == *root,
            None => !has_root(roots@, var@),
        },
{
    roots.get(var)
}

/// The path `lit` adjoined to the path `root`, by the rules for paths of
/// the platform for which the library is built.
pub uninterp spec fn joined_path(root: Seq<char>, lit: Seq<char>) -> Seq<char>;

/// Whether `path` is relative, by the rules for paths of the platform for
/// which the library is built.
pub uninterp spec fn path_is_relative(path: Seq<char>) -> bool;

/// The path `lit` below the directory `root`.
///
/// Wraps `Path::join`, which adjoins the second path to the first and lets
/// an absolute second path replace the first. The outcome depends on the two
/// paths alone; the contract gives it the name `joined_path` and says
/// nothing more of it.
#[verifier::external_body]
fn join_paths(root: &str, lit: &str) -> (s: String)
    ensures
        s@ == joined_path(root@, lit@),
{
    std::path::Path::new(root).join(lit).to_string_lossy().into_owned()
}

/// Whether a path is relative.
///
/// Wraps `Path::is_relative`, which returns true for a path that is not
/// absolute. The outcome depends on the path alone; the contract gives it
/// the name `path_is_relative` and says nothing more of it.
#[verifier::external_body]
fn is_relative_path(path: &str) -> (b: bool)
    ensures
        b == path_is_relative(path@),
{
    std::path::Path::new(path).is_relative()
}

/// The include for the path `lit` below the root `root`: the joined path,
/// below the document root where it is relative and absolute where it is
/// not.
pub open spec fn resolved_below(root: Seq<char>, lit: Seq<char>) -> IncludePathView {
    let path = joined_path(root, lit);
    if path_is_relative(path) {
        IncludePathView::DocRootRelative(path)
    } else {
        IncludePathView::Absolute(path)
    }
}

/// Whether `r` is the include for the path `lit` below the root that
/// `roots` names for the variable `var`.
pub open spec fn resolves_to(
    roots: Map<String, String>,
    var: Seq<char>,
    lit: Seq<char>,
    r: IncludePathView,
) -> bool {
    exists|k: String| #[trigger] roots.contains_key(k) && k@ == var && r == resolved_below(
        roots[k]@,
        lit,
    )
}

impl IncludePath {
    /// The include for a path that was resolved below an include root:
    /// below the document root where the path is relative, absolute where
    /// it is not.
    pub fn resolved(path: String, relative: bool) -> (r: IncludePath)
        ensures
            r@ == if relative {
                IncludePathView::DocRootRelative(path@)
            } else {
                IncludePathView::Absolute(path@)
            },
    {
        if relative {
            IncludePath::DocRootRelative(path)
        } else {
            IncludePath::Absolute(path)
        }
    }

    /// The include for the path `lit` below the root `root`.
    fn resolve_below(root: &str, lit: &str) -> (r: IncludePath)
        ensures
            r@ == resolved_below(root@, lit@),
    {
        let path = join_paths(root, lit);
        let relative = is_relative_path(path.as_str());
        IncludePath::resolved(path, relative)
    }

    /// Resolves an include below a named root against the roots
    /// `include_roots`: the path is adjoined to the root that the variable
    /// names, and the include is then one below the document root or an
    /// absolute one. Every other include stays as it is.
    pub fn into_doc_root_relative(self, include_roots: Option<BTreeMap<String, String>>) -> (r:
        IncludePath)
        requires
            self@ matches IncludePathView::IncludeRootRelative(var, _) ==> include_roots matches Some(
                roots,
            ) && has_root(roots@, var),
        ensures
            !(self@ is IncludeRootRelative) ==> r@ == self@,
            self@ matches IncludePathView::IncludeRootRelative(var, lit) ==> resolves_to(
                include_roots->Some_0@,
                var,
                lit,
                r@,
            ),
    {
        match self {
            IncludePath::IncludeRootRelative(var, lit) => {
                let include_roots = match include_roots {
                    Some(roots) => roots,
                    None => BTreeMap::new(),
                };
                match root_of(&include_roots, &var) {
                    Some(root) => Self::resolve_below(root.as_str(), lit.as_str()),
                    // The caller has made sure that the root is known.
                    None => IncludePath::IncludeRootRelative(var, lit),
                }
            },
            other => other,
        }
    }

    /// As `into_doc_root_relative`, for callers that do not know whether
    /// the root is known: there is no outcome for an include below a root
    /// that `include_roots` does not name.
    pub fn try_into_doc_root_relative(
        self,
        include_roots: Option<BTreeMap<String, String>>,
    ) -> (r: Option<IncludePath>)
        ensures
            r is Some <==> (self@ matches IncludePathView::IncludeRootRelative(var, _)
                ==> include_roots matches Some(roots) && has_root(roots@, var)),
            r matches Some(found) ==> {
                &&& !(self@ is IncludeRootRelative) ==> found@ == self@
                &&& self@ matches IncludePathView::IncludeRootRelative(var, lit) ==> resolves_to(
                    include_roots->Some_0@,
                    var,
                    lit,
                    found@,
                )
            },
    {
        match self {
            IncludePath::IncludeRootRelative(var, lit) => match include_roots {
                Some(roots) => match root_of(&roots, &var) {
                    Some(root) => Some(Self::resolve_below(root.as_str(), lit.as_str())),
                    None => None,
                },
                None => None,
            },
            other => Some(other),
        }
    }
}

} // verus!
