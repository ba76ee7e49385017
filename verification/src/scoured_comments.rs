//! What the harvesting of comments yields: the comments of a file in the
//! order of the text, and the suppression pragmas by line and code.

use std::collections::BTreeMap;
use vstd::prelude::*;
use crate::pos::{Pos, PosView};

verus! {

/// The text of a comment.
#[derive(Debug, PartialEq, Eq)]
pub enum Comment {
    /// A comment that ends with its line, without its marker and with a line
    /// feed at its end.
    CmtLine(Vec<u8>),
    /// A comment between delimiters, without the delimiters.
    CmtBlock(Vec<u8>),
}

/// What the contracts see of a comment.
pub enum CommentView {
    Line(Seq<u8>),
    Block(Seq<u8>),
}

impl View for Comment {
    type V = CommentView;

    open spec fn view(&self) -> CommentView {
        match self {
            Comment::CmtLine(text) => CommentView::Line(text@),
            Comment::CmtBlock(text) => CommentView::Block(text@),
        }
    }
}

/// Pragmas by line and, within a line, by code: for each the position of the
/// pragma.
pub type RecordsView = Map<isize, Map<isize, PosView>>;

/// What the contracts see of the outcome of a harvest.
pub struct ScouredView {
    /// The comments, in the order of the text.
    pub comments: Seq<(PosView, CommentView)>,
    /// The suppressions that were granted.
    pub fixmes: RecordsView,
    /// The suppressions that stand where policy allows none for their code.
    pub misuses: RecordsView,
    /// The positions of pragmas that name no code.
    pub error_pos: Seq<PosView>,
}

/// The records `m` and one more, which takes the place of an earlier one
/// for the same line and code.
pub open spec fn with_record(m: RecordsView, line: isize, code: isize, pos: PosView) -> RecordsView {
    let on_line = if m.contains_key(line) {
        m[line]
    } else {
        Map::<isize, PosView>::empty()
    };
    m.insert(line, on_line.insert(code, pos))
}

impl ScouredView {
    pub open spec fn empty() -> ScouredView {
        ScouredView {
            comments: Seq::empty(),
            fixmes: Map::empty(),
            misuses: Map::empty(),
            error_pos: Seq::empty(),
        }
    }

    pub open spec fn with_comment(self, pos: PosView, comment: CommentView) -> ScouredView {
        ScouredView { comments: self.comments.push((pos, comment)), ..self }
    }

    pub open spec fn with_fixme(self, line: isize, code: isize, pos: PosView) -> ScouredView {
        ScouredView { fixmes: with_record(self.fixmes, line, code, pos), ..self }
    }

    pub open spec fn with_misuse(self, line: isize, code: isize, pos: PosView) -> ScouredView {
        ScouredView { misuses: with_record(self.misuses, line, code, pos), ..self }
    }

    pub open spec fn with_format_error(self, pos: PosView) -> ScouredView {
        ScouredView { error_pos: self.error_pos.push(pos), ..self }
    }

    /// The position of the suppression of `code` on `line`, if there is one.
    pub open spec fn fixme_at(self, line: isize, code: isize) -> Option<PosView> {
        if self.fixmes.contains_key(line) && self.fixmes[line].contains_key(code) {
            Some(self.fixmes[line][code])
        } else {
            None
        }
    }
}

/// What the contracts see of the records of one line.
pub open spec fn line_view(m: BTreeMap<isize, Pos>) -> Map<isize, PosView> {
    Map::new(|code: isize| m@.contains_key(code), |code: isize| m@[code]@)
}

/// What the contracts see of records by line and code.
pub open spec fn records_view(m: BTreeMap<isize, BTreeMap<isize, Pos>>) -> RecordsView {
    Map::new(|line: isize| m@.contains_key(line), |line: isize| line_view(m@[line]))
}

/// What the contracts see of a list of comments.
pub open spec fn comments_view(v: Seq<(Pos, Comment)>) -> Seq<(PosView, CommentView)> {
    Seq::new(v.len(), |i: int| (v[i].0@, v[i].1@))
}

/// What the contracts see of a list of positions.
pub open spec fn positions_view(v: Seq<Pos>) -> Seq<PosView> {
    Seq::new(v.len(), |i: int| v[i]@)
}

/// The outcome of a harvest.
#[derive(Debug, PartialEq)]
pub struct ScouredComments {
    pub comments: Vec<(Pos, Comment)>,
    pub fixmes: BTreeMap<isize, BTreeMap<isize, Pos>>,
    pub misuses: BTreeMap<isize, BTreeMap<isize, Pos>>,
    pub error_pos: Vec<Pos>,
}

impl View for ScouredComments {
    type V = ScouredView;

    open spec fn view(&self) -> ScouredView {
        ScouredView {
            comments: comments_view(self.comments@),
            fixmes: records_view(self.fixmes),
            misuses: records_view(self.misuses),
            error_pos: positions_view(self.error_pos@),
        }
    }
}

fn add_record(m: &mut BTreeMap<isize, BTreeMap<isize, Pos>>, line: isize, code: isize, pos: Pos)
    ensures
        records_view(*final(m)) == with_record(records_view(*old(m)), line, code, pos@),
{
    broadcast use vstd::std_specs::btree::group_btree_axioms;
    broadcast use vstd::laws_cmp::group_laws_cmp;

    let ghost records = records_view(*m);
    let mut on_line: BTreeMap<isize, Pos> = match m.remove(&line) {
        Some(on_line) => on_line,
        None => BTreeMap::new(),
    };
    let ghost before = line_view(on_line);
    proof {
        if records.contains_key(line) {
            assert(before == records[line]);
        } else {
            assert(before =~= Map::<isize, PosView>::empty());
        }
    }
    on_line.insert(code, pos);
    assert(line_view(on_line) =~= before.insert(code, pos@));
    m.insert(line, on_line);
    proof {
        let after = records_view(*m);
        let expected = with_record(records, line, code, pos@);
        assert forall|l: isize| after.contains_key(l) <==> expected.contains_key(l) by {}
        assert forall|l: isize| after.contains_key(l) implies after[l] == expected[l] by {
            if l != line {
                assert(m@[l] == old(m)@[l]);
            }
        }
        assert(after =~= expected);
    }
}

impl ScouredComments {
    pub fn new() -> (s: ScouredComments)
        ensures
            s@ == ScouredView::empty(),
    {
        let s = ScouredComments {
            comments: Vec::new(),
            fixmes: BTreeMap::new(),
            misuses: BTreeMap::new(),
            error_pos: Vec::new(),
        };
        assert(s@.comments =~= Seq::empty());
        assert(s@.error_pos =~= Seq::empty());
        assert(s@.fixmes =~= Map::empty());
        assert(s@.misuses =~= Map::empty());
        s
    }

    /// Appends a comment.
    pub fn add_comment(&mut self, pos: Pos, comment: Comment)
        ensures
            final(self)@ == old(self)@.with_comment(pos@, comment@),
    {
        self.comments.push((pos, comment));
        assert(self@.comments =~= old(self)@.comments.push((pos@, comment@)));
    }

    /// Records the suppression of `code` on `line`.
    pub fn add_to_fixmes(&mut self, line: isize, code: isize, pos: Pos)
        ensures
            final(self)@ == old(self)@.with_fixme(line, code, pos@),
    {
        add_record(&mut self.fixmes, line, code, pos);
    }

    /// Records a suppression of `code` on `line` that policy does not allow.
    pub fn add_to_misuses(&mut self, line: isize, code: isize, pos: Pos)
        ensures
            final(self)@ == old(self)@.with_misuse(line, code, pos@),
    {
        add_record(&mut self.misuses, line, code, pos);
    }

    /// Records a pragma that names no code.
    pub fn add_format_error(&mut self, pos: Pos)
        ensures
            final(self)@ == old(self)@.with_format_error(pos@),
    {
        self.error_pos.push(pos);
        assert(self@.error_pos =~= old(self)@.error_pos.push(pos@));
    }

    /// The position of the suppression of `code` on `line`, if there is one.
    pub fn get_fixme(&self, line: isize, code: isize) -> (r: Option<&Pos>)
        ensures
            match r {
                Some(p) => self@.fixme_at(line, code) == Some(p@),
                None => self@.fixme_at(line, code) is None,
            },
    {
        broadcast use vstd::std_specs::btree::group_btree_axioms;
        broadcast use vstd::laws_cmp::group_laws_cmp;

        match self.fixmes.get(&line) {
            Some(on_line) => on_line.get(&code),
            None => None,
        }
    }
}

} // verus!
