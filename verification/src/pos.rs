//! Source positions: a span between two points of one file.
//!
//! A position is stored in one of two encodings, a compact one for the
//! common case and an extended one for coordinates that the compact one
//! cannot hold. Which encoding backs a value is not observable: every
//! contract here is stated over [`PosView`].

use std::cmp::Ordering;
use std::ops::Range;
use std::rc::Rc;
use vstd::prelude::*;
use crate::decimal::{decimal, push_decimal};
use crate::file_pos::FilePosView;
use crate::file_pos_large::FilePosLarge;
use crate::file_pos_small::FilePosSmall;
use crate::relative_path::{
    lemma_file_order_transitive, lemma_file_order_trichotomy, share, Prefix, RelativePath,
    RelativePathView,
};

verus! {

/// What the contracts see of a position.
pub struct PosView {
    pub file: RelativePathView,
    pub start: FilePosView,
    pub end: FilePosView,
}

impl PosView {
    /// The position of nothing.
    pub open spec fn none() -> PosView {
        PosView {
            file: RelativePathView { prefix: Prefix::Dummy, path: Seq::empty() },
            start: FilePosView::Dummy,
            end: FilePosView::Dummy,
        }
    }

    /// Whether this is the position of nothing: no file, and both ends at
    /// the dummy coordinate.
    pub open spec fn is_none(self) -> bool {
        self.start is Dummy && self.end is Dummy && self.file.is_empty()
    }

    pub open spec fn start_offset(self) -> nat {
        self.start.offset()
    }

    pub open spec fn end_offset(self) -> nat {
        self.end.offset()
    }

    /// The span does not end before it starts.
    pub open spec fn ordered(self) -> bool {
        self.start.offset() <= self.end.offset()
    }

    /// Whether the columns of a diagnostic can be computed: the start column
    /// can be counted from one, and the span does not end before the line on
    /// which it starts begins.
    pub open spec fn has_info(self) -> bool {
        self.start.column() < usize::MAX && self.start.bol() <= self.end.offset()
    }

    /// Equality of positions: same file, same start offset, same end offset.
    pub open spec fn same_span(self, other: PosView) -> bool {
        &&& self.file == other.file
        &&& self.start.offset() == other.start.offset()
        &&& self.end.offset() == other.end.offset()
    }
}

/// The earlier of two points, where a dummy point yields to the other.
pub open spec fn earlier(p1: FilePosView, p2: FilePosView) -> FilePosView {
    if p1 is Dummy {
        p2
    } else if p2 is Dummy {
        p1
    } else if p1.offset() < p2.offset() {
        p1
    } else {
        p2
    }
}

/// The later of two points, where a dummy point yields to the other.
pub open spec fn later(p1: FilePosView, p2: FilePosView) -> FilePosView {
    if p1 is Dummy {
        p2
    } else if p2 is Dummy {
        p1
    } else if p1.offset() < p2.offset() {
        p2
    } else {
        p1
    }
}

/// The span from the start of `p1` to the end of `p2`, in the file of `p1`.
pub open spec fn span_between(p1: PosView, p2: PosView) -> PosView {
    PosView { file: p1.file, start: p1.start, end: p2.end }
}

/// The smallest span that covers both `p1` and `p2`, in the file of `p1`.
pub open spec fn span_covering(p1: PosView, p2: PosView) -> PosView {
    PosView { file: p1.file, start: earlier(p1.start, p2.start), end: later(p1.end, p2.end) }
}

/// The message for two positions that lie in different files.
pub open spec fn separate_files_message(f1: RelativePathView, f2: RelativePathView) -> Seq<char> {
    "Position in separate files "@ + f1.rendered() + " and "@ + f2.rendered()
}

/// The message for a span that would end before the end of its first part.
pub open spec fn invalid_positions_message(end1: nat, end2: nat) -> Seq<char> {
    "btw: invalid positions"@ + decimal(end1) + "and"@ + decimal(end2)
}

/// The outcome of merging two positions.
pub open spec fn merge_result(p1: PosView, p2: PosView) -> Result<PosView, Seq<char>> {
    if p1.file != p2.file {
        Err(separate_files_message(p1.file, p2.file))
    } else {
        Ok(span_covering(p1, p2))
    }
}

/// The outcome of spanning from the start of `p1` to the end of `p2`.
pub open spec fn between_result(p1: PosView, p2: PosView) -> Result<PosView, Seq<char>> {
    if p1.file != p2.file {
        Err(separate_files_message(p1.file, p2.file))
    } else if p1.end.offset() > p2.end.offset() {
        Err(invalid_positions_message(p1.end.offset(), p2.end.offset()))
    } else {
        Ok(span_between(p1, p2))
    }
}

/// The order of positions: by file, then by start offset, then by end offset.
pub open spec fn compare_result(p1: PosView, p2: PosView) -> Ordering {
    if p1.file.less_than(p2.file) {
        Ordering::Less
    } else if p2.file.less_than(p1.file) {
        Ordering::Greater
    } else if p1.start.offset() != p2.start.offset() {
        if p1.start.offset() < p2.start.offset() {
            Ordering::Less
        } else {
            Ordering::Greater
        }
    } else if p1.end.offset() != p2.end.offset() {
        if p1.end.offset() < p2.end.offset() {
            Ordering::Less
        } else {
            Ordering::Greater
        }
    } else {
        Ordering::Equal
    }
}

/// The line and the closed interval of columns, counted from one, that a
/// diagnostic on a single line shows for a span: both columns are taken from
/// the beginning of the line on which the span starts, and an empty span is
/// shown as the one column at which it stands.
pub open spec fn info_of(p: PosView) -> (int, int, int) {
    let start = p.start.column() + 1;
    let end = p.end.offset() - p.start.bol();
    (p.start.line() as int, start, if start == end + 1 { start } else { end })
}

#[allow(inconsistent_fields)]
#[derive(Debug)]
enum PosImpl {
    Small { file: Rc<RelativePath>, start: FilePosSmall, end: FilePosSmall },
    Large { file: Rc<RelativePath>, start: Box<FilePosLarge>, end: Box<FilePosLarge> },
}

/// A span of source text in one file.
#[derive(Debug)]
pub struct Pos(PosImpl);

impl View for Pos {
    type V = PosView;

    closed spec fn view(&self) -> PosView {
        match self.0 {
            PosImpl::Small { file, start, end } => PosView {
                file: file@,
                start: start@,
                end: end@,
            },
            PosImpl::Large { file, start, end } => PosView {
                file: file@,
                start: start@,
                end: end@,
            },
        }
    }
}

fn separate_files_error(f1: &RelativePath, f2: &RelativePath) -> (s: String)
    ensures
        s@ == separate_files_message(f1@, f2@),
{
    let mut s = String::from_str("Position in separate files ");
    s.append(f1.to_string().as_str());
    s.append(" and ");
    s.append(f2.to_string().as_str());
    s
}

impl Pos {
    /// The encoding in use can hold both ends, and the ends are well-formed.
    #[verifier::type_invariant]
    closed spec fn inv(self) -> bool {
        match self.0 {
            PosImpl::Small { .. } => true,
            PosImpl::Large { start, end, .. } => start.inv() && end.inv(),
        }
    }

    /// The position of nothing.
    pub fn make_none() -> (p: Pos)
        ensures
            p@ == PosView::none(),
            p@.is_none(),
    {
        Pos(
            PosImpl::Small {
                file: Rc::new(RelativePath::make(Prefix::Dummy, String::new())),
                start: FilePosSmall::make_dummy(),
                end: FilePosSmall::make_dummy(),
            },
        )
    }

    pub fn is_none(&self) -> (b: bool)
        ensures
            b == self@.is_none(),
    {
        match &self.0 {
            PosImpl::Small { file, start, end } => {
                start.is_dummy() && end.is_dummy() && file.is_empty()
            },
            PosImpl::Large { file, start, end } => {
                start.is_dummy() && end.is_dummy() && file.is_empty()
            },
        }
    }

    pub fn filename(&self) -> (f: &RelativePath)
        ensures
            f@ == self@.file,
    {
        match &self.0 {
            PosImpl::Small { file, .. } => &file,
            PosImpl::Large { file, .. } => &file,
        }
    }

    /// The line of the start of the span.
    pub fn line(&self) -> (r: usize)
        ensures
            r == self@.start.line(),
    {
        match &self.0 {
            PosImpl::Small { start, .. } => start.line(),
            PosImpl::Large { start, .. } => start.line(),
        }
    }

    /// The byte offset at which the span ends.
    pub fn end_cnum(&self) -> (r: usize)
        ensures
            r == self@.end_offset(),
    {
        match &self.0 {
            PosImpl::Small { end, .. } => end.offset(),
            PosImpl::Large { end, .. } => end.offset(),
        }
    }

    /// The byte offset at which the span starts.
    pub fn start_cnum(&self) -> (r: usize)
        ensures
            r == self@.start_offset(),
    {
        match &self.0 {
            PosImpl::Small { start, .. } => start.offset(),
            PosImpl::Large { start, .. } => start.offset(),
        }
    }

    /// The span between two points given as `(line, beginning of line, offset)`.
    pub fn from_lnum_bol_cnum(
        file: Rc<RelativePath>,
        start: (usize, usize, usize),
        end: (usize, usize, usize),
    ) -> (p: Pos)
        requires
            start.1 <= start.2,
            end.1 <= end.2,
        ensures
            p@ == (PosView {
                file: file@,
                start: FilePosView::At {
                    line: start.0 as nat,
                    bol: start.1 as nat,
                    offset: start.2 as nat,
                },
                end: FilePosView::At { line: end.0 as nat, bol: end.1 as nat, offset: end.2 as nat },
            }),
    {
        let (start_line, start_bol, start_cnum) = start;
        let (end_line, end_bol, end_cnum) = end;
        let small_start = FilePosSmall::from_lnum_bol_cnum(start_line, start_bol, start_cnum);
        let small_end = FilePosSmall::from_lnum_bol_cnum(end_line, end_bol, end_cnum);
        match (small_start, small_end) {
            (Some(start), Some(end)) => Pos(PosImpl::Small { file, start, end }),
            _ => {
                let start = Box::new(
                    FilePosLarge::from_lnum_bol_cnum(start_line, start_bol, start_cnum),
                );
                let end = Box::new(FilePosLarge::from_lnum_bol_cnum(end_line, end_bol, end_cnum));
                proof {
                    use_type_invariant(&*start);
                    use_type_invariant(&*end);
                }
                Pos(PosImpl::Large { file, start, end })
            },
        }
    }

    /// The span on one line that covers the columns `cols` and starts
    /// `start_offset` bytes into the file.
    pub fn from_line_cols_offset(
        file: Rc<RelativePath>,
        line: usize,
        cols: Range<usize>,
        start_offset: usize,
    ) -> (p: Pos)
        requires
            cols.start <= cols.end,
            cols.start <= start_offset,
            start_offset + (cols.end - cols.start) <= usize::MAX,
        ensures
            p@ == (PosView {
                file: file@,
                start: FilePosView::At {
                    line: line as nat,
                    bol: (start_offset - cols.start) as nat,
                    offset: start_offset as nat,
                },
                end: FilePosView::At {
                    line: line as nat,
                    bol: (start_offset - cols.start) as nat,
                    offset: (start_offset + (cols.end - cols.start)) as nat,
                },
            }),
    {
        let end_offset: usize = start_offset + (cols.end - cols.start);
        let small_start = FilePosSmall::from_line_column_offset(line, cols.start, start_offset);
        let small_end = FilePosSmall::from_line_column_offset(line, cols.end, end_offset);
        match (small_start, small_end) {
            (Some(start), Some(end)) => Pos(PosImpl::Small { file, start, end }),
            _ => {
                let start = Box::new(
                    FilePosLarge::from_line_column_offset(line, cols.start, start_offset),
                );
                let end = Box::new(
                    FilePosLarge::from_line_column_offset(line, cols.end, end_offset),
                );
                proof {
                    use_type_invariant(&*start);
                    use_type_invariant(&*end);
                }
                Pos(PosImpl::Large { file, start, end })
            },
        }
    }

    /// The same point in the extended encoding.
    fn small_to_large_file_pos(p: &FilePosSmall) -> (r: FilePosLarge)
        ensures
            r@ == p@,
            r.inv(),
    {
        let r = if p.is_dummy() {
            FilePosLarge::make_dummy()
        } else {
            proof {
                p.lemma_view_bounds();
            }
            let (lnum, col, bol) = p.line_column_beg();
            FilePosLarge::from_lnum_bol_cnum(lnum, bol, bol + col)
        };
        proof {
            use_type_invariant(&r);
        }
        r
    }

    /// The span from the start of `x1` to the end of `x2`, in the file of
    /// `x1`, whatever the files and the order of the two.
    pub fn btw_nocheck(x1: Pos, x2: Pos) -> (p: Pos)
        ensures
            p@ == span_between(x1@, x2@),
    {
        proof {
            use_type_invariant(&x1);
            use_type_invariant(&x2);
        }
        let inner = match (x1.0, x2.0) {
            (PosImpl::Small { file, start, .. }, PosImpl::Small { end, .. }) => PosImpl::Small {
                file,
                start,
                end,
            },
            (PosImpl::Large { file, start, .. }, PosImpl::Large { end, .. }) => PosImpl::Large {
                file,
                start,
                end,
            },
            (PosImpl::Small { file, start, .. }, PosImpl::Large { end, .. }) => PosImpl::Large {
                file,
                start: Box::new(Self::small_to_large_file_pos(&start)),
                end,
            },
            (PosImpl::Large { file, start, .. }, PosImpl::Small { end, .. }) => PosImpl::Large {
                file,
                start,
                end: Box::new(Self::small_to_large_file_pos(&end)),
            },
        };
        Pos(inner)
    }

    fn earlier_small(p1: FilePosSmall, p2: FilePosSmall) -> (r: FilePosSmall)
        ensures
            r@ == earlier(p1@, p2@),
    {
        if p1.is_dummy() {
            p2
        } else if p2.is_dummy() {
            p1
        } else if p1.offset() < p2.offset() {
            p1
        } else {
            p2
        }
    }

    fn later_small(p1: FilePosSmall, p2: FilePosSmall) -> (r: FilePosSmall)
        ensures
            r@ == later(p1@, p2@),
    {
        if p1.is_dummy() {
            p2
        } else if p2.is_dummy() {
            p1
        } else if p1.offset() < p2.offset() {
            p2
        } else {
            p1
        }
    }

    fn earlier_large(p1: FilePosLarge, p2: FilePosLarge) -> (r: FilePosLarge)
        ensures
            r@ == earlier(p1@, p2@),
            r.inv(),
    {
        proof {
            use_type_invariant(&p1);
            use_type_invariant(&p2);
        }
        if p1.is_dummy() {
            p2
        } else if p2.is_dummy() {
            p1
        } else if p1.offset() < p2.offset() {
            p1
        } else {
            p2
        }
    }

    fn later_large(p1: FilePosLarge, p2: FilePosLarge) -> (r: FilePosLarge)
        ensures
            r@ == later(p1@, p2@),
            r.inv(),
    {
        proof {
            use_type_invariant(&p1);
            use_type_invariant(&p2);
        }
        if p1.is_dummy() {
            p2
        } else if p2.is_dummy() {
            p1
        } else if p1.offset() < p2.offset() {
            p2
        } else {
            p1
        }
    }

    /// The smallest span that covers both `x1` and `x2`, or a message that
    /// names both files where the two lie in different files.
    pub fn merge(x1: Pos, x2: Pos) -> (r: Result<Pos, String>)
        ensures
            match r {
                Ok(p) => merge_result(x1@, x2@) == Ok::<PosView, Seq<char>>(p@),
                Err(e) => merge_result(x1@, x2@) == Err::<PosView, Seq<char>>(e@),
            },
    {
        if !x1.filename().same(x2.filename()) {
            return Err(separate_files_error(x1.filename(), x2.filename()));
        }
        proof {
            use_type_invariant(&x1);
            use_type_invariant(&x2);
        }
        match (x1.0, x2.0) {
            (
                PosImpl::Small { file, start: start1, end: end1 },
                PosImpl::Small { file: _, start: start2, end: end2 },
            ) => {
                let start = Self::earlier_small(start1, start2);
                let end = Self::later_small(end1, end2);
                Ok(Pos(PosImpl::Small { file, start, end }))
            },
            (
                PosImpl::Large { file, start: start1, end: end1 },
                PosImpl::Large { file: _, start: start2, end: end2 },
            ) => {
                let start = Self::earlier_large(*start1, *start2);
                let end = Self::later_large(*end1, *end2);
                Ok(Pos(PosImpl::Large { file, start: Box::new(start), end: Box::new(end) }))
            },
            (
                PosImpl::Small { file, start: start1, end: end1 },
                PosImpl::Large { file: _, start: start2, end: end2 },
            ) => {
                let start = Self::earlier_large(Self::small_to_large_file_pos(&start1), *start2);
                let end = Self::later_large(Self::small_to_large_file_pos(&end1), *end2);
                Ok(Pos(PosImpl::Large { file, start: Box::new(start), end: Box::new(end) }))
            },
            (
                PosImpl::Large { file, start: start1, end: end1 },
                PosImpl::Small { file: _, start: start2, end: end2 },
            ) => {
                let start = Self::earlier_large(*start1, Self::small_to_large_file_pos(&start2));
                let end = Self::later_large(*end1, Self::small_to_large_file_pos(&end2));
                Ok(Pos(PosImpl::Large { file, start: Box::new(start), end: Box::new(end) }))
            },
        }
    }

    /// The span from the start of `x1` to the end of `x2`, or a message
    /// where the two lie in different files or `x1` ends after `x2` does.
    pub fn btw(x1: &Pos, x2: &Pos) -> (r: Result<Pos, String>)
        ensures
            match r {
                Ok(p) => between_result(x1@, x2@) == Ok::<PosView, Seq<char>>(p@),
                Err(e) => between_result(x1@, x2@) == Err::<PosView, Seq<char>>(e@),
            },
    {
        if !x1.filename().same(x2.filename()) {
            Err(separate_files_error(x1.filename(), x2.filename()))
        } else if x1.end_cnum() > x2.end_cnum() {
            let mut s = String::from_str("btw: invalid positions");
            push_decimal(&mut s, x1.end_cnum() as u64);
            s.append("and");
            push_decimal(&mut s, x2.end_cnum() as u64);
            Err(s)
        } else {
            Ok(Self::btw_nocheck(x1.clone(), x2.clone()))
        }
    }

    /// The line of the start and the closed interval of columns, counted
    /// from one, for a diagnostic on that line. For a span over several
    /// lines the end column is still counted from the start's line.
    pub fn info_pos(self) -> (r: (usize, usize, usize))
        requires
            self@.has_info(),
        ensures
            (r.0 as int, r.1 as int, r.2 as int) == info_of(self@),
            self@.start.offset() == self@.end.offset() ==> r.1 == r.2,
    {
        proof {
            use_type_invariant(&self);
        }
        let (line, start_minus1, bol, end_offset) = match self.0 {
            PosImpl::Small { start, end, .. } => {
                let (line, col, bol) = start.line_column_beg();
                (line, col, bol, end.offset())
            },
            PosImpl::Large { start, end, .. } => {
                let (line, col, bol) = start.line_column_beg();
                (line, col, bol, end.offset())
            },
        };
        let start: usize = start_minus1 + 1;
        let mut end: usize = end_offset - bol;
        if end < usize::MAX && start == end + 1 {
            end = start
        }
        (line, start, end)
    }

    /// Whether `info_pos` and `info_pos_extended` may be asked of this
    /// position.
    pub fn has_info_pos(&self) -> (b: bool)
        ensures
            b == self@.has_info(),
    {
        proof {
            use_type_invariant(self);
        }
        let (column, bol, end_offset) = match &self.0 {
            PosImpl::Small { start, end, .. } => {
                let (_, col, bol) = start.line_column_beg();
                (col, bol, end.offset())
            },
            PosImpl::Large { start, end, .. } => {
                let (_, col, bol) = start.line_column_beg();
                (col, bol, end.offset())
            },
        };
        column < usize::MAX && bol <= end_offset
    }

    /// As `info_pos`, with the line of the end of the span in second place.
    pub fn info_pos_extended(self) -> (r: (usize, usize, usize, usize))
        requires
            self@.has_info(),
        ensures
            (r.0 as int, r.2 as int, r.3 as int) == info_of(self@),
            r.1 == self@.end.line(),
    {
        let line_end: usize = match &self.0 {
            PosImpl::Small { end, .. } => end.line(),
            PosImpl::Large { end, .. } => end.line(),
        };
        let (line_begin, start, end) = self.info_pos();
        (line_begin, line_end, start, end)
    }

    /// Orders two positions by file, then by start offset, then by end
    /// offset. Positions in different files are ordered too.
    pub fn compare(p1: &Pos, p2: &Pos) -> (r: Ordering)
        ensures
            r == compare_result(p1@, p2@),
    {
        if p1.filename().less_than(p2.filename()) {
            Ordering::Less
        } else if p2.filename().less_than(p1.filename()) {
            Ordering::Greater
        } else if p1.start_cnum() != p2.start_cnum() {
            if p1.start_cnum() < p2.start_cnum() {
                Ordering::Less
            } else {
                Ordering::Greater
            }
        } else if p1.end_cnum() != p2.end_cnum() {
            if p1.end_cnum() < p2.end_cnum() {
                Ordering::Less
            } else {
                Ordering::Greater
            }
        } else {
            Ordering::Equal
        }
    }
}

impl PartialEq for Pos {
    fn eq(&self, other: &Self) -> (r: bool) {
        self.filename().same(other.filename()) && self.start_cnum() == other.start_cnum()
            && self.end_cnum() == other.end_cnum()
    }
}

impl vstd::std_specs::cmp::PartialEqSpecImpl for Pos {
    open spec fn obeys_eq_spec() -> bool {
        true
    }

    open spec fn eq_spec(&self, other: &Self) -> bool {
        self@.same_span(other@)
    }
}


impl Clone for Pos {
    fn clone(&self) -> (r: Pos)
        ensures
            r@ == self@,
    {
        proof {
            use_type_invariant(self);
        }
        match &self.0 {
            PosImpl::Small { file, start, end } => Pos(
                PosImpl::Small { file: share(file), start: *start, end: *end },
            ),
            PosImpl::Large { file, start, end } => Pos(
                PosImpl::Large {
                    file: share(file),
                    start: Box::new(**start),
                    end: Box::new(**end),
                },
            ),
        }
    }
}

/// A span that was put together from spans that do not end before they
/// start does not end before it starts either.
pub proof fn lemma_merge_keeps_order(p1: PosView, p2: PosView)
    requires
        p1.ordered(),
        p2.ordered(),
    ensures
        span_covering(p1, p2).ordered(),
        merge_result(p1, p2) matches Ok(p) ==> p.start_offset() <= p.end_offset(),
{
}

/// Where `between_result` grants a span from the start of `p1` to the end of
/// `p2`, and `p1` does not end before it starts, neither does that span.
pub proof fn lemma_between_keeps_order(p1: PosView, p2: PosView)
    requires
        p1.ordered(),
    ensures
        between_result(p1, p2) matches Ok(p) ==> p.start_offset() <= p.end_offset(),
{
}

/// Merging is commutative: for two positions in one file, the two orders of
/// merging both succeed and give equal positions.
pub proof fn lemma_merge_commutes(p1: PosView, p2: PosView)
    requires
        p1.file == p2.file,
    ensures
        merge_result(p1, p2) is Ok,
        merge_result(p2, p1) is Ok,
        merge_result(p1, p2)->Ok_0.same_span(merge_result(p2, p1)->Ok_0),
{
}

/// Merging covers both arguments: no end of either that is not the dummy
/// lies outside the merged span.
pub proof fn lemma_merge_covers(p1: PosView, p2: PosView)
    ensures
        !(p1.start is Dummy) ==> span_covering(p1, p2).start.offset() <= p1.start.offset(),
        !(p2.start is Dummy) ==> span_covering(p1, p2).start.offset() <= p2.start.offset(),
        !(p1.end is Dummy) ==> p1.end.offset() <= span_covering(p1, p2).end.offset(),
        !(p2.end is Dummy) ==> p2.end.offset() <= span_covering(p1, p2).end.offset(),
{
}

/// Merging with the position of nothing changes nothing: in the file of
/// that position, every other position is its own merge with it.
pub proof fn lemma_merge_none_is_identity(none: PosView, p: PosView)
    requires
        none.is_none(),
        none.file == p.file,
    ensures
        merge_result(none, p) == Ok::<PosView, Seq<char>>(p),
        merge_result(p, none) == Ok::<PosView, Seq<char>>(p),
{
}

/// Merging never crosses files: for positions in different files the
/// outcome is the message that names both.
pub proof fn lemma_merge_rejects_other_file(p1: PosView, p2: PosView)
    requires
        p1.file != p2.file,
    ensures
        merge_result(p1, p2) == Err::<PosView, Seq<char>>(
            "Position in separate files "@ + p1.file.rendered() + " and "@ + p2.file.rendered(),
        ),
{
}

/// A position in a file that has a name, or whose start is a real point, is
/// not the position of nothing.
pub proof fn lemma_not_none(p: PosView)
    requires
        !p.file.is_empty() || !(p.start is Dummy),
    ensures
        !p.is_none(),
{
}

/// The columns of an empty span: where the end column as computed would be
/// one less than the start column, the start column is reported for both;
/// everywhere else the end column is reported as computed.
pub proof fn lemma_info_empty_interval(p: PosView)
    ensures
        ({
            let start = p.start.column() + 1;
            let end = p.end.offset() - p.start.bol();
            &&& end == start - 1 ==> info_of(p) == (p.start.line() as int, start, start)
            &&& end != start - 1 ==> info_of(p) == (p.start.line() as int, start, end)
        }),
        p.start.offset() == p.end.offset() ==> info_of(p).1 == info_of(p).2,
{
}

/// Two positions compare as equal exactly when they are equal: same file,
/// same start offset, same end offset.
pub proof fn lemma_compare_equal_iff_same_span(p1: PosView, p2: PosView)
    ensures
        compare_result(p1, p2) is Equal <==> p1.same_span(p2),
{
    lemma_file_order_trichotomy(p1.file, p2.file);
}

/// Comparing is antisymmetric: one position comes before another exactly
/// when the other comes after it.
pub proof fn lemma_compare_antisymmetric(p1: PosView, p2: PosView)
    ensures
        compare_result(p1, p2) is Less <==> compare_result(p2, p1) is Greater,
        compare_result(p1, p2) is Equal <==> compare_result(p2, p1) is Equal,
{
    lemma_file_order_trichotomy(p1.file, p2.file);
}

/// Comparing is transitive.
pub proof fn lemma_compare_transitive(p1: PosView, p2: PosView, p3: PosView)
    requires
        compare_result(p1, p2) is Less,
        compare_result(p2, p3) is Less,
    ensures
        compare_result(p1, p3) is Less,
{
    lemma_file_order_trichotomy(p1.file, p2.file);
    lemma_file_order_trichotomy(p2.file, p3.file);
    lemma_file_order_trichotomy(p1.file, p3.file);
    if p1.file.less_than(p2.file) && p2.file.less_than(p3.file) {
        lemma_file_order_transitive(p1.file, p2.file, p3.file);
    }
    if p3.file.less_than(p1.file) {
        if p1.file.less_than(p2.file) {
            lemma_file_order_transitive(p3.file, p1.file, p2.file);
            lemma_file_order_trichotomy(p3.file, p2.file);
        }
        if p2.file.less_than(p3.file) {
            lemma_file_order_transitive(p2.file, p3.file, p1.file);
            lemma_file_order_trichotomy(p2.file, p1.file);
        }
    }
}

} // verus!
