//! A source file together with the index of its lines, for turning byte
//! offsets into positions.

use vstd::prelude::*;
use crate::file_pos::FilePosView;
use crate::line_break_map::{breaks_before, line_start_before, LineBreakMap};
use crate::pos::{Pos, PosView};
use crate::relative_path::RelativePathView;
use crate::source_text::{SourceText, SourceTextView};

verus! {

/// The point at byte `offset` of `text`: its line, counted from one, and
/// the byte at which that line begins.
pub open spec fn point_at(text: Seq<u8>, offset: nat) -> FilePosView {
    FilePosView::At {
        line: breaks_before(text, offset) + 1,
        bol: line_start_before(text, offset),
        offset,
    }
}

/// The span of `text` from byte `start` to byte `end`, as a position in
/// `file`.
pub open spec fn span_at(file: RelativePathView, text: Seq<u8>, start: nat, end: nat) -> PosView {
    PosView { file, start: point_at(text, start), end: point_at(text, end) }
}

/// A source file together with the index of its lines.
pub struct IndexedSourceText {
    source_text: SourceText,
    offset_map: LineBreakMap,
}

impl View for IndexedSourceText {
    type V = SourceTextView;

    closed spec fn view(&self) -> SourceTextView {
        self.source_text@
    }
}

impl IndexedSourceText {
    #[verifier::type_invariant]
    spec fn inv(self) -> bool {
        self.offset_map.text() == self.source_text@.text
    }

    pub fn new(source_text: SourceText) -> (s: IndexedSourceText)
        ensures
            s@ == source_text@,
    {
        let offset_map = LineBreakMap::new(source_text.text());
        IndexedSourceText { source_text, offset_map }
    }

    pub fn source_text(&self) -> (s: &SourceText)
        ensures
            s@ == self@,
    {
        &self.source_text
    }

    /// The line number, counted from one, of the byte at `offset`, the byte
    /// at which that line begins, and `offset` itself.
    pub fn offset_to_file_pos_triple(&self, offset: usize) -> (r: (usize, usize, usize))
        ensures
            r.0 == breaks_before(self@.text, offset as nat) + 1,
            r.1 == line_start_before(self@.text, offset as nat),
            r.2 == offset,
            r.1 <= r.2,
    {
        proof {
            use_type_invariant(self);
        }
        self.offset_map.offset_to_file_pos_triple(offset)
    }

    /// The position, in this file, of the span from byte `start_offset` to
    /// byte `end_offset`.
    pub fn relative_pos(&self, start_offset: usize, end_offset: usize) -> (p: Pos)
        ensures
            p@ == span_at(self@.file, self@.text, start_offset as nat, end_offset as nat),
    {
        let pos_start = self.offset_to_file_pos_triple(start_offset);
        let pos_end = self.offset_to_file_pos_triple(end_offset);
        Pos::from_lnum_bol_cnum(self.source_text.file_path_rc(), pos_start, pos_end)
    }
}

} // verus!
