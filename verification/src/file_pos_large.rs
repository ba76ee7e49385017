//! The extended encoding of one end of a span: one machine word per field.

use vstd::prelude::*;
use crate::file_pos::FilePosView;

verus! {

/// One end of a span in the extended encoding.
#[derive(Clone, Copy, Debug)]
pub struct FilePosLarge {
    /// Whether this is the dummy coordinate; the other fields are then zero.
    dummy: bool,
    /// The line number.
    lnum: usize,
    /// The byte offset at which the line begins.
    bol: usize,
    /// The byte offset of the point from the start of the file.
    cnum: usize,
}

impl View for FilePosLarge {
    type V = FilePosView;

    closed spec fn view(&self) -> FilePosView {
        if self.dummy {
            FilePosView::Dummy
        } else {
            FilePosView::At {
                line: self.lnum as nat,
                bol: self.bol as nat,
                offset: self.cnum as nat,
            }
        }
    }
}

impl FilePosLarge {
    /// The invariant of the encoding: a point never lies before the beginning
    /// of its own line.
    #[verifier::type_invariant]
    pub closed spec fn inv(self) -> bool {
        self.bol <= self.cnum
    }

    pub fn make_dummy() -> (p: FilePosLarge)
        ensures
            p@ is Dummy,
    {
        FilePosLarge { dummy: true, lnum: 0, bol: 0, cnum: 0 }
    }

    pub fn is_dummy(self) -> (b: bool)
        ensures
            b == self@.is_dummy(),
    {
        self.dummy
    }

    /// The point on `line` at `column`, `offset` bytes into the file.
    pub fn from_line_column_offset(line: usize, column: usize, offset: usize) -> (p: FilePosLarge)
        requires
            column <= offset,
        ensures
            p@ == (FilePosView::At {
                line: line as nat,
                bol: (offset - column) as nat,
                offset: offset as nat,
            }),
    {
        FilePosLarge { dummy: false, lnum: line, bol: offset - column, cnum: offset }
    }

    /// The point on line `lnum`, which begins at byte `bol`, at byte `cnum`
    /// of the file.
    pub fn from_lnum_bol_cnum(lnum: usize, bol: usize, cnum: usize) -> (p: FilePosLarge)
        requires
            bol <= cnum,
        ensures
            p@ == (FilePosView::At { line: lnum as nat, bol: bol as nat, offset: cnum as nat }),
    {
        FilePosLarge { dummy: false, lnum, bol, cnum }
    }

    pub fn offset(self) -> (r: usize)
        ensures
            r == self@.offset(),
            self@.wf(),
    {
        proof {
            use_type_invariant(&self);
        }
        if self.dummy {
            0
        } else {
            self.cnum
        }
    }

    pub fn line(self) -> (r: usize)
        ensures
            r == self@.line(),
    {
        if self.dummy {
            0
        } else {
            self.lnum
        }
    }

    pub fn column(self) -> (r: usize)
        ensures
            r == self@.column(),
    {
        proof {
            use_type_invariant(&self);
        }
        if self.dummy {
            0
        } else {
            self.cnum - self.bol
        }
    }

    pub fn beg_of_line(self) -> (r: usize)
        ensures
            r == self@.bol(),
    {
        if self.dummy {
            0
        } else {
            self.bol
        }
    }

    pub fn line_beg(self) -> (r: (usize, usize))
        ensures
            r.0 == self@.line(),
            r.1 == self@.bol(),
    {
        (self.line(), self.beg_of_line())
    }

    pub fn line_column(self) -> (r: (usize, usize))
        ensures
            r.0 == self@.line(),
            r.1 == self@.column(),
    {
        (self.line(), self.column())
    }

    pub fn line_column_beg(self) -> (r: (usize, usize, usize))
        ensures
            r.0 == self@.line(),
            r.1 == self@.column(),
            r.2 == self@.bol(),
    {
        (self.line(), self.column(), self.beg_of_line())
    }

    pub fn line_column_offset(self) -> (r: (usize, usize, usize))
        ensures
            r.0 == self@.line(),
            r.1 == self@.column(),
            r.2 == self@.offset(),
    {
        (self.line(), self.column(), self.offset())
    }

    pub fn line_beg_offset(self) -> (r: (usize, usize, usize))
        ensures
            r.0 == self@.line(),
            r.1 == self@.bol(),
            r.2 == self@.offset(),
    {
        (self.line(), self.beg_of_line(), self.offset())
    }
}

} // verus!
