//! The compact encoding of one end of a span: three fields packed into one
//! 64-bit word.
//!
//! ```text
//!    6         5         4         3         2         1         0
//! 3210987654321098765432109876543210987654321098765432109876543210
//! .<----------------------------><----------------------><------->
//!    beginning of line             line                    column
//! ```
//!
//! The word with every bit set is the dummy coordinate.

use vstd::prelude::*;
use crate::file_pos::FilePosView;

verus! {

/// The largest column that the compact encoding holds.
pub const MAX_COLUMN: usize = 0x1FF;

/// The largest line number that the compact encoding holds.
pub const MAX_LINE: usize = 0xFF_FFFF;

/// The largest beginning-of-line offset that the compact encoding holds.
pub const MAX_BOL: usize = 0x3FFF_FFFF;

const DUMMY: u64 = 0xFFFF_FFFF_FFFF_FFFF;

/// Whether the compact encoding can hold the three fields without loss.
pub open spec fn fits_small(line: int, bol: int, column: int) -> bool {
    &&& 0 <= column <= MAX_COLUMN
    &&& 0 <= line <= MAX_LINE
    &&& 0 <= bol <= MAX_BOL
}

spec fn unpack_bol(w: u64) -> u64 {
    (w >> 33) & 0x3FFF_FFFF
}

spec fn unpack_line(w: u64) -> u64 {
    (w >> 9) & 0xFF_FFFF
}

spec fn unpack_column(w: u64) -> u64 {
    w & 0x1FF
}

spec fn pack(bol: u64, line: u64, column: u64) -> u64 {
    (bol << 33) | (line << 9) | column
}

proof fn lemma_unpack_bounds(w: u64)
    ensures
        unpack_bol(w) <= 0x3FFF_FFFF,
        unpack_line(w) <= 0xFF_FFFF,
        unpack_column(w) <= 0x1FF,
{
    assert((w >> 33) & 0x3FFF_FFFF <= 0x3FFF_FFFF) by (bit_vector);
    assert((w >> 9) & 0xFF_FFFF <= 0xFF_FFFF) by (bit_vector);
    assert(w & 0x1FF <= 0x1FF) by (bit_vector);
}

proof fn lemma_pack_unpack(bol: u64, line: u64, column: u64)
    requires
        bol <= 0x3FFF_FFFF,
        line <= 0xFF_FFFF,
        column <= 0x1FF,
    ensures
        pack(bol, line, column) != DUMMY,
        unpack_bol(pack(bol, line, column)) == bol,
        unpack_line(pack(bol, line, column)) == line,
        unpack_column(pack(bol, line, column)) == column,
{
    assert(((bol << 33) | (line << 9) | column) != 0xFFFF_FFFF_FFFF_FFFFu64) by (bit_vector)
        requires
            bol <= 0x3FFF_FFFF,
            line <= 0xFF_FFFF,
            column <= 0x1FF,
    ;
    assert(((((bol << 33) | (line << 9) | column) >> 33) & 0x3FFF_FFFF) == bol) by (bit_vector)
        requires
            bol <= 0x3FFF_FFFF,
            line <= 0xFF_FFFF,
            column <= 0x1FF,
    ;
    assert(((((bol << 33) | (line << 9) | column) >> 9) & 0xFF_FFFF) == line) by (bit_vector)
        requires
            bol <= 0x3FFF_FFFF,
            line <= 0xFF_FFFF,
            column <= 0x1FF,
    ;
    assert((((bol << 33) | (line << 9) | column) & 0x1FF) == column) by (bit_vector)
        requires
            bol <= 0x3FFF_FFFF,
            line <= 0xFF_FFFF,
            column <= 0x1FF,
    ;
}

/// One end of a span in the compact encoding.
#[derive(Clone, Copy, Debug)]
pub struct FilePosSmall(u64);

impl View for FilePosSmall {
    type V = FilePosView;

    closed spec fn view(&self) -> FilePosView {
        if self.0 == DUMMY {
            FilePosView::Dummy
        } else {
            FilePosView::At {
                line: unpack_line(self.0) as nat,
                bol: unpack_bol(self.0) as nat,
                offset: (unpack_bol(self.0) + unpack_column(self.0)) as nat,
            }
        }
    }
}

impl FilePosSmall {
    /// Every value of the compact encoding is a well-formed point whose
    /// fields are within the encoding's bounds.
    pub proof fn lemma_view_bounds(self)
        ensures
            self@.wf(),
            fits_small(self@.line() as int, self@.bol() as int, self@.column()),
    {
        lemma_unpack_bounds(self.0);
    }

    pub fn make_dummy() -> (p: FilePosSmall)
        ensures
            p@ is Dummy,
    {
        FilePosSmall(DUMMY)
    }

    pub fn is_dummy(self) -> (b: bool)
        ensures
            b == self@.is_dummy(),
    {
        self.0 == DUMMY
    }

    fn bol(self) -> (r: usize)
        ensures
            r == self@.bol(),
    {
        if self.is_dummy() {
            0
        } else {
            proof {
                lemma_unpack_bounds(self.0);
            }
            ((self.0 >> 33) & 0x3FFF_FFFF) as usize
        }
    }

    pub fn line(self) -> (r: usize)
        ensures
            r == self@.line(),
    {
        if self.is_dummy() {
            0
        } else {
            proof {
                lemma_unpack_bounds(self.0);
            }
            ((self.0 >> 9) & 0xFF_FFFF) as usize
        }
    }

    pub fn column(self) -> (r: usize)
        ensures
            r == self@.column(),
    {
        if self.is_dummy() {
            0
        } else {
            proof {
                lemma_unpack_bounds(self.0);
            }
            (self.0 & 0x1FF) as usize
        }
    }

    fn bol_line_col(bol: usize, line: usize, col: usize) -> (r: Option<FilePosSmall>)
        ensures
            r is Some <==> fits_small(line as int, bol as int, col as int),
            r matches Some(p) ==> p@ == (FilePosView::At {
                line: line as nat,
                bol: bol as nat,
                offset: (bol + col) as nat,
            }),
    {
        if col > MAX_COLUMN || line > MAX_LINE || bol > MAX_BOL {
            None
        } else {
            proof {
                lemma_pack_unpack(bol as u64, line as u64, col as u64);
            }
            Some(FilePosSmall(((bol as u64) << 33) | ((line as u64) << 9) | (col as u64)))
        }
    }

    /// The point on `line` at `column`, `offset` bytes into the file, if the
    /// compact encoding can hold it.
    pub fn from_line_column_offset(line: usize, column: usize, offset: usize) -> (r: Option<
        FilePosSmall,
    >)
        requires
            column <= offset,
        ensures
            r is Some <==> fits_small(line as int, offset - column, column as int),
            r matches Some(p) ==> p@ == (FilePosView::At {
                line: line as nat,
                bol: (offset - column) as nat,
                offset: offset as nat,
            }),
    {
        Self::bol_line_col(offset - column, line, column)
    }

    /// The point on line `lnum`, which begins at byte `bol`, at byte `cnum`
    /// of the file, if the compact encoding can hold it.
    pub fn from_lnum_bol_cnum(lnum: usize, bol: usize, cnum: usize) -> (r: Option<FilePosSmall>)
        requires
            bol <= cnum,
        ensures
            r is Some <==> fits_small(lnum as int, bol as int, cnum - bol),
            r matches Some(p) ==> p@ == (FilePosView::At {
                line: lnum as nat,
                bol: bol as nat,
                offset: cnum as nat,
            }),
    {
        Self::bol_line_col(bol, lnum, cnum - bol)
    }

    pub fn offset(self) -> (r: usize)
        ensures
            r == self@.offset(),
    {
        proof {
            lemma_unpack_bounds(self.0);
        }
        self.bol() + self.column()
    }

    pub fn line_beg(self) -> (r: (usize, usize))
        ensures
            r.0 == self@.line(),
            r.1 == self@.bol(),
    {
        (self.line(), self.bol())
    }

    pub fn line_column(self) -> (r: (usize, usize))
        ensures
            r.0 == self@.line(),
            r.1 == self@.column(),
    {
        (self.line(), self.column())
    }

    pub fn line_column_beg(self) -> (r: (usize, usize, usize))
        ensures
            r.0 == self@.line(),
            r.1 == self@.column(),
            r.2 == self@.bol(),
    {
        (self.line(), self.column(), self.bol())
    }

    pub fn line_column_offset(self) -> (r: (usize, usize, usize))
        ensures
            r.0 == self@.line(),
            r.1 == self@.column(),
            r.2 == self@.offset(),
    {
        (self.line(), self.column(), self.offset())
    }

    pub fn line_beg_offset(self) -> (r: (usize, usize, usize))
        ensures
            r.0 == self@.line(),
            r.1 == self@.bol(),
            r.2 == self@.offset(),
    {
        (self.line(), self.bol(), self.offset())
    }
}

} // verus!
