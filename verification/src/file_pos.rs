//! The mathematical model of one end of a span.

use vstd::prelude::*;

verus! {

/// One end of a span: either the dummy coordinate, which stands for "nowhere"
/// and reads as zero everywhere, or a line together with the byte offset at
/// which that line begins and the byte offset of the point itself.
pub enum FilePosView {
    Dummy,
    At { line: nat, bol: nat, offset: nat },
}

impl FilePosView {
    pub open spec fn is_dummy(self) -> bool {
        self is Dummy
    }

    pub open spec fn line(self) -> nat {
        match self {
            FilePosView::Dummy => 0,
            FilePosView::At { line, .. } => line,
        }
    }

    /// The byte offset at which the point's line begins.
    pub open spec fn bol(self) -> nat {
        match self {
            FilePosView::Dummy => 0,
            FilePosView::At { bol, .. } => bol,
        }
    }

    /// The byte offset of the point from the start of the file.
    pub open spec fn offset(self) -> nat {
        match self {
            FilePosView::Dummy => 0,
            FilePosView::At { offset, .. } => offset,
        }
    }

    /// The distance of the point from the beginning of its line.
    pub open spec fn column(self) -> int {
        self.offset() - self.bol()
    }

    /// A point never lies before the beginning of its own line.
    pub open spec fn wf(self) -> bool {
        self.bol() <= self.offset()
    }
}

} // verus!
