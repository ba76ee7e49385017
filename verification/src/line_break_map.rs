//! An index of the places at which the lines of a text begin, for turning
//! byte offsets into line numbers.

use vstd::prelude::*;

verus! {

/// Whether a line begins at byte `i` of `text` because a line break ends just
/// before it: a line feed, or a carriage return that no line feed follows.
pub open spec fn is_line_start(text: Seq<u8>, i: int) -> bool {
    &&& 1 <= i <= text.len()
    &&& (text[i - 1] == 0x0Au8 || (text[i - 1] == 0x0Du8 && (i == text.len() || text[i]
        != 0x0Au8)))
}

/// The number of line breaks that end at or before byte `offset`.
pub open spec fn breaks_before(text: Seq<u8>, offset: nat) -> nat
    decreases offset,
{
    if offset == 0 {
        0
    } else if is_line_start(text, offset as int) {
        breaks_before(text, (offset - 1) as nat) + 1
    } else {
        breaks_before(text, (offset - 1) as nat)
    }
}

/// The byte at which the line that holds byte `offset` begins.
pub open spec fn line_start_before(text: Seq<u8>, offset: nat) -> nat
    decreases offset,
{
    if offset == 0 {
        0
    } else if is_line_start(text, offset as int) {
        offset
    } else {
        line_start_before(text, (offset - 1) as nat)
    }
}

/// The beginning of the line that holds a byte is not after that byte.
pub proof fn lemma_line_start_le(text: Seq<u8>, offset: nat)
    ensures
        line_start_before(text, offset) <= offset,
        breaks_before(text, offset) <= offset,
    decreases offset,
{
    if offset > 0 {
        lemma_line_start_le(text, (offset - 1) as nat);
    }
}

/// The beginnings of the lines of a text, in increasing order.
pub struct LineBreakMap {
    lines: Vec<usize>,
    text: Ghost<Seq<u8>>,
}

/// Whether `lines` holds zero and then, in increasing order, exactly the
/// bytes of `text` at which a line begins after a line break.
spec fn indexes(lines: Seq<usize>, text: Seq<u8>, upto: int) -> bool {
    &&& lines.len() >= 1
    &&& lines[0] == 0
    &&& forall|i: int, j: int| 0 <= i < j < lines.len() ==> lines[i] < lines[j]
    &&& forall|j: int| 1 <= j < lines.len() ==> is_line_start(text, #[trigger] lines[j] as int)
    &&& forall|j: int| 0 <= j < lines.len() ==> #[trigger] lines[j] <= upto
    &&& forall|s: int|
        1 <= s <= upto && #[trigger] is_line_start(text, s) ==> exists|j: int|
            0 <= j < lines.len() && #[trigger] lines[j] == s
}

/// The entry of a complete index that is the last one not after `offset`
/// is the beginning of the line of `offset`, and its place in the index is
/// the number of line breaks before `offset`.
proof fn lemma_index_entry(lines: Seq<usize>, text: Seq<u8>, offset: nat, idx: int)
    requires
        indexes(lines, text, text.len() as int),
        0 <= idx < lines.len(),
        lines[idx] <= offset,
        idx + 1 < lines.len() ==> offset < lines[idx + 1],
    ensures
        breaks_before(text, offset) == idx,
        line_start_before(text, offset) == lines[idx],
    decreases offset,
{
    if offset == 0 {
        if idx > 0 {
            assert(lines[0] < lines[idx]);
        }
    } else if is_line_start(text, offset as int) {
        let j = choose|j: int| 0 <= j < lines.len() && #[trigger] lines[j] == offset;
        if j < idx {
            assert(lines[j] < lines[idx]);
        }
        if j > idx {
            if j > idx + 1 {
                assert(lines[idx + 1] < lines[j]);
            }
        }
        assert(j == idx);
        if idx == 0 {
            assert(false);
        }
        assert(lines[idx - 1] < lines[idx]);
        lemma_index_entry(lines, text, (offset - 1) as nat, idx - 1);
    } else {
        if idx >= 1 {
            assert(is_line_start(text, lines[idx] as int));
        }
        assert(lines[idx] != offset);
        lemma_index_entry(lines, text, (offset - 1) as nat, idx);
    }
}

impl LineBreakMap {
    #[verifier::type_invariant]
    spec fn inv(self) -> bool {
        indexes(self.lines@, self.text@, self.text@.len() as int)
    }

    /// The text whose lines the index holds.
    pub closed spec fn text(self) -> Seq<u8> {
        self.text@
    }

    /// The index of the lines of `text`.
    pub fn new(text: &[u8]) -> (m: LineBreakMap)
        ensures
            m.text() == text@,
    {
        let len: usize = text.len();
        let mut lines: Vec<usize> = Vec::new();
        lines.push(0);
        let mut i: usize = 0;
        while i < len
            invariant
                len == text@.len(),
                i <= len,
                indexes(lines@, text@, i as int),
            decreases len - i,
        {
            let prev: u8 = text[i];
            i += 1;
            let ghost before = lines@;
            if prev == 0x0Au8 || (prev == 0x0Du8 && (i == len || text[i] != 0x0Au8)) {
                lines.push(i);
                proof {
                    assert(is_line_start(text@, i as int));
                    assert forall|a: int, b: int| 0 <= a < b < lines@.len() implies lines@[a]
                        < lines@[b] by {
                        if b == before.len() {
                            assert(before[a] <= i - 1);
                        } else {
                            assert(before[a] < before[b]);
                        }
                    }
                    assert forall|s: int|
                        1 <= s <= i && #[trigger] is_line_start(text@, s) implies exists|j: int|
                        0 <= j < lines@.len() && #[trigger] lines@[j] == s by {
                        if s == i {
                            assert(lines@[before.len() as int] == s);
                        } else {
                            let j = choose|j: int| 0 <= j < before.len() && #[trigger] before[j] == s;
                            assert(lines@[j] == s);
                        }
                    }
                }
            } else {
                proof {
                    assert(!is_line_start(text@, i as int));
                }
            }
        }
        LineBreakMap { lines, text: Ghost(text@) }
    }

    /// The line number, counted from one, of the byte at `offset`, the byte
    /// at which that line begins, and `offset` itself.
    pub fn offset_to_file_pos_triple(&self, offset: usize) -> (r: (usize, usize, usize))
        ensures
            r.0 == breaks_before(self.text(), offset as nat) + 1,
            r.1 == line_start_before(self.text(), offset as nat),
            r.2 == offset,
            r.1 <= r.2,
    {
        proof {
            use_type_invariant(self);
        }
        let mut lo: usize = 0;
        let mut hi: usize = self.lines.len();
        while hi - lo > 1
            invariant
                0 <= lo < hi <= self.lines@.len(),
                self.lines@[lo as int] <= offset,
                hi < self.lines@.len() ==> offset < self.lines@[hi as int],
            decreases hi - lo,
        {
            let mid: usize = lo + (hi - lo) / 2;
            if self.lines[mid] <= offset {
                lo = mid;
            } else {
                hi = mid;
            }
        }
        proof {
            lemma_index_entry(self.lines@, self.text@, offset as nat, lo as int);
        }
        (lo + 1, self.lines[lo], offset)
    }
}

} // verus!
