//! The lossless syntax tree as far as the harvesting of comments reads it:
//! nodes with their place in the text, tokens with the trivia around them.

use vstd::prelude::*;
use crate::indexed_source_text::{span_at, IndexedSourceText};
use crate::pos::Pos;
use crate::source_text::{sub_of, SourceText};

verus! {

/// The kinds of text that stands around a token without being part of the
/// grammar.
#[derive(Clone, Copy, Debug, PartialEq, Eq, Structural)]
pub enum TriviaKind {
    WhiteSpace,
    EndOfLine,
    DelimitedComment,
    SingleLineComment,
    FixMe,
    IgnoreError,
    FallThrough,
    ExtraTokenError,
    AfterHaltCompiler,
}

/// One piece of trivia: its kind and the bytes of the text that it covers.
#[derive(Clone, Copy, Debug, PartialEq, Eq, Structural)]
pub struct Trivia {
    pub kind: TriviaKind,
    pub offset: usize,
    pub width: usize,
}

/// The length of the marker that opens a comment of one line at byte
/// `offset`: one for `#`, two for `//`.
pub open spec fn line_marker_len(text: Seq<u8>, offset: int) -> int {
    if 0 <= offset < text.len() && text[offset] == 0x23u8 {
        1
    } else {
        2
    }
}

impl Trivia {
    /// Whether the trivia holds at least one byte and lies within `text`.
    pub open spec fn lies_within(self, text: Seq<u8>) -> bool {
        1 <= self.width && self.offset + self.width <= text.len()
    }

    /// Whether the trivia can be read from `text`: a comment or a pragma
    /// lies within the text, and a comment is long enough to hold the
    /// delimiters of its kind. Nothing is asked of the other kinds, which
    /// are never read.
    pub open spec fn wf(self, text: Seq<u8>) -> bool {
        match self.kind {
            TriviaKind::DelimitedComment => self.lies_within(text) && 4 <= self.width,
            TriviaKind::SingleLineComment => self.lies_within(text) && line_marker_len(
                text,
                self.offset as int,
            ) <= self.width,
            TriviaKind::FixMe | TriviaKind::IgnoreError => self.lies_within(text),
            _ => true,
        }
    }

    pub fn kind(&self) -> (k: TriviaKind)
        ensures
            k == self.kind,
    {
        self.kind
    }

    pub fn width(&self) -> (w: usize)
        ensures
            w == self.width,
    {
        self.width
    }

    /// The first byte of the trivia.
    pub fn start_offset(&self) -> (r: usize)
        ensures
            r == self.offset,
    {
        self.offset
    }

    /// The last byte of the trivia.
    pub fn end_offset(&self) -> (r: usize)
        requires
            1 <= self.width,
            self.offset + self.width <= usize::MAX,
        ensures
            r == self.offset + self.width - 1,
    {
        self.offset + self.width - 1
    }

    /// The bytes of the trivia, as far as `source` holds them.
    pub fn text_raw<'a>(&self, source: &'a SourceText) -> (t: &'a [u8])
        ensures
            t@ == sub_of(source@.text, self.offset as int, self.width as int),
    {
        source.sub(self.offset, self.width)
    }

    /// Whether the trivia can be read from `text`.
    pub fn is_well_formed(&self, text: &[u8]) -> (b: bool)
        ensures
            b == self.wf(text@),
    {
        let within = self.width >= 1 && self.width <= text.len() && self.offset <= text.len()
            - self.width;
        match self.kind {
            TriviaKind::DelimitedComment => within && self.width >= 4,
            TriviaKind::SingleLineComment => within && (text[self.offset] == 0x23u8 || self.width
                >= 2),
            TriviaKind::FixMe | TriviaKind::IgnoreError => within,
            _ => true,
        }
    }
}

/// Whether some trivia of `trivia` is of kind `kind`.
pub open spec fn has_kind(trivia: Seq<Trivia>, kind: TriviaKind) -> bool {
    exists|i: int| 0 <= i < trivia.len() && (#[trigger] trivia[i]).kind == kind
}

fn list_has_kind(trivia: &Vec<Trivia>, kind: TriviaKind) -> (b: bool)
    ensures
        b == has_kind(trivia@, kind),
{
    let mut i: usize = 0;
    while i < trivia.len()
        invariant
            i <= trivia@.len(),
            forall|j: int| 0 <= j < i ==> (#[trigger] trivia@[j]).kind != kind,
        decreases trivia@.len() - i,
    {
        if trivia[i].kind == kind {
            return true;
        }
        i += 1;
    }
    false
}

/// A token: the trivia before it and the trivia after it, each in the
/// order of the text.
#[derive(Debug)]
pub struct Token {
    pub leading: Vec<Trivia>,
    pub trailing: Vec<Trivia>,
}

impl Token {
    /// Whether some trivia around the token is of kind `kind`.
    pub open spec fn spec_has_trivia_kind(&self, kind: TriviaKind) -> bool {
        has_kind(self.leading@, kind) || has_kind(self.trailing@, kind)
    }

    pub fn leading(&self) -> (t: &Vec<Trivia>)
        ensures
            t@ == self.leading@,
    {
        &self.leading
    }

    pub fn trailing(&self) -> (t: &Vec<Trivia>)
        ensures
            t@ == self.trailing@,
    {
        &self.trailing
    }

    #[verifier::when_used_as_spec(spec_has_trivia_kind)]
    pub fn has_trivia_kind(&self, kind: TriviaKind) -> (b: bool)
        ensures
            b == self.spec_has_trivia_kind(kind),
    {
        list_has_kind(&self.leading, kind) || list_has_kind(&self.trailing, kind)
    }
}

/// What a node of the tree is.
#[derive(Debug)]
pub enum SyntaxVariant {
    /// A token with its trivia.
    Token(Token),
    /// A block of statements that are executed.
    CompoundStatement,
    /// Any other construct.
    Other,
}

/// A node of the tree: what it is, the bytes of text that it covers without
/// the trivia around it, and the nodes below it in the order of the text.
#[derive(Debug)]
pub struct Syntax {
    pub syntax: SyntaxVariant,
    pub start_offset: usize,
    pub width: usize,
    pub children: Vec<Syntax>,
}

impl Syntax {
    /// Whether the text of the node lies within `text`.
    pub open spec fn lies_within(self, text: Seq<u8>) -> bool {
        self.start_offset + self.width <= text.len()
    }

    /// The byte after the last byte of the node; a node without text counts
    /// as one byte wide.
    pub open spec fn end_exclusive(self) -> int {
        if self.width == 0 {
            self.start_offset + 1
        } else {
            self.start_offset + self.width
        }
    }

    /// The position of the text of the node, without the trivia around it.
    pub fn position_exclusive(&self, source: &IndexedSourceText) -> (p: Pos)
        requires
            self.end_exclusive() <= usize::MAX,
        ensures
            p@ == span_at(
                source@.file,
                source@.text,
                self.start_offset as nat,
                self.end_exclusive() as nat,
            ),
    {
        let end: usize = if self.width == 0 {
            self.start_offset + 1
        } else {
            self.start_offset + self.width
        };
        source.relative_pos(self.start_offset, end)
    }

    /// Whether the text of the node lies within `text`.
    pub fn is_within(&self, text: &[u8]) -> (b: bool)
        ensures
            b == self.lies_within(text@),
    {
        self.width <= text.len() && self.start_offset <= text.len() - self.width
    }
}

} // verus!
