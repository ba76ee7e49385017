//! The harvest of comments and suppression pragmas: one walk over the
//! syntax tree of a file.
//!
//! The parser takes every comment for trivia. Some comments mean something
//! all the same: to the diagnostics, which honour suppression pragmas, and
//! to tools that make documentation from comments. This walk collects both.

use std::collections::BTreeSet;
use vstd::prelude::*;
use vstd::slice::slice_to_vec;
use crate::ignore_pattern::{pattern_matches, IgnorePattern};
use crate::indexed_source_text::{span_at, IndexedSourceText};
use crate::pos::{Pos, PosView};
use crate::relative_path::RelativePathView;
use crate::scoured_comments::{Comment, CommentView, ScouredComments, ScouredView};
use crate::source_text::{sub_of, SourceText};
use crate::suppression::{parse_pragma_code, pragma_code};
use crate::syntax::{
    has_kind, line_marker_len, Syntax, SyntaxVariant, Token, Trivia, TriviaKind,
};

verus! {

/// What the contracts see of the configuration of a harvest.
pub struct ScourConfig {
    /// The file that is walked.
    pub file: RelativePathView,
    /// Its text.
    pub text: Seq<u8>,
    /// Whether suppression pragmas are collected.
    pub collect_fixmes: bool,
    /// Whether comments of one line are collected.
    pub include_line_comments: bool,
    /// The source of the pattern for pragmas to pass over.
    pub ignored_fixme: Option<Seq<char>>,
    /// The codes that may be suppressed inside a block only.
    pub disallowed_decl_fixmes: Set<isize>,
}

/// The configuration of a harvest.
pub struct ScourComment<'a> {
    pub indexed_source_text: &'a IndexedSourceText,
    pub collect_fixmes: bool,
    pub incldue_line_comments: bool,
    pub ignored_fixme: Option<&'a IgnorePattern>,
    pub disallowed_decl_fixmes: &'a BTreeSet<isize>,
}

impl<'a> View for ScourComment<'a> {
    type V = ScourConfig;

    open spec fn view(&self) -> ScourConfig {
        ScourConfig {
            file: self.indexed_source_text@.file,
            text: self.indexed_source_text@.text,
            collect_fixmes: self.collect_fixmes,
            include_line_comments: self.incldue_line_comments,
            ignored_fixme: match self.ignored_fixme {
                Some(pattern) => Some(pattern@),
                None => None,
            },
            disallowed_decl_fixmes: self.disallowed_decl_fixmes@,
        }
    }
}

impl ScourConfig {
    /// The position of the bytes from `start` to `end` of the file.
    pub open spec fn pos_of_offset(self, start: int, end: int) -> PosView {
        span_at(self.file, self.text, start as nat, end as nat)
    }

    /// The position of the text of `node`.
    pub open spec fn node_pos(self, node: Syntax) -> PosView {
        self.pos_of_offset(node.start_offset as int, node.end_exclusive())
    }

    /// A comment between delimiters: its text is what stands between the
    /// two bytes that open it and the two that close it, and its position
    /// is the one byte before its last.
    pub open spec fn with_block_comment(self, t: Trivia, acc: ScouredView) -> ScouredView {
        let start = t.offset + 2;
        let end = t.offset + t.width - 1;
        acc.with_comment(
            self.pos_of_offset(end - 1, end),
            CommentView::Block(sub_of(self.text, start, end - start - 1)),
        )
    }

    /// A comment of one line: its text is what follows the marker, with a
    /// line feed at its end, and its position runs from after the marker to
    /// the last byte.
    pub open spec fn with_line_comment(self, t: Trivia, acc: ScouredView) -> ScouredView {
        let start = t.offset + line_marker_len(self.text, t.offset as int);
        let end = t.offset + t.width - 1;
        acc.with_comment(
            self.pos_of_offset(start, end),
            CommentView::Line(sub_of(self.text, start, end - start + 1).push(0x0Au8)),
        )
    }

    /// Whether the pattern for pragmas to pass over matches the text of `t`.
    pub open spec fn ignores(self, t: Trivia) -> bool {
        match self.ignored_fixme {
            None => false,
            Some(pattern) => pattern_matches(
                pattern,
                sub_of(self.text, t.offset as int, t.width as int),
            ),
        }
    }

    /// A suppression pragma that stands by `node`. One that is passed over
    /// leaves no trace. One that names no code is a format error at the
    /// position of the node. Any other is recorded for the line on which the
    /// node starts, at its own position: as a misuse where it stands outside
    /// every block and its code may be suppressed inside a block only, and as
    /// a suppression everywhere else.
    pub open spec fn with_pragma(
        self,
        in_block: bool,
        node: Syntax,
        t: Trivia,
        ignored: bool,
        acc: ScouredView,
    ) -> ScouredView {
        if ignored {
            acc
        } else {
            let pos = self.node_pos(node);
            let line = pos.start.line() as isize;
            let p = self.pos_of_offset(t.offset as int, t.offset + t.width - 1);
            match pragma_code(sub_of(self.text, t.offset as int, t.width as int)) {
                Some(code) => {
                    if !in_block && self.disallowed_decl_fixmes.contains(code) {
                        acc.with_misuse(line, code, p)
                    } else {
                        acc.with_fixme(line, code, p)
                    }
                },
                None => acc.with_format_error(pos),
            }
        }
    }

    /// Whether trivia of kind `kind` are read: comments between delimiters
    /// always, comments of one line and pragmas where they are collected.
    pub open spec fn reads(self, kind: TriviaKind) -> bool {
        match kind {
            TriviaKind::DelimitedComment => true,
            TriviaKind::SingleLineComment => self.include_line_comments,
            TriviaKind::FixMe | TriviaKind::IgnoreError => self.collect_fixmes,
            _ => false,
        }
    }

    /// Whether pragmas are read from `trivia`.
    pub open spec fn reads_pragmas(self, trivia: Seq<Trivia>) -> bool {
        self.collect_fixmes && (has_kind(trivia, TriviaKind::FixMe) || has_kind(
            trivia,
            TriviaKind::IgnoreError,
        ))
    }

    /// Whether the trivia `t` may be walked: where it is read, it can be
    /// read from the text.
    pub open spec fn accepts_trivia(self, t: Trivia) -> bool {
        self.reads(t.kind) ==> t.wf(self.text)
    }

    /// Whether every trivia of `trivia` may be walked.
    pub open spec fn accepts_all(self, trivia: Seq<Trivia>) -> bool {
        forall|i: int| 0 <= i < trivia.len() ==> self.accepts_trivia(#[trigger] trivia[i])
    }

    /// Whether a pragma by `node` can be recorded: the text of the node lies
    /// within the text of the file, and the line numbers of the file fit a
    /// signed machine word.
    pub open spec fn can_place(self, node: Syntax) -> bool {
        node.lies_within(self.text) && self.text.len() < isize::MAX
    }

    /// Whether the tree below `node` may be walked. A token has no nodes
    /// below it; what is read of its trivia can be read from the text; and
    /// where a pragma is read from them, a pragma by the token can be
    /// recorded. Nothing is asked of what the walk never reads.
    pub open spec fn accepts(self, node: Syntax) -> bool
        decreases node,
    {
        &&& node.syntax matches SyntaxVariant::Token(token) ==> {
            &&& node.children@.len() == 0
            &&& self.accepts_all(token.leading@)
            &&& self.accepts_all(token.trailing@)
            &&& self.reads_pragmas(token.leading@) || self.reads_pragmas(token.trailing@)
                ==> self.can_place(node)
        }
        &&& forall|i: int|
            0 <= i < node.children@.len() ==> self.accepts(#[trigger] node.children@[i])
    }

    /// What one piece of trivia adds to the harvest.
    pub open spec fn on_trivia(
        self,
        in_block: bool,
        node: Syntax,
        t: Trivia,
        acc: ScouredView,
    ) -> ScouredView {
        match t.kind {
            TriviaKind::DelimitedComment => self.with_block_comment(t, acc),
            TriviaKind::SingleLineComment => {
                if self.include_line_comments {
                    self.with_line_comment(t, acc)
                } else {
                    acc
                }
            },
            TriviaKind::FixMe | TriviaKind::IgnoreError => {
                if self.collect_fixmes {
                    self.with_pragma(in_block, node, t, self.ignores(t), acc)
                } else {
                    acc
                }
            },
            _ => acc,
        }
    }

    /// What the first `k` pieces of `trivia` add to the harvest, in order.
    pub open spec fn on_trivia_list(
        self,
        in_block: bool,
        node: Syntax,
        trivia: Seq<Trivia>,
        k: nat,
        acc: ScouredView,
    ) -> ScouredView
        decreases k,
    {
        if k == 0 || k > trivia.len() {
            acc
        } else {
            self.on_trivia(
                in_block,
                node,
                trivia[k - 1],
                self.on_trivia_list(in_block, node, trivia, (k - 1) as nat, acc),
            )
        }
    }

    /// Whether some trivia of `token` is of a kind that is collected.
    pub open spec fn collects_from(self, token: Token) -> bool {
        ||| token.has_trivia_kind(TriviaKind::DelimitedComment)
        ||| (self.include_line_comments && token.has_trivia_kind(TriviaKind::SingleLineComment))
        ||| (self.collect_fixmes && (token.has_trivia_kind(TriviaKind::FixMe)
            || token.has_trivia_kind(TriviaKind::IgnoreError)))
    }

    /// What `node` and the nodes below it add to the harvest. A token with
    /// trivia of a kind that is collected adds what its trivia add, the
    /// leading before the trailing. Every other node adds what the nodes
    /// below it add; below a block of statements, these count as inside a
    /// block.
    pub open spec fn scour_node(self, node: Syntax, in_block: bool, acc: ScouredView) -> ScouredView
        decreases node, 0nat,
    {
        match node.syntax {
            SyntaxVariant::CompoundStatement => self.scour_children(
                node.children@,
                node.children@.len(),
                true,
                acc,
            ),
            SyntaxVariant::Token(token) => {
                if self.collects_from(token) {
                    self.on_trivia_list(
                        in_block,
                        node,
                        token.trailing@,
                        token.trailing@.len(),
                        self.on_trivia_list(
                            in_block,
                            node,
                            token.leading@,
                            token.leading@.len(),
                            acc,
                        ),
                    )
                } else {
                    self.scour_children(node.children@, node.children@.len(), in_block, acc)
                }
            },
            SyntaxVariant::Other => self.scour_children(
                node.children@,
                node.children@.len(),
                in_block,
                acc,
            ),
        }
    }

    /// What the first `k` of `children` add to the harvest, in order.
    pub open spec fn scour_children(
        self,
        children: Seq<Syntax>,
        k: nat,
        in_block: bool,
        acc: ScouredView,
    ) -> ScouredView
        decreases children, k,
    {
        if k == 0 || k > children.len() {
            acc
        } else {
            self.scour_node(
                children[k - 1],
                in_block,
                self.scour_children(children, (k - 1) as nat, in_block, acc),
            )
        }
    }

    /// The harvest of the tree below `node`.
    pub open spec fn scour(self, node: Syntax) -> ScouredView {
        self.scour_node(node, false, ScouredView::empty())
    }
}

impl<'a> ScourComment<'a> {
    /// What a harvest may be asked for: a tree of which nothing is read that
    /// the text does not hold.
    pub open spec fn accepts(&self, node: Syntax) -> bool {
        self@.accepts(node)
    }

    /// The comments and suppression pragmas of the tree below `node`, the
    /// comments in the order of the text.
    pub fn scour_comments(&self, node: &Syntax) -> (r: ScouredComments)
        requires
            self.accepts(*node),
        ensures
            r@ == self@.scour(*node),
    {
        self.scour_comments_(node, false, ScouredComments::new())
    }

    /// The harvest of the tree below `node`, unless something would be read
    /// of the tree that the text does not hold.
    pub fn try_scour_comments(&self, node: &Syntax) -> (r: Option<ScouredComments>)
        ensures
            r is Some <==> self.accepts(*node),
            r matches Some(found) ==> found@ == self@.scour(*node),
    {
        if self.can_scour(node) {
            Some(self.scour_comments(node))
        } else {
            None
        }
    }

    fn reads(&self, kind: TriviaKind) -> (b: bool)
        ensures
            b == self@.reads(kind),
    {
        match kind {
            TriviaKind::DelimitedComment => true,
            TriviaKind::SingleLineComment => self.incldue_line_comments,
            TriviaKind::FixMe | TriviaKind::IgnoreError => self.collect_fixmes,
            _ => false,
        }
    }

    fn can_walk(&self, trivia: &Vec<Trivia>) -> (b: bool)
        ensures
            b == self@.accepts_all(trivia@),
    {
        let text = self.source_text().text();
        let mut i: usize = 0;
        while i < trivia.len()
            invariant
                i <= trivia@.len(),
                text@ == self@.text,
                forall|j: int| 0 <= j < i ==> self@.accepts_trivia(#[trigger] trivia@[j]),
            decreases trivia@.len() - i,
        {
            if self.reads(trivia[i].kind()) && !trivia[i].is_well_formed(text) {
                return false;
            }
            i += 1;
        }
        true
    }

    /// Whether `scour_comments` may be asked for the tree below `node`.
    pub fn can_scour(&self, node: &Syntax) -> (b: bool)
        ensures
            b == self.accepts(*node),
        decreases *node,
    {
        match &node.syntax {
            SyntaxVariant::Token(t) => {
                if node.children.len() != 0 || !self.can_walk(t.leading()) || !self.can_walk(
                    t.trailing(),
                ) {
                    return false;
                }
                if self.collect_fixmes && (t.has_trivia_kind(TriviaKind::FixMe)
                    || t.has_trivia_kind(TriviaKind::IgnoreError)) {
                    let text = self.source_text().text();
                    if !node.is_within(text) || text.len() >= isize::MAX as usize {
                        return false;
                    }
                }
            },
            _ => {},
        }
        let mut i: usize = 0;
        while i < node.children.len()
            invariant
                i <= node.children@.len(),
                forall|j: int| 0 <= j < i ==> self@.accepts(#[trigger] node.children@[j]),
            decreases node.children@.len() - i,
        {
            if !self.can_scour(&node.children[i]) {
                return false;
            }
            i += 1;
        }
        true
    }

    fn scour_comments_(&self, node: &Syntax, in_block: bool, acc: ScouredComments) -> (r:
        ScouredComments)
        requires
            self.accepts(*node),
        ensures
            r@ == self@.scour_node(*node, in_block, acc@),
        decreases *node, 1nat,
    {
        match &node.syntax {
            SyntaxVariant::CompoundStatement => self.on_children(node, true, acc),
            SyntaxVariant::Token(t) => {
                if t.has_trivia_kind(TriviaKind::DelimitedComment) || (self.incldue_line_comments
                    && t.has_trivia_kind(TriviaKind::SingleLineComment)) || (self.collect_fixmes
                    && (t.has_trivia_kind(TriviaKind::FixMe) || t.has_trivia_kind(
                    TriviaKind::IgnoreError,
                ))) {
                    let acc = self.on_trivia_list(in_block, node, t.leading(), acc);
                    self.on_trivia_list(in_block, node, t.trailing(), acc)
                } else {
                    self.on_children(node, in_block, acc)
                }
            },
            SyntaxVariant::Other => self.on_children(node, in_block, acc),
        }
    }

    fn on_children(&self, node: &Syntax, in_block: bool, acc: ScouredComments) -> (r:
        ScouredComments)
        requires
            self.accepts(*node),
        ensures
            r@ == self@.scour_children(node.children@, node.children@.len(), in_block, acc@),
        decreases *node, 0nat,
    {
        let ghost before = acc@;
        let mut acc = acc;
        let mut i: usize = 0;
        while i < node.children.len()
            invariant
                i <= node.children@.len(),
                self.accepts(*node),
                acc@ == self@.scour_children(node.children@, i as nat, in_block, before),
            decreases node.children@.len() - i,
        {
            acc = self.scour_comments_(&node.children[i], in_block, acc);
            i += 1;
        }
        acc
    }

    fn on_trivia_list(
        &self,
        in_block: bool,
        node: &Syntax,
        trivia: &Vec<Trivia>,
        acc: ScouredComments,
    ) -> (r: ScouredComments)
        requires
            self@.accepts_all(trivia@),
            self@.reads_pragmas(trivia@) ==> self@.can_place(*node),
        ensures
            r@ == self@.on_trivia_list(in_block, *node, trivia@, trivia@.len(), acc@),
    {
        let ghost before = acc@;
        let mut acc = acc;
        let mut i: usize = 0;
        while i < trivia.len()
            invariant
                i <= trivia@.len(),
                self@.accepts_all(trivia@),
                self@.reads_pragmas(trivia@) ==> self@.can_place(*node),
                acc@ == self@.on_trivia_list(in_block, *node, trivia@, i as nat, before),
            decreases trivia@.len() - i,
        {
            acc = self.on_trivia(in_block, node, &trivia[i], acc);
            i += 1;
        }
        acc
    }

    /// Adds to `acc` what the trivia `t` of the token `node` yields.
    pub fn on_trivia(&self, in_block: bool, node: &Syntax, t: &Trivia, acc: ScouredComments) -> (r:
        ScouredComments)
        requires
            self@.accepts_trivia(*t),
            self.collect_fixmes && (t.kind == TriviaKind::FixMe || t.kind
                == TriviaKind::IgnoreError) ==> self@.can_place(*node),
        ensures
            r@ == self@.on_trivia(in_block, *node, *t, acc@),
    {
        let mut acc = acc;
        let source = self.source_text();
        match t.kind() {
            TriviaKind::WhiteSpace
            | TriviaKind::EndOfLine
            | TriviaKind::FallThrough
            | TriviaKind::ExtraTokenError
            | TriviaKind::AfterHaltCompiler => acc,
            TriviaKind::DelimitedComment => {
                let start: usize = t.start_offset() + 2;
                let end: usize = t.end_offset();
                let len: usize = end - start - 1;
                let p = self.pos_of_offset(end - 1, end);
                let text = slice_to_vec(source.sub(start, len));
                acc.add_comment(p, Comment::CmtBlock(text));
                acc
            },
            TriviaKind::SingleLineComment => {
                if !self.incldue_line_comments {
                    acc
                } else {
                    let text = source.text();
                    let start: usize = t.start_offset();
                    let marker: usize = if text[start] == 0x23u8 {
                        1
                    } else {
                        2
                    };
                    let start: usize = start + marker;
                    let end: usize = t.end_offset();
                    let len: usize = t.width() - marker;
                    let p = self.pos_of_offset(start, end);
                    let mut text = slice_to_vec(source.sub(start, len));
                    text.push(0x0Au8);
                    acc.add_comment(p, Comment::CmtLine(text));
                    acc
                }
            },
            TriviaKind::FixMe | TriviaKind::IgnoreError => {
                if !self.collect_fixmes {
                    acc
                } else {
                    let text = t.text_raw(source);
                    let ignore_fixme = match self.ignored_fixme {
                        None => false,
                        Some(r) => r.is_match(text),
                    };
                    self.on_pragma(in_block, node, t, ignore_fixme, acc)
                }
            },
        }
    }

    /// Adds to `acc` what the suppression pragma `t` by `node` yields, where
    /// `ignored` says whether the pattern for pragmas to pass over matches it.
    pub fn on_pragma(
        &self,
        in_block: bool,
        node: &Syntax,
        t: &Trivia,
        ignored: bool,
        acc: ScouredComments,
    ) -> (r: ScouredComments)
        requires
            t.lies_within(self@.text),
            self@.can_place(*node),
        ensures
            r@ == self@.with_pragma(in_block, *node, *t, ignored, acc@),
    {
        let mut acc = acc;
        if ignored {
            acc
        } else {
            let text = t.text_raw(self.source_text());
            let pos = self.p_pos(node);
            proof {
                crate::line_break_map::lemma_line_start_le(self@.text, node.start_offset as nat);
            }
            let line: isize = pos.line() as isize;
            let p = self.pos_of_offset(t.start_offset(), t.end_offset());
            match parse_pragma_code(text) {
                Some(code) => {
                    if !in_block && self.is_disallowed(code) {
                        acc.add_to_misuses(line, code, p);
                        acc
                    } else {
                        acc.add_to_fixmes(line, code, p);
                        acc
                    }
                },
                None => {
                    acc.add_format_error(pos);
                    acc
                },
            }
        }
    }

    /// Whether `code` may be suppressed inside a block only.
    fn is_disallowed(&self, code: isize) -> (b: bool)
        ensures
            b == self@.disallowed_decl_fixmes.contains(code),
    {
        broadcast use vstd::std_specs::btree::group_btree_axioms;
        broadcast use vstd::laws_cmp::group_laws_cmp;

        self.disallowed_decl_fixmes.contains(&code)
    }

    fn source_text(&self) -> (s: &SourceText)
        ensures
            s@ == self.indexed_source_text@,
            s@.text.len() <= usize::MAX,
    {
        let s = self.indexed_source_text.source_text();
        proof {
            s.lemma_length_fits();
        }
        s
    }

    fn p_pos(&self, node: &Syntax) -> (p: Pos)
        requires
            self@.can_place(*node),
        ensures
            p@ == self@.node_pos(*node),
    {
        node.position_exclusive(self.indexed_source_text)
    }

    fn pos_of_offset(&self, start: usize, end: usize) -> (p: Pos)
        ensures
            p@ == self@.pos_of_offset(start as int, end as int),
    {
        self.indexed_source_text.relative_pos(start, end)
    }
}

/// A harvest is a function of the tree and the configuration: whatever two
/// runs on the same tree with the same configuration return, the two
/// outcomes are the same.
pub proof fn lemma_scour_is_deterministic(
    pass: ScourComment,
    node: Syntax,
    first: ScouredComments,
    second: ScouredComments,
)
    requires
        pass.accepts(node),
        call_ensures(ScourComment::scour_comments, (&pass, &node), first),
        call_ensures(ScourComment::scour_comments, (&pass, &node), second),
    ensures
        first@ == second@,
{
}

/// A comment between delimiters that lies within the text yields exactly
/// one comment: its text is the comment without its first two and its last
/// two bytes, and its position is one byte wide and ends at the last byte of
/// the comment.
pub proof fn lemma_block_comment(cfg: ScourConfig, t: Trivia, acc: ScouredView)
    requires
        t.wf(cfg.text),
        t.kind == TriviaKind::DelimitedComment,
    ensures
        ({
            let last = t.offset + t.width - 1;
            cfg.with_block_comment(t, acc).comments == acc.comments.push(
                (
                    cfg.pos_of_offset(last - 1, last),
                    CommentView::Block(cfg.text.subrange(t.offset + 2, last - 1)),
                ),
            )
        }),
        ({
            let after = cfg.with_block_comment(t, acc);
            &&& after.fixmes == acc.fixmes
            &&& after.misuses == acc.misuses
            &&& after.error_pos == acc.error_pos
        }),
{
    let last = t.offset + t.width - 1;
    if t.width == 4 {
        assert(sub_of(cfg.text, t.offset + 2, 0) =~= cfg.text.subrange(t.offset + 2, last - 1));
    }
}

/// A comment of one line that lies within the text yields, where such
/// comments are collected, exactly one comment: its text is the comment
/// without its marker and with a line feed at its end, and its position
/// runs from after the marker to the last byte of the comment.
pub proof fn lemma_line_comment(cfg: ScourConfig, t: Trivia, acc: ScouredView)
    requires
        t.wf(cfg.text),
        t.kind == TriviaKind::SingleLineComment,
    ensures
        ({
            let start = t.offset + line_marker_len(cfg.text, t.offset as int);
            cfg.with_line_comment(t, acc).comments == acc.comments.push(
                (
                    cfg.pos_of_offset(start, t.offset + t.width - 1),
                    CommentView::Line(
                        cfg.text.subrange(start, t.offset + t.width).push(0x0Au8),
                    ),
                ),
            )
        }),
        ({
            let after = cfg.with_line_comment(t, acc);
            &&& after.fixmes == acc.fixmes
            &&& after.misuses == acc.misuses
            &&& after.error_pos == acc.error_pos
        }),
{
    let start = t.offset + line_marker_len(cfg.text, t.offset as int);
    let end = t.offset + t.width;
    if start == end {
        assert(sub_of(cfg.text, start, 0) =~= cfg.text.subrange(start, end));
    }
}

/// A pragma inside a block is never a misuse, and one outside every block
/// is a misuse exactly where its code may be suppressed inside a block only.
/// Either way the pragma is recorded once, for the line on which the node
/// starts, and no format error is recorded.
pub proof fn lemma_pragma_with_code(
    cfg: ScourConfig,
    in_block: bool,
    node: Syntax,
    t: Trivia,
    acc: ScouredView,
    code: isize,
)
    requires
        pragma_code(sub_of(cfg.text, t.offset as int, t.width as int)) == Some(code),
    ensures
        ({
            let after = cfg.with_pragma(in_block, node, t, false, acc);
            let line = cfg.node_pos(node).start.line() as isize;
            let p = cfg.pos_of_offset(t.offset as int, t.offset + t.width - 1);
            let misuse = !in_block && cfg.disallowed_decl_fixmes.contains(code);
            &&& after.comments == acc.comments
            &&& after.error_pos == acc.error_pos
            &&& misuse ==> after.fixmes == acc.fixmes && after.misuses.contains_key(line)
                && after.misuses[line].contains_key(code) && after.misuses[line][code] == p
            &&& !misuse ==> after.misuses == acc.misuses && after.fixme_at(line, code) == Some(p)
        }),
{
}

/// A pragma that names no code is recorded as one format error at the
/// position of the node, and neither as a suppression nor as a misuse.
pub proof fn lemma_pragma_without_code(
    cfg: ScourConfig,
    in_block: bool,
    node: Syntax,
    t: Trivia,
    acc: ScouredView,
)
    requires
        pragma_code(sub_of(cfg.text, t.offset as int, t.width as int)) is None,
    ensures
        ({
            let after = cfg.with_pragma(in_block, node, t, false, acc);
            &&& after.error_pos == acc.error_pos.push(cfg.node_pos(node))
            &&& after.fixmes == acc.fixmes
            &&& after.misuses == acc.misuses
            &&& after.comments == acc.comments
        }),
{
}

/// A harvest that collects no pragmas records none: neither suppressions
/// nor misuses nor format errors.
pub proof fn lemma_no_pragmas_unless_collected(
    cfg: ScourConfig,
    node: Syntax,
    in_block: bool,
    acc: ScouredView,
)
    requires
        !cfg.collect_fixmes,
    ensures
        cfg.scour_node(node, in_block, acc).fixmes == acc.fixmes,
        cfg.scour_node(node, in_block, acc).misuses == acc.misuses,
        cfg.scour_node(node, in_block, acc).error_pos == acc.error_pos,
    decreases node, 0nat,
{
    match node.syntax {
        SyntaxVariant::CompoundStatement => {
            lemma_no_pragmas_below(cfg, node.children@, node.children@.len(), true, acc);
        },
        SyntaxVariant::Token(token) => {
            if cfg.collects_from(token) {
                let mid = cfg.on_trivia_list(
                    in_block,
                    node,
                    token.leading@,
                    token.leading@.len(),
                    acc,
                );
                lemma_no_pragmas_in_trivia(
                    cfg,
                    in_block,
                    node,
                    token.leading@,
                    token.leading@.len(),
                    acc,
                );
                lemma_no_pragmas_in_trivia(
                    cfg,
                    in_block,
                    node,
                    token.trailing@,
                    token.trailing@.len(),
                    mid,
                );
            } else {
                lemma_no_pragmas_below(cfg, node.children@, node.children@.len(), in_block, acc);
            }
        },
        SyntaxVariant::Other => {
            lemma_no_pragmas_below(cfg, node.children@, node.children@.len(), in_block, acc);
        },
    }
}

proof fn lemma_no_pragmas_below(
    cfg: ScourConfig,
    children: Seq<Syntax>,
    k: nat,
    in_block: bool,
    acc: ScouredView,
)
    requires
        !cfg.collect_fixmes,
    ensures
        cfg.scour_children(children, k, in_block, acc).fixmes == acc.fixmes,
        cfg.scour_children(children, k, in_block, acc).misuses == acc.misuses,
        cfg.scour_children(children, k, in_block, acc).error_pos == acc.error_pos,
    decreases children, k,
{
    if k == 0 || k > children.len() {
    } else {
        lemma_no_pragmas_below(cfg, children, (k - 1) as nat, in_block, acc);
        lemma_no_pragmas_unless_collected(
            cfg,
            children[k - 1],
            in_block,
            cfg.scour_children(children, (k - 1) as nat, in_block, acc),
        );
    }
}

proof fn lemma_no_pragmas_in_trivia(
    cfg: ScourConfig,
    in_block: bool,
    node: Syntax,
    trivia: Seq<Trivia>,
    k: nat,
    acc: ScouredView,
)
    requires
        !cfg.collect_fixmes,
    ensures
        cfg.on_trivia_list(in_block, node, trivia, k, acc).fixmes == acc.fixmes,
        cfg.on_trivia_list(in_block, node, trivia, k, acc).misuses == acc.misuses,
        cfg.on_trivia_list(in_block, node, trivia, k, acc).error_pos == acc.error_pos,
    decreases k,
{
    if k == 0 || k > trivia.len() {
    } else {
        lemma_no_pragmas_in_trivia(cfg, in_block, node, trivia, (k - 1) as nat, acc);
    }
}

/// Whether `earlier` is the start of `later`.
pub open spec fn starts<A>(earlier: Seq<A>, later: Seq<A>) -> bool {
    earlier.len() <= later.len() && later.subrange(0, earlier.len() as int) == earlier
}

/// Comments are only ever added at the end: what was collected before a
/// node is walked stands, in its order, before everything that the node and
/// the nodes below it add. So the comments come in the order of the walk.
pub proof fn lemma_comments_keep_their_order(
    cfg: ScourConfig,
    node: Syntax,
    in_block: bool,
    acc: ScouredView,
)
    ensures
        starts(acc.comments, cfg.scour_node(node, in_block, acc).comments),
    decreases node, 0nat,
{
    match node.syntax {
        SyntaxVariant::CompoundStatement => {
            lemma_comments_below_keep_their_order(
                cfg,
                node.children@,
                node.children@.len(),
                true,
                acc,
            );
        },
        SyntaxVariant::Token(token) => {
            if cfg.collects_from(token) {
                let mid = cfg.on_trivia_list(
                    in_block,
                    node,
                    token.leading@,
                    token.leading@.len(),
                    acc,
                );
                let end = cfg.on_trivia_list(
                    in_block,
                    node,
                    token.trailing@,
                    token.trailing@.len(),
                    mid,
                );
                lemma_trivia_keep_the_order(
                    cfg,
                    in_block,
                    node,
                    token.leading@,
                    token.leading@.len(),
                    acc,
                );
                lemma_trivia_keep_the_order(
                    cfg,
                    in_block,
                    node,
                    token.trailing@,
                    token.trailing@.len(),
                    mid,
                );
                lemma_starts_transitive(acc.comments, mid.comments, end.comments);
            } else {
                lemma_comments_below_keep_their_order(
                    cfg,
                    node.children@,
                    node.children@.len(),
                    in_block,
                    acc,
                );
            }
        },
        SyntaxVariant::Other => {
            lemma_comments_below_keep_their_order(
                cfg,
                node.children@,
                node.children@.len(),
                in_block,
                acc,
            );
        },
    }
}

proof fn lemma_starts_transitive<A>(a: Seq<A>, b: Seq<A>, c: Seq<A>)
    requires
        starts(a, b),
        starts(b, c),
    ensures
        starts(a, c),
{
    assert(c.subrange(0, a.len() as int) =~= c.subrange(0, b.len() as int).subrange(
        0,
        a.len() as int,
    ));
}

proof fn lemma_comments_below_keep_their_order(
    cfg: ScourConfig,
    children: Seq<Syntax>,
    k: nat,
    in_block: bool,
    acc: ScouredView,
)
    ensures
        starts(acc.comments, cfg.scour_children(children, k, in_block, acc).comments),
    decreases children, k,
{
    if k == 0 || k > children.len() {
        assert(acc.comments.subrange(0, acc.comments.len() as int) =~= acc.comments);
    } else {
        let before = cfg.scour_children(children, (k - 1) as nat, in_block, acc);
        lemma_comments_below_keep_their_order(cfg, children, (k - 1) as nat, in_block, acc);
        lemma_comments_keep_their_order(cfg, children[k - 1], in_block, before);
        lemma_starts_transitive(
            acc.comments,
            before.comments,
            cfg.scour_node(children[k - 1], in_block, before).comments,
        );
    }
}

proof fn lemma_trivia_keep_the_order(
    cfg: ScourConfig,
    in_block: bool,
    node: Syntax,
    trivia: Seq<Trivia>,
    k: nat,
    acc: ScouredView,
)
    ensures
        starts(acc.comments, cfg.on_trivia_list(in_block, node, trivia, k, acc).comments),
    decreases k,
{
    if k == 0 || k > trivia.len() {
        assert(acc.comments.subrange(0, acc.comments.len() as int) =~= acc.comments);
    } else {
        let before = cfg.on_trivia_list(in_block, node, trivia, (k - 1) as nat, acc);
        lemma_trivia_keep_the_order(cfg, in_block, node, trivia, (k - 1) as nat, acc);
        let after = cfg.on_trivia(in_block, node, trivia[k - 1], before);
        assert(starts(before.comments, after.comments)) by {
            assert(before.comments.subrange(0, before.comments.len() as int)
                =~= before.comments);
            if after.comments.len() > before.comments.len() {
                assert(after.comments.subrange(0, before.comments.len() as int)
                    =~= before.comments);
            }
        }
        lemma_starts_transitive(acc.comments, before.comments, after.comments);
    }
}

} // verus!
