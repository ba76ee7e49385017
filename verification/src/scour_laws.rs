//! What holds of a harvest over the whole of a tree, whatever its shape:
//! the walk is a sequence of steps, one for each piece of trivia of the
//! tokens that it collects from, and the harvest is what these steps add one
//! after the other.

use vstd::prelude::*;
use crate::scour_comment::ScourConfig;
use crate::scoured_comments::{with_record, CommentView, ScouredView};
use crate::source_text::sub_of;
use crate::suppression::pragma_code;
use crate::syntax::{line_marker_len, Syntax, SyntaxVariant, Trivia, TriviaKind};

verus! {

/// One step of the walk: a piece of trivia, the token that carries it, and
/// whether that token stands inside a block.
pub struct Step {
    pub in_block: bool,
    pub node: Syntax,
    pub trivia: Trivia,
}

/// The steps for the first `k` pieces of the trivia `trivia` of the token
/// `node`, in order.
pub open spec fn trivia_steps(in_block: bool, node: Syntax, trivia: Seq<Trivia>, k: nat) -> Seq<
    Step,
> {
    Seq::new(k, |i: int| Step { in_block, node, trivia: trivia[i] })
}

impl ScourConfig {
    /// The steps of the walk of the tree below `node`, in order.
    pub open spec fn steps(self, node: Syntax, in_block: bool) -> Seq<Step>
        decreases node, 0nat,
    {
        match node.syntax {
            SyntaxVariant::CompoundStatement => self.steps_below(
                node.children@,
                node.children@.len(),
                true,
            ),
            SyntaxVariant::Token(token) => {
                if self.collects_from(token) {
                    trivia_steps(in_block, node, token.leading@, token.leading@.len())
                        + trivia_steps(in_block, node, token.trailing@, token.trailing@.len())
                } else {
                    self.steps_below(node.children@, node.children@.len(), in_block)
                }
            },
            SyntaxVariant::Other => self.steps_below(
                node.children@,
                node.children@.len(),
                in_block,
            ),
        }
    }

    /// The steps of the walk of the first `k` of `children`, in order.
    pub open spec fn steps_below(self, children: Seq<Syntax>, k: nat, in_block: bool) -> Seq<Step>
        decreases children, k,
    {
        if k == 0 || k > children.len() {
            Seq::empty()
        } else {
            self.steps_below(children, (k - 1) as nat, in_block) + self.steps(
                children[k - 1],
                in_block,
            )
        }
    }

    /// What one step adds to the harvest.
    pub open spec fn after_step(self, step: Step, acc: ScouredView) -> ScouredView {
        self.on_trivia(step.in_block, step.node, step.trivia, acc)
    }

    /// What `steps` add to the harvest, one after the other.
    pub open spec fn replay(self, steps: Seq<Step>, acc: ScouredView) -> ScouredView
        decreases steps.len(),
    {
        if steps.len() == 0 {
            acc
        } else {
            self.after_step(steps.last(), self.replay(steps.drop_last(), acc))
        }
    }

    /// Whether the step at `i` is the only one of `steps` whose trivia is
    /// read.
    pub open spec fn only_read_at(self, steps: Seq<Step>, i: int) -> bool {
        &&& 0 <= i < steps.len()
        &&& forall|j: int| 0 <= j < steps.len() && j != i ==> !self.reads((#[trigger] steps[j]).trivia.kind)
    }
}

/// Whether a block of statements stands at `node` or below it.
pub open spec fn holds_block(node: Syntax) -> bool
    decreases node,
{
    node.syntax is CompoundStatement || exists|i: int|
        0 <= i < node.children@.len() && holds_block(#[trigger] node.children@[i])
}

proof fn lemma_replay_concat(cfg: ScourConfig, a: Seq<Step>, b: Seq<Step>, acc: ScouredView)
    ensures
        cfg.replay(a + b, acc) == cfg.replay(b, cfg.replay(a, acc)),
    decreases b.len(),
{
    if b.len() == 0 {
        assert(a + b =~= a);
    } else {
        assert((a + b).drop_last() =~= a + b.drop_last());
        assert((a + b).last() == b.last());
        lemma_replay_concat(cfg, a, b.drop_last(), acc);
    }
}

proof fn lemma_trivia_replay(
    cfg: ScourConfig,
    in_block: bool,
    node: Syntax,
    trivia: Seq<Trivia>,
    k: nat,
    acc: ScouredView,
)
    requires
        k <= trivia.len(),
    ensures
        cfg.on_trivia_list(in_block, node, trivia, k, acc) == cfg.replay(
            trivia_steps(in_block, node, trivia, k),
            acc,
        ),
    decreases k,
{
    if k > 0 {
        let steps = trivia_steps(in_block, node, trivia, k);
        assert(steps.drop_last() =~= trivia_steps(in_block, node, trivia, (k - 1) as nat));
        assert(steps.last() == Step { in_block, node, trivia: trivia[k - 1] });
        lemma_trivia_replay(cfg, in_block, node, trivia, (k - 1) as nat, acc);
    }
}

/// The harvest of a tree is what the steps of its walk add, one after the
/// other.
pub proof fn lemma_harvest_is_replay(
    cfg: ScourConfig,
    node: Syntax,
    in_block: bool,
    acc: ScouredView,
)
    ensures
        cfg.scour_node(node, in_block, acc) == cfg.replay(cfg.steps(node, in_block), acc),
    decreases node, 0nat,
{
    match node.syntax {
        SyntaxVariant::CompoundStatement => {
            lemma_children_replay(cfg, node.children@, node.children@.len(), true, acc);
        },
        SyntaxVariant::Token(token) => {
            if cfg.collects_from(token) {
                let leading = trivia_steps(in_block, node, token.leading@, token.leading@.len());
                let trailing = trivia_steps(
                    in_block,
                    node,
                    token.trailing@,
                    token.trailing@.len(),
                );
                lemma_trivia_replay(
                    cfg,
                    in_block,
                    node,
                    token.leading@,
                    token.leading@.len(),
                    acc,
                );
                lemma_trivia_replay(
                    cfg,
                    in_block,
                    node,
                    token.trailing@,
                    token.trailing@.len(),
                    cfg.replay(leading, acc),
                );
                lemma_replay_concat(cfg, leading, trailing, acc);
            } else {
                lemma_children_replay(cfg, node.children@, node.children@.len(), in_block, acc);
            }
        },
        SyntaxVariant::Other => {
            lemma_children_replay(cfg, node.children@, node.children@.len(), in_block, acc);
        },
    }
}

proof fn lemma_children_replay(
    cfg: ScourConfig,
    children: Seq<Syntax>,
    k: nat,
    in_block: bool,
    acc: ScouredView,
)
    ensures
        cfg.scour_children(children, k, in_block, acc) == cfg.replay(
            cfg.steps_below(children, k, in_block),
            acc,
        ),
    decreases children, k,
{
    if k == 0 || k > children.len() {
    } else {
        let before = cfg.steps_below(children, (k - 1) as nat, in_block);
        lemma_children_replay(cfg, children, (k - 1) as nat, in_block, acc);
        lemma_harvest_is_replay(cfg, children[k - 1], in_block, cfg.replay(before, acc));
        lemma_replay_concat(cfg, before, cfg.steps(children[k - 1], in_block), acc);
    }
}

/// Steps whose trivia are not read add nothing.
pub proof fn lemma_unread_steps_add_nothing(cfg: ScourConfig, steps: Seq<Step>, acc: ScouredView)
    requires
        forall|j: int| 0 <= j < steps.len() ==> !cfg.reads((#[trigger] steps[j]).trivia.kind),
    ensures
        cfg.replay(steps, acc) == acc,
    decreases steps.len(),
{
    if steps.len() > 0 {
        assert(!cfg.reads(steps[steps.len() - 1].trivia.kind));
        assert forall|j: int| 0 <= j < steps.drop_last().len() implies !cfg.reads(
            (#[trigger] steps.drop_last()[j]).trivia.kind,
        ) by {
            assert(steps.drop_last()[j] == steps[j]);
        }
        lemma_unread_steps_add_nothing(cfg, steps.drop_last(), acc);
    }
}

/// Where the trivia of one step only is read, the steps add what that one
/// step adds.
pub proof fn lemma_one_read_step(cfg: ScourConfig, steps: Seq<Step>, i: int, acc: ScouredView)
    requires
        cfg.only_read_at(steps, i),
    ensures
        cfg.replay(steps, acc) == cfg.after_step(steps[i], acc),
    decreases steps.len(),
{
    let rest = steps.drop_last();
    if i == steps.len() - 1 {
        assert forall|j: int| 0 <= j < rest.len() implies !cfg.reads(
            (#[trigger] rest[j]).trivia.kind,
        ) by {
            assert(rest[j] == steps[j]);
        }
        lemma_unread_steps_add_nothing(cfg, rest, acc);
    } else {
        assert(!cfg.reads(steps[steps.len() - 1].trivia.kind));
        assert forall|j: int| 0 <= j < rest.len() && j != i implies !cfg.reads(
            (#[trigger] rest[j]).trivia.kind,
        ) by {
            assert(rest[j] == steps[j]);
        }
        assert(rest[i] == steps[i]);
        lemma_one_read_step(cfg, rest, i, acc);
    }
}

/// Every step of a walk that starts inside a block is inside a block.
pub proof fn lemma_steps_stay_in_block(cfg: ScourConfig, node: Syntax, j: int)
    requires
        0 <= j < cfg.steps(node, true).len(),
    ensures
        cfg.steps(node, true)[j].in_block,
    decreases node, 0nat,
{
    match node.syntax {
        SyntaxVariant::Token(token) => {
            if !cfg.collects_from(token) {
                lemma_steps_below_stay_in_block(cfg, node.children@, node.children@.len(), j);
            }
        },
        _ => {
            lemma_steps_below_stay_in_block(cfg, node.children@, node.children@.len(), j);
        },
    }
}

proof fn lemma_steps_below_stay_in_block(cfg: ScourConfig, children: Seq<Syntax>, k: nat, j: int)
    requires
        0 <= j < cfg.steps_below(children, k, true).len(),
    ensures
        cfg.steps_below(children, k, true)[j].in_block,
    decreases children, k,
{
    if k == 0 || k > children.len() {
    } else {
        let before = cfg.steps_below(children, (k - 1) as nat, true);
        if j < before.len() {
            lemma_steps_below_stay_in_block(cfg, children, (k - 1) as nat, j);
        } else {
            lemma_steps_stay_in_block(cfg, children[k - 1], j - before.len());
        }
    }
}

/// Every step of the walk of a block of statements is inside a block.
pub proof fn lemma_steps_of_block(cfg: ScourConfig, node: Syntax, in_block: bool, j: int)
    requires
        node.syntax is CompoundStatement,
        0 <= j < cfg.steps(node, in_block).len(),
    ensures
        cfg.steps(node, in_block)[j].in_block,
{
    lemma_steps_below_stay_in_block(cfg, node.children@, node.children@.len(), j);
}

/// In a tree that holds no block of statements, every step is inside a
/// block exactly where the walk started inside one.
pub proof fn lemma_steps_without_block(cfg: ScourConfig, node: Syntax, in_block: bool, j: int)
    requires
        !holds_block(node),
        0 <= j < cfg.steps(node, in_block).len(),
    ensures
        cfg.steps(node, in_block)[j].in_block == in_block,
    decreases node, 1nat, 0nat,
{
    match node.syntax {
        SyntaxVariant::Token(token) => {
            if !cfg.collects_from(token) {
                lemma_steps_below_without_block(
                    cfg,
                    node,
                    node.children@.len(),
                    in_block,
                    j,
                );
            }
        },
        _ => {
            lemma_steps_below_without_block(cfg, node, node.children@.len(), in_block, j);
        },
    }
}

proof fn lemma_steps_below_without_block(
    cfg: ScourConfig,
    node: Syntax,
    k: nat,
    in_block: bool,
    j: int,
)
    requires
        !holds_block(node),
        k <= node.children@.len(),
        0 <= j < cfg.steps_below(node.children@, k, in_block).len(),
    ensures
        cfg.steps_below(node.children@, k, in_block)[j].in_block == in_block,
    decreases node, 0nat, k,
{
    if k == 0 {
    } else {
        let before = cfg.steps_below(node.children@, (k - 1) as nat, in_block);
        if j < before.len() {
            lemma_steps_below_without_block(cfg, node, (k - 1) as nat, in_block, j);
        } else {
            assert(!holds_block(node.children@[k - 1]));
            lemma_steps_without_block(cfg, node.children@[k - 1], in_block, j - before.len());
        }
    }
}

/// The harvest of a tree in whose walk one piece of trivia only is read is
/// what that piece adds to the empty harvest.
pub proof fn lemma_one_read_trivia(cfg: ScourConfig, node: Syntax, i: int)
    requires
        cfg.only_read_at(cfg.steps(node, false), i),
    ensures
        cfg.scour(node) == cfg.after_step(cfg.steps(node, false)[i], ScouredView::empty()),
{
    lemma_harvest_is_replay(cfg, node, false, ScouredView::empty());
    lemma_one_read_step(cfg, cfg.steps(node, false), i, ScouredView::empty());
}

/// The harvest of a tree in whose walk nothing is read is empty.
pub proof fn lemma_nothing_read(cfg: ScourConfig, node: Syntax)
    requires
        forall|j: int|
            0 <= j < cfg.steps(node, false).len() ==> !cfg.reads(
                (#[trigger] cfg.steps(node, false)[j]).trivia.kind,
            ),
    ensures
        cfg.scour(node) == ScouredView::empty(),
{
    lemma_harvest_is_replay(cfg, node, false, ScouredView::empty());
    lemma_unread_steps_add_nothing(cfg, cfg.steps(node, false), ScouredView::empty());
}

/// A file with one comment between delimiters and nothing else that is
/// read: the harvest is that one comment, without its first two and its last
/// two bytes and at the one byte before its last, and nothing else.
pub proof fn lemma_file_with_one_block_comment(cfg: ScourConfig, node: Syntax, i: int)
    requires
        cfg.only_read_at(cfg.steps(node, false), i),
        cfg.steps(node, false)[i].trivia.kind == TriviaKind::DelimitedComment,
        cfg.steps(node, false)[i].trivia.wf(cfg.text),
    ensures
        ({
            let t = cfg.steps(node, false)[i].trivia;
            let last = t.offset + t.width - 1;
            cfg.scour(node) == (ScouredView {
                comments: seq![
                    (
                        cfg.pos_of_offset(last - 1, last),
                        CommentView::Block(cfg.text.subrange(t.offset + 2, last - 1)),
                    ),
                ],
                ..ScouredView::empty()
            })
        }),
{
    let t = cfg.steps(node, false)[i].trivia;
    lemma_one_read_trivia(cfg, node, i);
    crate::scour_comment::lemma_block_comment(cfg, t, ScouredView::empty());
    let last = t.offset + t.width - 1;
    assert(Seq::<(crate::pos::PosView, CommentView)>::empty().push(
        (
            cfg.pos_of_offset(last - 1, last),
            CommentView::Block(cfg.text.subrange(t.offset + 2, last - 1)),
        ),
    ) =~= seq![
        (
            cfg.pos_of_offset(last - 1, last),
            CommentView::Block(cfg.text.subrange(t.offset + 2, last - 1)),
        ),
    ]);
}

/// A file with one comment of one line and nothing else that is read: the
/// harvest is that one comment, without its marker and with a line feed at
/// its end, and nothing else.
pub proof fn lemma_file_with_one_line_comment(cfg: ScourConfig, node: Syntax, i: int)
    requires
        cfg.include_line_comments,
        cfg.only_read_at(cfg.steps(node, false), i),
        cfg.steps(node, false)[i].trivia.kind == TriviaKind::SingleLineComment,
        cfg.steps(node, false)[i].trivia.wf(cfg.text),
    ensures
        ({
            let t = cfg.steps(node, false)[i].trivia;
            let start = t.offset + line_marker_len(cfg.text, t.offset as int);
            cfg.scour(node) == (ScouredView {
                comments: seq![
                    (
                        cfg.pos_of_offset(start, t.offset + t.width - 1),
                        CommentView::Line(
                            cfg.text.subrange(start, t.offset + t.width).push(0x0Au8),
                        ),
                    ),
                ],
                ..ScouredView::empty()
            })
        }),
{
    let t = cfg.steps(node, false)[i].trivia;
    lemma_one_read_trivia(cfg, node, i);
    crate::scour_comment::lemma_line_comment(cfg, t, ScouredView::empty());
    let start = t.offset + line_marker_len(cfg.text, t.offset as int);
    assert(Seq::<(crate::pos::PosView, CommentView)>::empty().push(
        (
            cfg.pos_of_offset(start, t.offset + t.width - 1),
            CommentView::Line(cfg.text.subrange(start, t.offset + t.width).push(0x0Au8)),
        ),
    ) =~= seq![
        (
            cfg.pos_of_offset(start, t.offset + t.width - 1),
            CommentView::Line(cfg.text.subrange(start, t.offset + t.width).push(0x0Au8)),
        ),
    ]);
}

/// A file with one suppression pragma and nothing else that is read, where
/// no pattern passes the pragma over. With a code, the pragma is recorded
/// once, for the line on which its token starts and at its own position: as
/// a misuse where its token stands outside every block and the code may be
/// suppressed inside a block only, and as a suppression everywhere else.
/// Without a code, it is one format error at the position of its token.
pub proof fn lemma_file_with_one_pragma(cfg: ScourConfig, node: Syntax, i: int)
    requires
        cfg.collect_fixmes,
        cfg.only_read_at(cfg.steps(node, false), i),
        cfg.steps(node, false)[i].trivia.kind == TriviaKind::FixMe || cfg.steps(
            node,
            false,
        )[i].trivia.kind == TriviaKind::IgnoreError,
        !cfg.ignores(cfg.steps(node, false)[i].trivia),
    ensures
        ({
            let step = cfg.steps(node, false)[i];
            let t = step.trivia;
            let line = cfg.node_pos(step.node).start.line() as isize;
            let p = cfg.pos_of_offset(t.offset as int, t.offset + t.width - 1);
            let none = ScouredView::empty();
            match pragma_code(sub_of(cfg.text, t.offset as int, t.width as int)) {
                Some(code) => if !step.in_block && cfg.disallowed_decl_fixmes.contains(code) {
                    cfg.scour(node) == (ScouredView {
                        misuses: with_record(none.misuses, line, code, p),
                        ..none
                    })
                } else {
                    cfg.scour(node) == (ScouredView {
                        fixmes: with_record(none.fixmes, line, code, p),
                        ..none
                    })
                },
                None => cfg.scour(node) == (ScouredView {
                    error_pos: seq![cfg.node_pos(step.node)],
                    ..none
                }),
            }
        }),
{
    let step = cfg.steps(node, false)[i];
    lemma_one_read_trivia(cfg, node, i);
    assert(Seq::<crate::pos::PosView>::empty().push(cfg.node_pos(step.node)) =~= seq![
        cfg.node_pos(step.node),
    ]);
}

} // verus!
