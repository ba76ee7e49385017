use std::collections::BTreeSet;
use std::rc::Rc;

use hackc_front::ignore_pattern::IgnorePattern;
use hackc_front::indexed_source_text::IndexedSourceText;
use hackc_front::pos::Pos;
use hackc_front::relative_path::{Prefix, RelativePath};
use hackc_front::scour_comment::ScourComment;
use hackc_front::scoured_comments::{Comment, ScouredComments};
use hackc_front::source_text::SourceText;
use hackc_front::syntax::{Syntax, SyntaxVariant, Token, Trivia, TriviaKind};

fn source(text: &str) -> IndexedSourceText {
    let file = Rc::new(RelativePath::make(Prefix::Root, String::from("test.php")));
    IndexedSourceText::new(SourceText::make(file, text.as_bytes().to_vec()))
}

fn trivia(kind: TriviaKind, offset: usize, width: usize) -> Trivia {
    Trivia { kind, offset, width }
}

fn token(start_offset: usize, width: usize, leading: Vec<Trivia>, trailing: Vec<Trivia>) -> Syntax {
    Syntax {
        syntax: SyntaxVariant::Token(Token { leading, trailing }),
        start_offset,
        width,
        children: vec![],
    }
}

fn node(variant: SyntaxVariant, start_offset: usize, width: usize, children: Vec<Syntax>) -> Syntax {
    Syntax { syntax: variant, start_offset, width, children }
}

fn other(start_offset: usize, width: usize, children: Vec<Syntax>) -> Syntax {
    node(SyntaxVariant::Other, start_offset, width, children)
}

fn block(start_offset: usize, width: usize, children: Vec<Syntax>) -> Syntax {
    node(SyntaxVariant::CompoundStatement, start_offset, width, children)
}

struct Options {
    collect_fixmes: bool,
    include_line_comments: bool,
    ignored_fixme: Option<IgnorePattern>,
    disallowed: Vec<isize>,
}

fn defaults() -> Options {
    Options {
        collect_fixmes: true,
        include_line_comments: true,
        ignored_fixme: None,
        disallowed: vec![],
    }
}

fn scour(text: &str, tree: &Syntax, options: &Options) -> ScouredComments {
    let indexed = source(text);
    let disallowed: BTreeSet<isize> = options.disallowed.iter().cloned().collect();
    let pass = ScourComment {
        indexed_source_text: &indexed,
        collect_fixmes: options.collect_fixmes,
        incldue_line_comments: options.include_line_comments,
        ignored_fixme: options.ignored_fixme.as_ref(),
        disallowed_decl_fixmes: &disallowed,
    };
    assert!(pass.can_scour(tree));
    pass.scour_comments(tree)
}

fn acceptable(text: &str, tree: &Syntax, options: &Options) -> bool {
    let indexed = source(text);
    let disallowed: BTreeSet<isize> = options.disallowed.iter().cloned().collect();
    let pass = ScourComment {
        indexed_source_text: &indexed,
        collect_fixmes: options.collect_fixmes,
        incldue_line_comments: options.include_line_comments,
        ignored_fixme: options.ignored_fixme.as_ref(),
        disallowed_decl_fixmes: &disallowed,
    };
    let answer = pass.can_scour(tree);
    assert_eq!(pass.try_scour_comments(tree).is_some(), answer);
    answer
}

fn span(p: &Pos) -> (usize, usize, usize) {
    (p.line(), p.start_cnum(), p.end_cnum())
}

fn records(r: &std::collections::BTreeMap<isize, std::collections::BTreeMap<isize, Pos>>) -> Vec<(isize, isize, usize, usize)> {
    let mut out = vec![];
    for (line, on_line) in r.iter() {
        for (code, pos) in on_line.iter() {
            out.push((*line, *code, pos.start_cnum(), pos.end_cnum()));
        }
    }
    out
}

#[test]
fn block_comment_yields_one_doc_comment() {
    let text = "/*doc*/x";
    let tree = other(
        7,
        1,
        vec![token(7, 1, vec![trivia(TriviaKind::DelimitedComment, 0, 7)], vec![])],
    );
    let r = scour(text, &tree, &defaults());
    assert_eq!(r.comments.len(), 1);
    assert_eq!(r.comments[0].1, Comment::CmtBlock(b"doc".to_vec()));
    // One byte wide, and it ends at the last byte of the comment.
    assert_eq!(span(&r.comments[0].0), (1, 5, 6));
    assert_eq!(r.comments[0].0.filename().to_string(), "root test.php");
    assert!(r.fixmes.is_empty());
    assert!(r.misuses.is_empty());
    assert!(r.error_pos.is_empty());
}

#[test]
fn block_comment_keeps_blanks_inside_delimiters() {
    let text = "/* doc */x";
    let tree = token(9, 1, vec![trivia(TriviaKind::DelimitedComment, 0, 9)], vec![]);
    let r = scour(text, &tree, &defaults());
    assert_eq!(r.comments.len(), 1);
    assert_eq!(r.comments[0].1, Comment::CmtBlock(b" doc ".to_vec()));
    assert_eq!(span(&r.comments[0].0), (1, 7, 8));
}

#[test]
fn empty_block_comment_has_empty_text() {
    let text = "/**/x";
    let tree = token(4, 1, vec![trivia(TriviaKind::DelimitedComment, 0, 4)], vec![]);
    let r = scour(text, &tree, &defaults());
    assert_eq!(r.comments.len(), 1);
    assert_eq!(r.comments[0].1, Comment::CmtBlock(vec![]));
    assert_eq!(span(&r.comments[0].0), (1, 2, 3));
}

#[test]
fn block_comments_are_collected_whatever_the_options() {
    let text = "/*doc*/x";
    let tree = token(7, 1, vec![trivia(TriviaKind::DelimitedComment, 0, 7)], vec![]);
    let options = Options { collect_fixmes: false, include_line_comments: false, ..defaults() };
    let r = scour(text, &tree, &options);
    assert_eq!(r.comments.len(), 1);
}

#[test]
fn hash_comment_yields_text_with_line_feed() {
    let text = "#note";
    let tree = token(5, 0, vec![trivia(TriviaKind::SingleLineComment, 0, 5)], vec![]);
    let r = scour(text, &tree, &defaults());
    assert_eq!(r.comments.len(), 1);
    assert_eq!(r.comments[0].1, Comment::CmtLine(b"note\n".to_vec()));
    assert_eq!(span(&r.comments[0].0), (1, 1, 4));
}

#[test]
fn hash_comment_keeps_blank_after_marker() {
    let text = "# note";
    let tree = token(6, 0, vec![trivia(TriviaKind::SingleLineComment, 0, 6)], vec![]);
    let r = scour(text, &tree, &defaults());
    assert_eq!(r.comments.len(), 1);
    assert_eq!(r.comments[0].1, Comment::CmtLine(b" note\n".to_vec()));
    assert_eq!(span(&r.comments[0].0), (1, 1, 5));
}

#[test]
fn slash_comment_loses_two_bytes_of_marker() {
    let text = "x // note\ny";
    let tree = other(
        0,
        11,
        vec![
            token(
                0,
                1,
                vec![],
                vec![
                    trivia(TriviaKind::WhiteSpace, 1, 1),
                    trivia(TriviaKind::SingleLineComment, 2, 7),
                    trivia(TriviaKind::EndOfLine, 9, 1),
                ],
            ),
            token(10, 1, vec![], vec![]),
        ],
    );
    let r = scour(text, &tree, &defaults());
    assert_eq!(r.comments.len(), 1);
    assert_eq!(r.comments[0].1, Comment::CmtLine(b" note\n".to_vec()));
    assert_eq!(span(&r.comments[0].0), (1, 4, 8));
}

#[test]
fn bare_marker_yields_line_feed_only() {
    let text = "#\nx";
    let tree = token(
        2,
        1,
        vec![trivia(TriviaKind::SingleLineComment, 0, 1), trivia(TriviaKind::EndOfLine, 1, 1)],
        vec![],
    );
    let r = scour(text, &tree, &defaults());
    assert_eq!(r.comments.len(), 1);
    assert_eq!(r.comments[0].1, Comment::CmtLine(b"\n".to_vec()));
}

#[test]
fn line_comments_are_skipped_unless_asked_for() {
    let text = "#note";
    let tree = token(5, 0, vec![trivia(TriviaKind::SingleLineComment, 0, 5)], vec![]);
    let options = Options { include_line_comments: false, ..defaults() };
    let r = scour(text, &tree, &options);
    assert!(r.comments.is_empty());
}

const IN_FUNCTION: &str = "function f() {\n  /* HH_FIXME[1234] */ g();\n}\n";

fn tree_in_block() -> Syntax {
    other(
        0,
        45,
        vec![
            token(0, 8, vec![], vec![trivia(TriviaKind::WhiteSpace, 8, 1)]),
            block(
                13,
                31,
                vec![token(
                    38,
                    1,
                    vec![
                        trivia(TriviaKind::WhiteSpace, 15, 2),
                        trivia(TriviaKind::FixMe, 17, 20),
                        trivia(TriviaKind::WhiteSpace, 37, 1),
                    ],
                    vec![],
                )],
            ),
        ],
    )
}

fn tree_at_declaration() -> Syntax {
    other(
        0,
        45,
        vec![
            token(0, 8, vec![], vec![trivia(TriviaKind::WhiteSpace, 8, 1)]),
            other(
                13,
                31,
                vec![token(
                    38,
                    1,
                    vec![
                        trivia(TriviaKind::WhiteSpace, 15, 2),
                        trivia(TriviaKind::FixMe, 17, 20),
                        trivia(TriviaKind::WhiteSpace, 37, 1),
                    ],
                    vec![],
                )],
            ),
        ],
    )
}

#[test]
fn pragma_in_block_is_a_suppression() {
    let options = Options { disallowed: vec![1234], ..defaults() };
    let r = scour(IN_FUNCTION, &tree_in_block(), &options);
    assert_eq!(records(&r.fixmes), vec![(2, 1234, 17, 36)]);
    assert!(r.misuses.is_empty());
    assert!(r.error_pos.is_empty());
    assert!(r.comments.is_empty());
    assert_eq!(r.get_fixme(2, 1234).map(span), Some((2, 17, 36)));
    assert!(r.get_fixme(2, 1235).is_none());
    assert!(r.get_fixme(1, 1234).is_none());
}

#[test]
fn disallowed_pragma_at_declaration_is_a_misuse() {
    let options = Options { disallowed: vec![1234], ..defaults() };
    let r = scour(IN_FUNCTION, &tree_at_declaration(), &options);
    assert_eq!(records(&r.misuses), vec![(2, 1234, 17, 36)]);
    assert!(r.fixmes.is_empty());
    assert!(r.error_pos.is_empty());
    assert!(r.get_fixme(2, 1234).is_none());
}

#[test]
fn allowed_pragma_at_declaration_is_a_suppression() {
    let options = Options { disallowed: vec![4321], ..defaults() };
    let r = scour(IN_FUNCTION, &tree_at_declaration(), &options);
    assert_eq!(records(&r.fixmes), vec![(2, 1234, 17, 36)]);
    assert!(r.misuses.is_empty());
}

#[test]
fn block_flag_reaches_every_descendant() {
    // The token lies two levels below the block.
    let tree = block(0, 45, vec![tree_at_declaration()]);
    let options = Options { disallowed: vec![1234], ..defaults() };
    let r = scour(IN_FUNCTION, &tree, &options);
    assert_eq!(records(&r.fixmes), vec![(2, 1234, 17, 36)]);
    assert!(r.misuses.is_empty());
}

#[test]
fn pragmas_are_skipped_unless_asked_for() {
    let options = Options { collect_fixmes: false, disallowed: vec![1234], ..defaults() };
    let r = scour(IN_FUNCTION, &tree_in_block(), &options);
    assert!(r.fixmes.is_empty());
    assert!(r.misuses.is_empty());
    assert!(r.error_pos.is_empty());
}

#[test]
fn pragma_goes_to_the_line_of_its_node() {
    // The pragma stands on line 1, its token on line 3.
    let text = "/* HH_IGNORE_ERROR[4110] */\n\nfoo();";
    let tree = token(
        29,
        3,
        vec![trivia(TriviaKind::IgnoreError, 0, 27), trivia(TriviaKind::EndOfLine, 27, 1)],
        vec![],
    );
    let r = scour(text, &tree, &defaults());
    assert_eq!(records(&r.fixmes), vec![(3, 4110, 0, 26)]);
    assert_eq!(r.get_fixme(3, 4110).map(|p| p.line()), Some(1));
}

#[test]
fn pragma_without_code_is_a_format_error() {
    let text = "/* HH_FIXME[abc] */ x";
    let tree = token(
        20,
        1,
        vec![trivia(TriviaKind::FixMe, 0, 19), trivia(TriviaKind::WhiteSpace, 19, 1)],
        vec![],
    );
    let r = scour(text, &tree, &defaults());
    assert_eq!(r.error_pos.len(), 1);
    // The error stands at the node, not at the pragma.
    assert_eq!(span(&r.error_pos[0]), (1, 20, 21));
    assert!(r.fixmes.is_empty());
    assert!(r.misuses.is_empty());
    assert!(r.comments.is_empty());
}

#[test]
fn pragma_with_code_too_large_is_a_format_error() {
    let text = "/* HH_FIXME[99999999999999999999999999] */ x";
    let tree = token(43, 1, vec![trivia(TriviaKind::FixMe, 0, 42)], vec![]);
    let r = scour(text, &tree, &defaults());
    assert_eq!(r.error_pos.len(), 1);
    assert!(r.fixmes.is_empty());
    assert!(r.misuses.is_empty());
}

#[test]
fn ignored_pragma_leaves_no_trace() {
    let text = "/* HH_FIXME[4110] */ x /* HH_FIXME[1234] */";
    let tree = token(
        21,
        1,
        vec![trivia(TriviaKind::FixMe, 0, 20), trivia(TriviaKind::WhiteSpace, 20, 1)],
        vec![trivia(TriviaKind::WhiteSpace, 22, 1), trivia(TriviaKind::FixMe, 23, 20)],
    );
    let pattern = IgnorePattern::new("HH_FIXME\\[4110\\]").unwrap();
    assert_eq!(pattern.as_str(), "HH_FIXME\\[4110\\]");
    let options = Options { ignored_fixme: Some(pattern), ..defaults() };
    let r = scour(text, &tree, &options);
    assert_eq!(records(&r.fixmes), vec![(1, 1234, 23, 42)]);
    assert!(r.error_pos.is_empty());

    let everything = IgnorePattern::new("HH_").unwrap();
    let options = Options { ignored_fixme: Some(everything), ..defaults() };
    let r = scour(text, &tree, &options);
    assert!(r.fixmes.is_empty());

    let nothing = IgnorePattern::new("^never$").unwrap();
    let options = Options { ignored_fixme: Some(nothing), ..defaults() };
    let r = scour(text, &tree, &options);
    assert_eq!(records(&r.fixmes), vec![(1, 1234, 23, 42), (1, 4110, 0, 19)]);
}

#[test]
fn ignored_malformed_pragma_is_no_format_error() {
    let text = "/* HH_FIXME[abc] */ x";
    let tree = token(20, 1, vec![trivia(TriviaKind::FixMe, 0, 19)], vec![]);
    let options = Options { ignored_fixme: IgnorePattern::new("abc"), ..defaults() };
    let r = scour(text, &tree, &options);
    assert!(r.error_pos.is_empty());
}

#[test]
fn invalid_pattern_is_refused() {
    assert!(IgnorePattern::new("(unclosed").is_none());
    assert!(IgnorePattern::new("").is_some());
}

#[test]
fn comments_come_in_the_order_of_the_text() {
    let text = "/*a*/x/*b*/ #c\n/*d*/y";
    let tree = other(
        5,
        16,
        vec![
            other(
                5,
                1,
                vec![token(
                    5,
                    1,
                    vec![trivia(TriviaKind::DelimitedComment, 0, 5)],
                    vec![
                        trivia(TriviaKind::DelimitedComment, 6, 5),
                        trivia(TriviaKind::WhiteSpace, 11, 1),
                        trivia(TriviaKind::SingleLineComment, 12, 2),
                        trivia(TriviaKind::EndOfLine, 14, 1),
                    ],
                )],
            ),
            block(
                20,
                1,
                vec![token(20, 1, vec![trivia(TriviaKind::DelimitedComment, 15, 5)], vec![])],
            ),
        ],
    );
    let r = scour(text, &tree, &defaults());
    let texts: Vec<&Comment> = r.comments.iter().map(|c| &c.1).collect();
    assert_eq!(
        texts,
        vec![
            &Comment::CmtBlock(b"a".to_vec()),
            &Comment::CmtBlock(b"b".to_vec()),
            &Comment::CmtLine(b"c\n".to_vec()),
            &Comment::CmtBlock(b"d".to_vec()),
        ]
    );
    let lines: Vec<usize> = r.comments.iter().map(|c| c.0.line()).collect();
    assert_eq!(lines, vec![1, 1, 1, 2]);
}

#[test]
fn uninteresting_trivia_yield_nothing() {
    let text = "  x\n";
    let tree = token(
        2,
        1,
        vec![trivia(TriviaKind::WhiteSpace, 0, 2)],
        vec![trivia(TriviaKind::EndOfLine, 3, 1)],
    );
    let r = scour(text, &tree, &defaults());
    assert_eq!(r, ScouredComments::new());
    let other_kinds = token(
        2,
        1,
        vec![
            trivia(TriviaKind::FallThrough, 0, 1),
            trivia(TriviaKind::ExtraTokenError, 1, 1),
            trivia(TriviaKind::AfterHaltCompiler, 3, 1),
        ],
        vec![],
    );
    assert_eq!(scour(text, &other_kinds, &defaults()), ScouredComments::new());
}

#[test]
fn later_pragma_replaces_earlier_for_same_line_and_code() {
    let text = "/* HH_FIXME[7] */ /* HH_FIXME[7] */ x";
    let tree = token(
        36,
        1,
        vec![
            trivia(TriviaKind::FixMe, 0, 17),
            trivia(TriviaKind::WhiteSpace, 17, 1),
            trivia(TriviaKind::FixMe, 18, 17),
        ],
        vec![],
    );
    let r = scour(text, &tree, &defaults());
    assert_eq!(records(&r.fixmes), vec![(1, 7, 18, 34)]);
}

#[test]
fn several_codes_on_one_line_are_all_kept() {
    let text = "/* HH_FIXME[7] */ /* HH_FIXME[8] */ x";
    let tree = token(
        36,
        1,
        vec![
            trivia(TriviaKind::FixMe, 0, 17),
            trivia(TriviaKind::WhiteSpace, 17, 1),
            trivia(TriviaKind::FixMe, 18, 17),
        ],
        vec![],
    );
    let options = Options { disallowed: vec![8], ..defaults() };
    let r = scour(text, &tree, &options);
    assert_eq!(records(&r.fixmes), vec![(1, 7, 0, 16)]);
    assert_eq!(records(&r.misuses), vec![(1, 8, 18, 34)]);
}

#[test]
fn two_runs_give_the_same_outcome() {
    let text = "/*a*/x/*b*/ #c\n/* HH_FIXME[12] */ /* HH_FIXME[x] */y";
    let tree = other(
        5,
        47,
        vec![
            token(
                5,
                1,
                vec![trivia(TriviaKind::DelimitedComment, 0, 5)],
                vec![
                    trivia(TriviaKind::DelimitedComment, 6, 5),
                    trivia(TriviaKind::WhiteSpace, 11, 1),
                    trivia(TriviaKind::SingleLineComment, 12, 2),
                    trivia(TriviaKind::EndOfLine, 14, 1),
                ],
            ),
            token(
                51,
                1,
                vec![
                    trivia(TriviaKind::FixMe, 15, 18),
                    trivia(TriviaKind::WhiteSpace, 33, 1),
                    trivia(TriviaKind::FixMe, 34, 17),
                ],
                vec![],
            ),
        ],
    );
    let options = Options { disallowed: vec![12], ..defaults() };
    let first = scour(text, &tree, &options);
    let second = scour(text, &tree, &options);
    assert_eq!(first, second);
    assert_eq!(first.comments.len(), 3);
    assert_eq!(records(&first.misuses), vec![(2, 12, 15, 32)]);
    assert_eq!(first.error_pos.len(), 1);
}

#[test]
fn malformed_trees_are_told_apart() {
    let text = "/*a*/x";
    let all = defaults();
    assert!(acceptable(text, &token(5, 1, vec![trivia(TriviaKind::DelimitedComment, 0, 5)], vec![]), &all));
    // A block comment too short for its delimiters.
    assert!(!acceptable(text, &token(5, 1, vec![trivia(TriviaKind::DelimitedComment, 0, 3)], vec![]), &all));
    // A comment that runs past the end of the text.
    assert!(!acceptable(text, &token(5, 1, vec![trivia(TriviaKind::DelimitedComment, 4, 4)], vec![]), &all));
    assert!(!acceptable(text, &token(5, 1, vec![], vec![trivia(TriviaKind::FixMe, usize::MAX, 2)]), &all));
    // A pragma without width.
    assert!(!acceptable(text, &token(5, 1, vec![trivia(TriviaKind::IgnoreError, 0, 0)], vec![]), &all));
    // A comment of one line that is `/` alone.
    assert!(!acceptable(text, &token(5, 1, vec![trivia(TriviaKind::SingleLineComment, 0, 1)], vec![]), &all));
    assert!(acceptable("#x", &token(1, 1, vec![trivia(TriviaKind::SingleLineComment, 0, 1)], vec![]), &all));
    // Faults below the root are found too.
    let bad = other(0, 6, vec![other(0, 6, vec![token(5, 1, vec![trivia(TriviaKind::FixMe, 6, 1)], vec![])])]);
    assert!(!acceptable(text, &bad, &all));
}

#[test]
fn nothing_is_asked_of_what_is_never_read() {
    let text = "/*a*/x";
    let all = defaults();
    // Trivia of the kinds that are skipped may hold anything.
    let odd = token(
        5,
        1,
        vec![
            trivia(TriviaKind::WhiteSpace, 4, 30),
            trivia(TriviaKind::EndOfLine, usize::MAX, usize::MAX),
            trivia(TriviaKind::FallThrough, 0, 0),
        ],
        vec![trivia(TriviaKind::ExtraTokenError, 9, 0), trivia(TriviaKind::AfterHaltCompiler, 100, 1)],
    );
    assert!(acceptable(text, &odd, &all));
    assert_eq!(scour(text, &odd, &all), ScouredComments::new());
    // So may comments of one line and pragmas where they are not collected.
    let unread = token(
        5,
        1,
        vec![trivia(TriviaKind::SingleLineComment, 50, 0), trivia(TriviaKind::FixMe, 60, 0)],
        vec![],
    );
    assert!(!acceptable(text, &unread, &all));
    let none = Options { collect_fixmes: false, include_line_comments: false, ..defaults() };
    assert!(acceptable(text, &unread, &none));
    assert_eq!(scour(text, &unread, &none), ScouredComments::new());
    // The place of a node counts only where a pragma is recorded by it.
    let far = other(1000, 1000, vec![token(2000, 7, vec![trivia(TriviaKind::DelimitedComment, 0, 5)], vec![])]);
    assert!(acceptable(text, &far, &all));
    assert_eq!(scour(text, &far, &all).comments.len(), 1);
    let far_pragma = token(2000, 7, vec![trivia(TriviaKind::FixMe, 0, 5)], vec![]);
    assert!(!acceptable(text, &far_pragma, &all));
    assert!(acceptable(text, &far_pragma, &none));
}

#[test]
fn tokens_have_no_nodes_below_them() {
    let text = "/*a*/x";
    let inner = token(5, 1, vec![], vec![]);
    let outer = Syntax {
        syntax: SyntaxVariant::Token(Token { leading: vec![], trailing: vec![] }),
        start_offset: 5,
        width: 1,
        children: vec![inner],
    };
    assert!(!acceptable(text, &outer, &defaults()));
    assert!(!acceptable(text, &other(0, 6, vec![outer]), &defaults()));
}

#[test]
fn add_records_by_hand() {
    let file = Rc::new(RelativePath::make(Prefix::Root, String::from("a")));
    let at = |start: usize| Pos::from_lnum_bol_cnum(Rc::clone(&file), (1, 0, start), (1, 0, start + 1));
    let mut s = ScouredComments::new();
    s.add_to_fixmes(3, 10, at(1));
    s.add_to_fixmes(3, 11, at(2));
    s.add_to_fixmes(4, 10, at(3));
    s.add_to_fixmes(3, 10, at(4));
    s.add_to_misuses(3, 10, at(5));
    s.add_format_error(at(6));
    s.add_comment(at(7), Comment::CmtBlock(b"x".to_vec()));
    assert_eq!(records(&s.fixmes), vec![(3, 10, 4, 5), (3, 11, 2, 3), (4, 10, 3, 4)]);
    assert_eq!(records(&s.misuses), vec![(3, 10, 5, 6)]);
    assert_eq!(s.error_pos.len(), 1);
    assert_eq!(s.comments.len(), 1);
    assert_eq!(s.get_fixme(3, 10).map(|p| p.start_cnum()), Some(4));
    assert_eq!(s.get_fixme(4, 10).map(|p| p.start_cnum()), Some(3));
    assert!(s.get_fixme(4, 11).is_none());
    assert!(s.get_fixme(5, 10).is_none());
}

#[test]
fn malformed_tree_is_refused_at_run_time() {
    let indexed = source("/*a*/x");
    let disallowed: BTreeSet<isize> = BTreeSet::new();
    let pass = ScourComment {
        indexed_source_text: &indexed,
        collect_fixmes: true,
        incldue_line_comments: true,
        ignored_fixme: None,
        disallowed_decl_fixmes: &disallowed,
    };
    let good = token(5, 1, vec![trivia(TriviaKind::DelimitedComment, 0, 5)], vec![]);
    let found = pass.try_scour_comments(&good).unwrap();
    assert_eq!(found, pass.scour_comments(&good));
    assert_eq!(found.comments.len(), 1);
    let bad = token(5, 1, vec![trivia(TriviaKind::DelimitedComment, 0, 3)], vec![]);
    assert!(pass.try_scour_comments(&bad).is_none());
    let outside = token(5, 1, vec![trivia(TriviaKind::SingleLineComment, 6, 2)], vec![]);
    assert!(pass.try_scour_comments(&outside).is_none());
}

#[test]
fn single_pieces_of_trivia_can_be_walked_by_hand() {
    let indexed = source("/*a*/ /* HH_FIXME[5] */x");
    let disallowed: BTreeSet<isize> = [5].iter().cloned().collect();
    let pass = ScourComment {
        indexed_source_text: &indexed,
        collect_fixmes: true,
        incldue_line_comments: false,
        ignored_fixme: None,
        disallowed_decl_fixmes: &disallowed,
    };
    let comment = trivia(TriviaKind::DelimitedComment, 0, 5);
    let pragma = trivia(TriviaKind::FixMe, 6, 17);
    let node = token(23, 1, vec![comment, pragma], vec![]);
    let acc = pass.on_trivia(false, &node, &comment, ScouredComments::new());
    assert_eq!(acc.comments.len(), 1);
    let acc = pass.on_trivia(false, &node, &pragma, acc);
    assert_eq!(records(&acc.misuses), vec![(1, 5, 6, 22)]);
    let acc = pass.on_trivia(true, &node, &pragma, acc);
    assert_eq!(records(&acc.fixmes), vec![(1, 5, 6, 22)]);
    let acc = pass.on_pragma(true, &node, &pragma, true, acc);
    assert_eq!(records(&acc.fixmes), vec![(1, 5, 6, 22)]);
    assert_eq!(acc.comments.len(), 1);
    let acc = pass.on_pragma(false, &node, &comment, false, acc);
    assert_eq!(acc.error_pos.len(), 1);
    assert_eq!(span(&acc.error_pos[0]), (1, 23, 24));
}
