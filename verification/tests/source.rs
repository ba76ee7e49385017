use std::rc::Rc;

use hackc_front::indexed_source_text::IndexedSourceText;
use hackc_front::line_break_map::LineBreakMap;
use hackc_front::relative_path::{Prefix, RelativePath};
use hackc_front::source_text::SourceText;
use hackc_front::syntax::{Syntax, SyntaxVariant, Token, Trivia, TriviaKind};

fn source(text: &[u8]) -> IndexedSourceText {
    let file = Rc::new(RelativePath::make(Prefix::Hhi, String::from("lib.hhi")));
    IndexedSourceText::new(SourceText::make(file, text.to_vec()))
}

#[test]
fn offsets_map_to_lines_counted_from_one() {
    let map = LineBreakMap::new(b"ab\ncd\n\nef");
    assert_eq!(map.offset_to_file_pos_triple(0), (1, 0, 0));
    assert_eq!(map.offset_to_file_pos_triple(2), (1, 0, 2));
    assert_eq!(map.offset_to_file_pos_triple(3), (2, 3, 3));
    assert_eq!(map.offset_to_file_pos_triple(5), (2, 3, 5));
    assert_eq!(map.offset_to_file_pos_triple(6), (3, 6, 6));
    assert_eq!(map.offset_to_file_pos_triple(7), (4, 7, 7));
    assert_eq!(map.offset_to_file_pos_triple(8), (4, 7, 8));
    // Past the end of the text the last line goes on.
    assert_eq!(map.offset_to_file_pos_triple(9), (4, 7, 9));
    assert_eq!(map.offset_to_file_pos_triple(1000), (4, 7, 1000));
}

#[test]
fn carriage_return_ends_a_line_unless_line_feed_follows() {
    let map = LineBreakMap::new(b"a\r\nb\rc\r");
    assert_eq!(map.offset_to_file_pos_triple(1), (1, 0, 1));
    assert_eq!(map.offset_to_file_pos_triple(2), (1, 0, 2));
    assert_eq!(map.offset_to_file_pos_triple(3), (2, 3, 3));
    assert_eq!(map.offset_to_file_pos_triple(4), (2, 3, 4));
    assert_eq!(map.offset_to_file_pos_triple(5), (3, 5, 5));
    assert_eq!(map.offset_to_file_pos_triple(6), (3, 5, 6));
    assert_eq!(map.offset_to_file_pos_triple(7), (4, 7, 7));
}

#[test]
fn empty_text_has_one_line() {
    let map = LineBreakMap::new(b"");
    assert_eq!(map.offset_to_file_pos_triple(0), (1, 0, 0));
    assert_eq!(map.offset_to_file_pos_triple(5), (1, 0, 5));
}

#[test]
fn line_lookup_agrees_with_counting() {
    let text: Vec<u8> = b"one\n\ntwo\r\nthree\rfour\n\n\nfive".to_vec();
    let map = LineBreakMap::new(&text);
    let mut line = 1;
    let mut bol = 0;
    for offset in 0..=text.len() + 2 {
        if offset >= 1 && offset <= text.len() {
            let prev = text[offset - 1];
            let next = text.get(offset).copied();
            if prev == b'\n' || (prev == b'\r' && next != Some(b'\n')) {
                line += 1;
                bol = offset;
            }
        }
        assert_eq!(map.offset_to_file_pos_triple(offset), (line, bol, offset));
    }
}

#[test]
fn sub_is_cut_short_at_the_end() {
    let s = source(b"hello world");
    let text = s.source_text();
    assert_eq!(text.length(), 11);
    assert_eq!(text.text(), b"hello world");
    assert_eq!(text.sub(0, 5), b"hello");
    assert_eq!(text.sub(6, 5), b"world");
    assert_eq!(text.sub(6, 50), b"world");
    assert_eq!(text.sub(6, usize::MAX), b"world");
    assert_eq!(text.sub(11, 1), b"");
    assert_eq!(text.sub(50, 1), b"");
    assert_eq!(text.sub(3, 0), b"");
    assert_eq!(text.file_path().to_string(), "hhi lib.hhi");
    assert_eq!(text.file_path_rc().path_str(), "lib.hhi");
}

#[test]
fn relative_pos_spans_lines() {
    let s = source(b"ab\ncd\nef");
    let p = s.relative_pos(4, 7);
    assert_eq!(p.line(), 2);
    assert_eq!(p.start_cnum(), 4);
    assert_eq!(p.end_cnum(), 7);
    assert_eq!(p.filename().to_string(), "hhi lib.hhi");
    assert_eq!(p.info_pos_extended(), (2, 3, 2, 4));
    assert_eq!(s.offset_to_file_pos_triple(7), (3, 6, 7));
}

#[test]
fn trivia_boundaries() {
    let t = Trivia { kind: TriviaKind::DelimitedComment, offset: 4, width: 9 };
    assert_eq!(t.kind(), TriviaKind::DelimitedComment);
    assert_eq!(t.start_offset(), 4);
    assert_eq!(t.end_offset(), 12);
    assert_eq!(t.width(), 9);
    let s = source(b"x = /* doc */ 1;");
    assert_eq!(t.text_raw(s.source_text()), b"/* doc */");
}

#[test]
fn token_knows_the_kinds_of_its_trivia() {
    let token = Token {
        leading: vec![Trivia { kind: TriviaKind::WhiteSpace, offset: 0, width: 1 }],
        trailing: vec![
            Trivia { kind: TriviaKind::FixMe, offset: 2, width: 5 },
            Trivia { kind: TriviaKind::EndOfLine, offset: 7, width: 1 },
        ],
    };
    assert!(token.has_trivia_kind(TriviaKind::WhiteSpace));
    assert!(token.has_trivia_kind(TriviaKind::FixMe));
    assert!(token.has_trivia_kind(TriviaKind::EndOfLine));
    assert!(!token.has_trivia_kind(TriviaKind::IgnoreError));
    assert!(!token.has_trivia_kind(TriviaKind::DelimitedComment));
    assert_eq!(token.leading().len(), 1);
    assert_eq!(token.trailing().len(), 2);
}

#[test]
fn node_position_excludes_trivia_and_is_never_empty() {
    let s = source(b"ab\n  cd;\n");
    let node = Syntax {
        syntax: SyntaxVariant::Other,
        start_offset: 5,
        width: 3,
        children: vec![],
    };
    let p = node.position_exclusive(&s);
    assert_eq!((p.line(), p.start_cnum(), p.end_cnum()), (2, 5, 8));
    let empty = Syntax { syntax: SyntaxVariant::Other, start_offset: 9, width: 0, children: vec![] };
    let p = empty.position_exclusive(&s);
    assert_eq!((p.line(), p.start_cnum(), p.end_cnum()), (3, 9, 10));
}
