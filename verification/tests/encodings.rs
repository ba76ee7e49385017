use std::rc::Rc;

use hackc_front::file_pos_large::FilePosLarge;
use hackc_front::file_pos_small::{FilePosSmall, MAX_BOL, MAX_COLUMN, MAX_LINE};
use hackc_front::pos::Pos;
use hackc_front::relative_path::{bytes_less, Prefix, RelativePath};
use hackc_front::text::{
    chars_of, eq_chars, eq_ignore_ascii_case, find_from, push_range, rfind_before, starts_with,
};

#[test]
fn compact_encoding_reads_back_what_it_holds() {
    let p = FilePosSmall::from_lnum_bol_cnum(12, 300, 345).unwrap();
    assert!(!p.is_dummy());
    assert_eq!(p.line(), 12);
    assert_eq!(p.column(), 45);
    assert_eq!(p.offset(), 345);
    assert_eq!(p.line_beg(), (12, 300));
    assert_eq!(p.line_column(), (12, 45));
    assert_eq!(p.line_column_beg(), (12, 45, 300));
    assert_eq!(p.line_column_offset(), (12, 45, 345));
    assert_eq!(p.line_beg_offset(), (12, 300, 345));
    let q = FilePosSmall::from_line_column_offset(12, 45, 345).unwrap();
    assert_eq!(q.line_column_beg(), (12, 45, 300));
}

#[test]
fn compact_encoding_has_bounds() {
    assert_eq!(MAX_COLUMN, 511);
    assert_eq!(MAX_LINE, 16_777_215);
    assert_eq!(MAX_BOL, 1_073_741_823);
    let edge = FilePosSmall::from_lnum_bol_cnum(MAX_LINE, MAX_BOL, MAX_BOL + MAX_COLUMN).unwrap();
    assert_eq!(edge.line_column_beg(), (MAX_LINE, MAX_COLUMN, MAX_BOL));
    assert!(!edge.is_dummy());
    assert!(FilePosSmall::from_lnum_bol_cnum(MAX_LINE + 1, 0, 0).is_none());
    assert!(FilePosSmall::from_lnum_bol_cnum(0, MAX_BOL + 1, MAX_BOL + 1).is_none());
    assert!(FilePosSmall::from_lnum_bol_cnum(0, 0, MAX_COLUMN + 1).is_none());
    assert!(FilePosSmall::from_line_column_offset(0, MAX_COLUMN + 1, MAX_COLUMN + 1).is_none());
    assert!(FilePosSmall::from_lnum_bol_cnum(0, 0, 0).is_some());
}

#[test]
fn fields_of_compact_encoding_do_not_spill() {
    for (line, bol, column) in [
        (0, 0, MAX_COLUMN),
        (0, MAX_BOL, 0),
        (MAX_LINE, 0, 0),
        (1, 1, 1),
        (MAX_LINE, 0, MAX_COLUMN),
        (0x00AA_AAAA, 0x1555_5555, 0x0AA),
    ]
    .iter()
    {
        let p = FilePosSmall::from_lnum_bol_cnum(*line, *bol, *bol + *column).unwrap();
        assert_eq!(p.line_column_beg(), (*line, *column, *bol));
    }
}

#[test]
fn dummy_reads_as_zero_in_both_encodings() {
    let small = FilePosSmall::make_dummy();
    assert!(small.is_dummy());
    assert_eq!(small.line_column_offset(), (0, 0, 0));
    assert_eq!(small.line_beg(), (0, 0));
    let large = FilePosLarge::make_dummy();
    assert!(large.is_dummy());
    assert_eq!(large.line_column_offset(), (0, 0, 0));
    assert_eq!(large.line_beg(), (0, 0));
    // The point at the start of line zero is no dummy.
    assert!(!FilePosSmall::from_lnum_bol_cnum(0, 0, 0).unwrap().is_dummy());
    assert!(!FilePosLarge::from_lnum_bol_cnum(0, 0, 0).is_dummy());
}

#[test]
fn extended_encoding_reads_back_what_it_holds() {
    let p = FilePosLarge::from_lnum_bol_cnum(usize::MAX, 10, usize::MAX);
    assert_eq!(p.line(), usize::MAX);
    assert_eq!(p.beg_of_line(), 10);
    assert_eq!(p.offset(), usize::MAX);
    assert_eq!(p.column(), usize::MAX - 10);
    assert_eq!(p.line_column_beg(), (usize::MAX, usize::MAX - 10, 10));
    let q = FilePosLarge::from_line_column_offset(7, 45, 345);
    assert_eq!(q.line_column(), (7, 45));
    assert_eq!(q.line_beg_offset(), (7, 300, 345));
    assert_eq!(q.line_column_offset(), (7, 45, 345));
    assert_eq!(q.line_beg(), (7, 300));
}

#[test]
fn file_identifiers() {
    let a = RelativePath::make(Prefix::Root, "a/b.php".to_string());
    assert_eq!(a.prefix(), Prefix::Root);
    assert_eq!(a.path_str(), "a/b.php");
    assert_eq!(a.to_string(), "root a/b.php");
    assert!(!a.is_empty());
    assert!(a.same(&RelativePath::make(Prefix::Root, "a/b.php".to_string())));
    assert!(!a.same(&RelativePath::make(Prefix::Hhi, "a/b.php".to_string())));
    assert!(!a.same(&RelativePath::make(Prefix::Root, "a/b.ph".to_string())));
    assert!(RelativePath::make(Prefix::Dummy, String::new()).is_empty());
    assert!(!RelativePath::make(Prefix::Tmp, String::new()).is_empty());
    assert!(!RelativePath::make(Prefix::Dummy, "x".to_string()).is_empty());
    assert_eq!(RelativePath::make(Prefix::Hhi, "x".to_string()).to_string(), "hhi x");
    assert_eq!(RelativePath::make(Prefix::Tmp, "x".to_string()).to_string(), "tmp x");
    assert_eq!(RelativePath::make(Prefix::Dummy, "".to_string()).to_string(), "dummy ");
    assert_eq!(Prefix::Root.to_rank(), 0);
    assert_eq!(Prefix::Hhi.to_rank(), 1);
    assert_eq!(Prefix::Dummy.to_rank(), 2);
    assert_eq!(Prefix::Tmp.to_rank(), 3);
    assert_eq!(Prefix::Tmp.as_str(), "tmp");
}

#[test]
fn file_identifiers_are_ordered_by_prefix_then_path() {
    let at = |prefix: Prefix, path: &str| RelativePath::make(prefix, path.to_string());
    assert!(at(Prefix::Root, "z").less_than(&at(Prefix::Hhi, "a")));
    assert!(!at(Prefix::Hhi, "a").less_than(&at(Prefix::Root, "z")));
    assert!(at(Prefix::Root, "a").less_than(&at(Prefix::Root, "b")));
    assert!(at(Prefix::Root, "a").less_than(&at(Prefix::Root, "aa")));
    assert!(!at(Prefix::Root, "a").less_than(&at(Prefix::Root, "a")));
    assert!(!at(Prefix::Root, "b").less_than(&at(Prefix::Root, "a")));
}

#[test]
fn bytes_are_ordered_as_slices_are() {
    let samples: [&[u8]; 9] = [b"", b"a", b"ab", b"b", b"\x00", b"\xff", b"a\x00", b"aa", b"ba"];
    for x in samples.iter() {
        for y in samples.iter() {
            assert_eq!(bytes_less(x, y), x < y, "{:?} {:?}", x, y);
        }
    }
}

#[test]
fn shared_file_is_the_same_file() {
    let file = Rc::new(RelativePath::make(Prefix::Root, "shared.php".to_string()));
    let p = Pos::from_lnum_bol_cnum(Rc::clone(&file), (1, 0, 0), (1, 0, 3));
    let q = p.clone();
    assert!(q.filename().same(&file));
    assert_eq!(q.filename().to_string(), "root shared.php");
    assert_eq!(Rc::strong_count(&file), 3);
    let wide = Pos::from_lnum_bol_cnum(Rc::clone(&file), (1, 0, 0), (1, 0, 3000));
    assert!(wide.clone().filename().same(&file));
}

#[test]
fn info_pos_is_refused_where_it_cannot_be_computed() {
    let file = Rc::new(RelativePath::make(Prefix::Root, "a".to_string()));
    let fine = Pos::from_lnum_bol_cnum(Rc::clone(&file), (1, 0, 4), (2, 20, 25));
    assert!(fine.has_info_pos());
    // The span ends before the line of its start begins.
    let backwards = Pos::from_lnum_bol_cnum(Rc::clone(&file), (2, 20, 25), (1, 0, 4));
    assert!(!backwards.has_info_pos());
    // The start column cannot be counted from one.
    let far = Pos::from_lnum_bol_cnum(Rc::clone(&file), (1, 0, usize::MAX), (1, 0, usize::MAX));
    assert!(!far.has_info_pos());
    assert!(Pos::make_none().has_info_pos());
}

#[test]
fn text_helpers() {
    let chars = chars_of("a<b>é\nc");
    assert_eq!(chars, vec!['a', '<', 'b', '>', 'é', '\n', 'c']);
    assert_eq!(chars_of(""), Vec::<char>::new());
    assert_eq!(find_from(&chars, '<', 0), 1);
    assert_eq!(find_from(&chars, '<', 1), 1);
    assert_eq!(find_from(&chars, '<', 2), 7);
    assert_eq!(find_from(&chars, 'c', 7), 7);
    assert_eq!(rfind_before(&chars, '>', 7), Some(3));
    assert_eq!(rfind_before(&chars, '>', 3), None);
    assert_eq!(rfind_before(&chars, 'a', 1), Some(0));
    assert_eq!(rfind_before(&chars, 'a', 0), None);
    let mut out = String::from("x");
    push_range(&mut out, &chars, 2, 5);
    assert_eq!(out, "xb>é");
    push_range(&mut out, &chars, 5, 5);
    assert_eq!(out, "xb>é");
    assert!(starts_with(&chars, "a<"));
    assert!(starts_with(&chars, ""));
    assert!(!starts_with(&chars, "a<c"));
    assert!(!starts_with(&chars, "a<b>é\ncd"));
    assert!(eq_chars(&chars, &chars_of("a<b>é\nc")));
    assert!(!eq_chars(&chars, &chars_of("A<b>é\nc")));
    assert!(eq_ignore_ascii_case(&chars, &chars_of("A<B>é\nC")));
    assert!(!eq_ignore_ascii_case(&chars, &chars_of("A<B>É\nC")));
    assert!(eq_ignore_ascii_case(&chars_of("az@[`{"), &chars_of("AZ@[`{")));
    assert!(!eq_ignore_ascii_case(&chars_of("@"), &chars_of("`")));
    assert!(!eq_ignore_ascii_case(&chars_of("["), &chars_of("{")));
}
