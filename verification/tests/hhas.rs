use std::collections::{BTreeMap, BTreeSet};

use hackc_front::decimal::decimal_string;
use hackc_front::errors::Errors;
use hackc_front::hhas_symbol_refs::{HhasSymbolRefs, IncludePath};
use hackc_front::hhas_type::constraint::{Flags, Type};
use hackc_front::hhas_type::Info;

#[test]
fn test_constraint_flags_to_string_called_by_hhbc_hhas() {
    let typevar_and_soft = Flags::from_bits_truncate(Flags::TYPE_VAR | Flags::SOFT);
    assert_eq!("type_var soft", typevar_and_soft.to_string());
    assert_eq!("hh_type", Flags::from_bits_truncate(Flags::HH_TYPE).to_string());
}

#[test]
fn flags_render_in_bit_order() {
    assert_eq!(
        Flags::all().to_string(),
        "nullable hh_type extended_hint type_var soft type_constant display_nullable"
    );
    assert_eq!(Flags::empty().to_string(), "(empty)");
    assert_eq!(Flags::default().to_string(), "(empty)");
    assert_eq!(
        Flags::from_bits_truncate(Flags::DISPLAY_NULLABLE | Flags::NULLABLE).to_string(),
        "nullable display_nullable"
    );
    assert_eq!(Flags::from_bits_truncate(Flags::TYPE_CONSTANT).to_string(), "type_constant");
    assert_eq!(Flags::from_bits_truncate(Flags::EXTENDED_HINT).to_string(), "extended_hint");
}

#[test]
fn flags_set_operations() {
    assert_eq!(Flags::from_bits(0b1000_0000), None);
    assert_eq!(Flags::from_bits(0b0001_0010).map(|f| f.bits()), Some(0b0001_0010));
    assert_eq!(Flags::from_bits_truncate(0xFF).bits(), 0x7F);
    assert_eq!(Flags::all().bits(), 0x7F);
    assert!(Flags::empty().is_empty());
    assert!(!Flags::all().is_empty());
    let soft = Flags::from_bits_truncate(Flags::SOFT);
    let nullable = Flags::from_bits_truncate(Flags::NULLABLE);
    let both = soft.union(nullable);
    assert_eq!(both.bits(), Flags::SOFT | Flags::NULLABLE);
    assert!(both.contains(soft));
    assert!(both.contains(nullable));
    assert!(!soft.contains(both));
    assert!(soft.contains(Flags::empty()));
    assert_eq!(both, Flags::from_bits_truncate(0b0001_0001));
}

#[test]
fn type_and_info_hold_what_they_are_given() {
    let flags = Flags::from_bits_truncate(Flags::HH_TYPE);
    let t = Type::make(Some("int".to_string()), flags);
    assert_eq!(t.name, Some("int".to_string()));
    assert_eq!(t.flags, flags);
    let info = Info::make(Some("?int".to_string()), t.clone());
    assert_eq!(info.user_type, Some("?int".to_string()));
    assert_eq!(info.type_constraint.name, Some("int".to_string()));
    assert_eq!(info.type_constraint.flags, flags);
    let copy = info.clone();
    assert_eq!(copy.user_type, info.user_type);
    assert_eq!(copy.type_constraint.name, info.type_constraint.name);
    let none = Type::default();
    assert_eq!(none.name, None);
    assert!(none.flags.is_empty());
    let bare = Info::make(None, Type::make(None, Flags::empty()));
    assert_eq!(bare.user_type, None);
}

#[test]
fn errors_start_empty() {
    let e = Errors::empty();
    assert!(e.is_empty());
    assert_eq!(e.len(), 0);
    assert!(e.clone().is_empty());
}

fn roots(pairs: &[(&str, &str)]) -> Option<BTreeMap<String, String>> {
    Some(pairs.iter().map(|(k, v)| (k.to_string(), v.to_string())).collect())
}

#[test]
fn include_below_root_is_resolved() {
    let unresolved = IncludePath::IncludeRootRelative("PHP_ROOT".to_string(), "foo/bar.php".to_string());
    let r = unresolved.into_doc_root_relative(roots(&[("OTHER", "x"), ("PHP_ROOT", "www")]));
    assert!(matches!(&r, IncludePath::DocRootRelative(p) if p == "www/foo/bar.php"), "{:?}", r);

    let unresolved = IncludePath::IncludeRootRelative("PHP_ROOT".to_string(), "foo/bar.php".to_string());
    let r = unresolved.into_doc_root_relative(roots(&[("PHP_ROOT", "/var/www")]));
    assert!(matches!(&r, IncludePath::Absolute(p) if p == "/var/www/foo/bar.php"), "{:?}", r);

    // An absolute path takes the place of the root.
    let unresolved = IncludePath::IncludeRootRelative("PHP_ROOT".to_string(), "/etc/x.php".to_string());
    let r = unresolved.into_doc_root_relative(roots(&[("PHP_ROOT", "www")]));
    assert!(matches!(&r, IncludePath::Absolute(p) if p == "/etc/x.php"), "{:?}", r);
}

#[test]
fn unknown_root_is_found_at_run_time() {
    let below = |var: &str| IncludePath::IncludeRootRelative(var.to_string(), "a.php".to_string());
    assert!(below("PHP_ROOT").try_into_doc_root_relative(None).is_none());
    assert!(below("PHP_ROOT").try_into_doc_root_relative(roots(&[])).is_none());
    assert!(below("PHP_ROOT").try_into_doc_root_relative(roots(&[("PHP_ROO", "x")])).is_none());
    assert!(below("php_root").try_into_doc_root_relative(roots(&[("PHP_ROOT", "x")])).is_none());
    let r = below("PHP_ROOT").try_into_doc_root_relative(roots(&[("PHP_ROOT", "www")]));
    assert!(matches!(&r, Some(IncludePath::DocRootRelative(p)) if p == "www/a.php"), "{:?}", r);
    let r = below("PHP_ROOT").try_into_doc_root_relative(roots(&[("PHP_ROOT", "/www")]));
    assert!(matches!(&r, Some(IncludePath::Absolute(p)) if p == "/www/a.php"), "{:?}", r);
    let r = IncludePath::Absolute("/a.php".to_string()).try_into_doc_root_relative(None);
    assert!(matches!(&r, Some(IncludePath::Absolute(p)) if p == "/a.php"));
    let r = IncludePath::SearchPathRelative("a".to_string()).try_into_doc_root_relative(None);
    assert!(matches!(&r, Some(IncludePath::SearchPathRelative(p)) if p == "a"));
}

#[test]
fn other_includes_stay_as_they_are() {
    let r = IncludePath::Absolute("/a.php".to_string()).into_doc_root_relative(None);
    assert!(matches!(&r, IncludePath::Absolute(p) if p == "/a.php"));
    let r = IncludePath::SearchPathRelative("a.php".to_string()).into_doc_root_relative(roots(&[]));
    assert!(matches!(&r, IncludePath::SearchPathRelative(p) if p == "a.php"));
    let r = IncludePath::DocRootRelative("a.php".to_string())
        .into_doc_root_relative(roots(&[("PHP_ROOT", "www")]));
    assert!(matches!(&r, IncludePath::DocRootRelative(p) if p == "a.php"));
}

#[test]
fn resolved_include_goes_by_the_flag() {
    assert!(matches!(
        IncludePath::resolved("a/b".to_string(), true),
        IncludePath::DocRootRelative(p) if p == "a/b"
    ));
    assert!(matches!(
        IncludePath::resolved("a/b".to_string(), false),
        IncludePath::Absolute(p) if p == "a/b"
    ));
    let c = IncludePath::IncludeRootRelative("V".to_string(), "l".to_string()).clone();
    assert!(matches!(c, IncludePath::IncludeRootRelative(v, l) if v == "V" && l == "l"));
}

#[test]
fn symbol_refs_hold_four_groups() {
    let mut functions = BTreeSet::new();
    functions.insert("f".to_string());
    let refs = HhasSymbolRefs {
        includes: BTreeSet::new(),
        constants: BTreeSet::new(),
        functions,
        classes: BTreeSet::new(),
    };
    assert!(refs.includes.is_empty());
    assert!(refs.functions.contains("f"));
    let copy = refs.clone();
    assert_eq!(copy.functions, refs.functions);
    assert!(copy.classes.is_empty());
}

#[test]
fn decimal_numerals() {
    assert_eq!(decimal_string(0), "0");
    assert_eq!(decimal_string(7), "7");
    assert_eq!(decimal_string(10), "10");
    assert_eq!(decimal_string(1234567890), "1234567890");
    assert_eq!(decimal_string(u64::MAX), "18446744073709551615");
}
