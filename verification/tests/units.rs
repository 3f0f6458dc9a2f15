//! The smaller verified pieces: numerals, demangling, progress, symbols.

use whload::demangle::{demangle_cpp_name, try_demangle};
use whload::errors::{LoadError, MalformedKind};
use whload::progress::Progress;
use whload::symbol::SymbolPart;
use whload::text::{parse_u64_chars, u64_to_string};

#[test]
fn decimal_rendering() {
    assert_eq!(u64_to_string(0), "0");
    assert_eq!(u64_to_string(7), "7");
    assert_eq!(u64_to_string(1234567890), "1234567890");
    assert_eq!(u64_to_string(u64::MAX), "18446744073709551615");
}

#[test]
fn decimal_parsing() {
    let parse = |s: &str| parse_u64_chars(&s.chars().collect::<Vec<char>>());
    assert_eq!(parse("0"), Some(0));
    assert_eq!(parse("42"), Some(42));
    assert_eq!(parse("+42"), Some(42));
    assert_eq!(parse("18446744073709551615"), Some(u64::MAX));
    assert_eq!(parse("18446744073709551616"), None);
    assert_eq!(parse(""), None);
    assert_eq!(parse("+"), None);
    assert_eq!(parse("4x"), None);
    assert_eq!(parse(" 4"), None);
    assert_eq!(parse("-4"), None);
}

#[test]
fn demangling_a_cpp_name() {
    assert_eq!(
        try_demangle("?f1@@YAXPBD0@Z").as_deref(),
        Some("void __cdecl f1(char const *, char const *)")
    );
    assert!(demangle_cpp_name("?f1@@YAXPBD0@Z").is_ok());
}

#[test]
fn demangling_a_plain_name_yields_nothing() {
    assert!(try_demangle("CreateFileW").is_none());
    assert!(demangle_cpp_name("CreateFileW").is_err());
}

#[test]
fn progress_is_strictly_increasing() {
    let mut p = Progress::new(3);
    assert_eq!(p.note_bytes(1), Some(333));
    assert_eq!(p.note_bytes(1), Some(666));
    assert_eq!(p.note_bytes(1), Some(1000));
}

#[test]
fn progress_reports_only_on_increase() {
    let mut p = Progress::new(10000);
    assert_eq!(p.note_bytes(1), None);
    assert_eq!(p.note_bytes(9), Some(1));
    assert_eq!(p.note_bytes(5), None);
    assert_eq!(p.note_bytes(5), Some(2));
    assert_eq!(p.note_bytes(9980), Some(1000));
}

#[test]
fn symbol_part_accessors() {
    let named = SymbolPart::Named {
        raw_name: "CreateFileW".to_string(),
        friendly_name: None,
    };
    assert_eq!(named.raw_name(), Some("CreateFileW"));
    assert_eq!(named.dll_pair(), None);
    assert_eq!(named.friendly_name(), None);
    assert_eq!(named.friendly_name_or_generate(), "CreateFileW");

    let pretty = SymbolPart::Named {
        raw_name: "?f@@YAXH@Z".to_string(),
        friendly_name: Some("void f(int)".to_string()),
    };
    assert_eq!(pretty.friendly_name(), Some("void f(int)"));
    assert_eq!(pretty.friendly_name_or_generate(), "void f(int)");

    let ordinal = SymbolPart::DllOrdinal {
        dll_name: "kernel32.dll".to_string(),
        ordinal: 7,
        friendly_name: None,
    };
    assert_eq!(ordinal.raw_name(), None);
    assert_eq!(ordinal.dll_pair(), Some(("kernel32.dll", 7)));
    assert_eq!(ordinal.friendly_name_or_generate(), "kernel32.dll#7");

    let overridden = SymbolPart::DllOrdinal {
        dll_name: "kernel32.dll".to_string(),
        ordinal: 7,
        friendly_name: Some("SevenByOrdinal".to_string()),
    };
    assert_eq!(overridden.friendly_name_or_generate(), "SevenByOrdinal");
}

#[test]
fn error_messages_name_the_condition() {
    let m = LoadError::Malformed(MalformedKind::BadOrdinal).message();
    assert_eq!(m, "failed to parse ordinal");
    let s = LoadError::StoreWrite { detail: "locked".to_string() }.message();
    assert_eq!(s, "failed to write to the store: locked");
}
