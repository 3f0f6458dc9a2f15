//! The line parser and path normalizer on concrete records.

use whload::errors::MalformedKind;
use whload::norm::normalize_path;
use whload::parse::parse_line;

#[test]
fn blank_lines_parse_to_nothing() {
    assert!(parse_line("").unwrap().is_none());
    assert!(parse_line("\r\n").unwrap().is_none());
    assert!(parse_line("\n\n").unwrap().is_none());
}

#[test]
fn wrong_field_count_is_fatal() {
    assert_eq!(parse_line("one field").unwrap_err(), MalformedKind::FieldCount);
    assert_eq!(parse_line("a\tb").unwrap_err(), MalformedKind::FieldCount);
    assert_eq!(parse_line("a\tb\tc\td").unwrap_err(), MalformedKind::FieldCount);
}

#[test]
fn invalid_json_is_fatal() {
    assert_eq!(parse_line("notjson\t\tX").unwrap_err(), MalformedKind::BadJson);
    assert_eq!(parse_line("{\"a\":1}\t\tX").unwrap_err(), MalformedKind::BadJson);
}

#[test]
fn wrong_array_arity_is_fatal() {
    assert_eq!(parse_line("[]\t\tX").unwrap_err(), MalformedKind::PathArity);
    assert_eq!(
        parse_line("[\"a\\\\b\", \"c\\\\d\"]\t\tX").unwrap_err(),
        MalformedKind::PathArity
    );
}

#[test]
fn unparsable_ordinal_is_fatal() {
    assert_eq!(parse_line("[\"a\\\\b\"]\tzz\tX").unwrap_err(), MalformedKind::BadOrdinal);
    assert_eq!(parse_line("[\"a\\\\b\"]\t-1\tX").unwrap_err(), MalformedKind::BadOrdinal);
    assert_eq!(parse_line("[\"a\\\\b\"]\t1 \tX").unwrap_err(), MalformedKind::BadOrdinal);
    // One past the largest value a u64 holds.
    assert_eq!(
        parse_line("[\"a\\\\b\"]\t18446744073709551616\tX").unwrap_err(),
        MalformedKind::BadOrdinal
    );
}

#[test]
fn short_path_is_fatal() {
    assert_eq!(parse_line("[\"solo\"]\t\tX").unwrap_err(), MalformedKind::ShortPath);
    assert_eq!(parse_line("[\"\"]\t\tX").unwrap_err(), MalformedKind::ShortPath);
}

#[test]
fn missing_identity_is_fatal() {
    assert_eq!(parse_line("[\"a\\\\b\"]\t\t").unwrap_err(), MalformedKind::NoIdentity);
}

#[test]
fn well_formed_record_is_normalized() {
    let rec = parse_line("[\"A/B\"]\t+7\tN").unwrap().unwrap();
    assert_eq!(rec.path.os_key, "a");
    assert_eq!(rec.path.dll_key, "b");
    assert_eq!(rec.path.bare_dll, "b");
    assert_eq!(rec.ordinal, Some(7));
    assert_eq!(rec.name.as_deref(), Some("N"));
}

#[test]
fn largest_ordinal_is_accepted() {
    let rec = parse_line("[\"a\\\\b\"]\t18446744073709551615\t").unwrap().unwrap();
    assert_eq!(rec.ordinal, Some(u64::MAX));
}

#[test]
fn trailing_line_endings_are_stripped() {
    let rec = parse_line("[\"a\\\\b\"]\t\tX\r\n").unwrap().unwrap();
    assert_eq!(rec.name.as_deref(), Some("X"));
}

#[test]
fn name_is_kept_exactly_ordinal_observed() {
    let rec = parse_line("[\"Win10\\\\Kernel32.DLL\"]\t4\tMixedCase_Name".to_string().as_str())
        .unwrap()
        .unwrap();
    // The raw name is never normalized; the path is.
    assert_eq!(rec.name.as_deref(), Some("MixedCase_Name"));
    assert_eq!(rec.path.os_key, "win10");
    assert_eq!(rec.path.dll_key, "kernel32.dll");
    assert_eq!(rec.ordinal, Some(4));
}

#[test]
fn normalization_lowercases_and_unifies_separators() {
    let np = normalize_path("Win32/System32/Foo.DLL").unwrap();
    assert_eq!(np.os_key, "win32");
    assert_eq!(np.dll_key, "system32\\foo.dll");
    assert_eq!(np.bare_dll, "foo.dll");

    let np2 = normalize_path("win32\\system32\\foo.dll").unwrap();
    assert_eq!(np2.os_key, np.os_key);
    assert_eq!(np2.dll_key, np.dll_key);
    assert_eq!(np2.bare_dll, np.bare_dll);
}

#[test]
fn normalization_keeps_empty_segments() {
    let np = normalize_path("win10\\\\foo.dll").unwrap();
    assert_eq!(np.os_key, "win10");
    assert_eq!(np.dll_key, "\\foo.dll");
    assert_eq!(np.bare_dll, "foo.dll");
}

#[test]
fn normalization_rejects_single_segment() {
    assert!(normalize_path("lonely.dll").is_none());
    assert!(normalize_path("").is_none());
}

#[test]
fn normalization_handles_non_ascii_case() {
    let np = normalize_path("WIN10/Éclair/Foo.DLL").unwrap();
    assert_eq!(np.os_key, "win10");
    assert_eq!(np.dll_key, "éclair\\foo.dll");
}
