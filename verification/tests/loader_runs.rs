//! End-to-end loader runs against an in-memory SQLite store.

use whload::demangle::MsvcDemangler;
use whload::errors::{LoadError, MalformedKind};
use whload::loader::{open_memory_store, run_load};
use whload::schema::{ensure_schema, SchemaOutcome};

fn fresh_store() -> rusqlite::Connection {
    let mut c = open_memory_store().unwrap();
    let outcome = ensure_schema(&mut c).unwrap();
    assert_eq!(outcome, SchemaOutcome::Fresh);
    c
}

fn count(c: &rusqlite::Connection, table: &str) -> i64 {
    let sql = format!("SELECT COUNT(*) FROM {}", table);
    c.query_row(&sql, [], |r| r.get(0)).unwrap()
}

fn counts(c: &rusqlite::Connection) -> (i64, i64, i64, i64) {
    (
        count(c, "operating_systems"),
        count(c, "dlls"),
        count(c, "symbols"),
        count(c, "symbol_dll_os"),
    )
}

#[test]
fn end_to_end_example() {
    let mut c = fresh_store();
    let lines = vec![
        "[\"win10\\\\kernel32.dll\"]\t\tCreateFileW".to_string(),
        "[\"win10\\\\kernel32.dll\"]\t7\t".to_string(),
    ];
    run_load(&mut c, &MsvcDemangler, &lines).unwrap();
    assert_eq!(counts(&c), (1, 1, 2, 2));
    let os: String = c
        .query_row("SELECT short_name FROM operating_systems", [], |r| r.get(0))
        .unwrap();
    assert_eq!(os, "win10");
    let dll: String = c.query_row("SELECT path FROM dlls", [], |r| r.get(0)).unwrap();
    assert_eq!(dll, "kernel32.dll");
    let named: String = c
        .query_row(
            "SELECT raw_name FROM symbols WHERE raw_name IS NOT NULL",
            [],
            |r| r.get(0),
        )
        .unwrap();
    assert_eq!(named, "CreateFileW");
    let (dll_name, ordinal): (String, i64) = c
        .query_row(
            "SELECT dll_name, ordinal FROM symbols WHERE raw_name IS NULL",
            [],
            |r| Ok((r.get(0)?, r.get(1)?)),
        )
        .unwrap();
    assert_eq!(dll_name, "kernel32.dll");
    assert_eq!(ordinal, 7);
}

#[test]
fn ingest_twice_is_idempotent() {
    let mut c = fresh_store();
    let lines = vec![
        "[\"win10\\\\sys\\\\foo.dll\"]\t\tAlpha".to_string(),
        "[\"win10\\\\sys\\\\foo.dll\"]\t5\t".to_string(),
        "".to_string(),
        "[\"win11\\\\bar.dll\"]\t12\tBeta".to_string(),
        "[\"win10\\\\sys\\\\foo.dll\"]\t\tAlpha".to_string(),
    ];
    run_load(&mut c, &MsvcDemangler, &lines).unwrap();
    let first = counts(&c);
    run_load(&mut c, &MsvcDemangler, &lines).unwrap();
    let second = counts(&c);
    assert_eq!(first, second);
}

#[test]
fn ordinal_identity_is_scoped_to_bare_filename() {
    let mut c = fresh_store();
    let lines = vec![
        "[\"win10\\\\sys\\\\foo.dll\"]\t5\t".to_string(),
        "[\"win11\\\\other\\\\foo.dll\"]\t5\t".to_string(),
    ];
    run_load(&mut c, &MsvcDemangler, &lines).unwrap();
    let (os, dlls, symbols, rels) = counts(&c);
    assert_eq!(symbols, 1);
    assert_eq!(dlls, 2);
    assert_eq!(os, 2);
    assert_eq!(rels, 2);
}

#[test]
fn name_takes_priority_over_ordinal() {
    let mut c = fresh_store();
    let lines = vec!["[\"win10\\\\a.dll\"]\t3\tFunc".to_string()];
    run_load(&mut c, &MsvcDemangler, &lines).unwrap();
    let raw: String = c.query_row("SELECT raw_name FROM symbols", [], |r| r.get(0)).unwrap();
    assert_eq!(raw, "Func");
    let dll_name: Option<String> = c
        .query_row("SELECT dll_name FROM symbols", [], |r| r.get(0))
        .unwrap();
    assert!(dll_name.is_none());
    let rel_ordinal: i64 = c
        .query_row("SELECT ordinal FROM symbol_dll_os", [], |r| r.get(0))
        .unwrap();
    assert_eq!(rel_ordinal, 3);
}

#[test]
fn neither_name_nor_ordinal_is_fatal() {
    let mut c = fresh_store();
    let lines = vec!["[\"win10\\\\a.dll\"]\t\t".to_string()];
    let e = run_load(&mut c, &MsvcDemangler, &lines).unwrap_err();
    assert!(matches!(
        e,
        LoadError::Malformed(MalformedKind::NoIdentity)
    ));
}

#[test]
fn case_and_separator_normalization() {
    let mut c = fresh_store();
    let lines = vec![
        "[\"Win32/System32/Foo.DLL\"]\t\tThing".to_string(),
        "[\"win32\\\\system32\\\\foo.dll\"]\t\tThing".to_string(),
    ];
    run_load(&mut c, &MsvcDemangler, &lines).unwrap();
    let (os, dlls, symbols, rels) = counts(&c);
    assert_eq!((os, dlls, symbols, rels), (1, 1, 1, 1));
    let short: String = c
        .query_row("SELECT short_name FROM operating_systems", [], |r| r.get(0))
        .unwrap();
    assert_eq!(short, "win32");
    let path: String = c.query_row("SELECT path FROM dlls", [], |r| r.get(0)).unwrap();
    assert_eq!(path, "system32\\foo.dll");
}

#[test]
fn malformed_record_aborts_whole_run() {
    let mut c = fresh_store();
    let lines = vec![
        "[\"win10\\\\a.dll\"]\t\tGood".to_string(),
        "only two\tfields".to_string(),
        "[\"win10\\\\b.dll\"]\t\tNever".to_string(),
    ];
    let e = run_load(&mut c, &MsvcDemangler, &lines).unwrap_err();
    assert!(matches!(
        e,
        LoadError::Malformed(MalformedKind::FieldCount)
    ));
    // The aborted run never commits: once its transaction is gone, nothing
    // of records before the malformed one is visible.
    c.execute_batch("ROLLBACK").unwrap();
    assert_eq!(counts(&c), (0, 0, 0, 0));
}

#[test]
fn duplicate_fact_in_one_run_is_absorbed() {
    let mut c = fresh_store();
    let lines = vec![
        "[\"win10\\\\a.dll\"]\t9\t".to_string(),
        "[\"win10\\\\a.dll\"]\t9\t".to_string(),
    ];
    run_load(&mut c, &MsvcDemangler, &lines).unwrap();
    assert_eq!(count(&c, "symbol_dll_os"), 1);
}

#[test]
fn duplicate_named_fact_without_ordinal_is_absorbed() {
    let mut c = fresh_store();
    let lines = vec![
        "[\"win10\\\\a.dll\"]\t\tSame".to_string(),
        "[\"win10\\\\a.dll\"]\t\tSame".to_string(),
    ];
    run_load(&mut c, &MsvcDemangler, &lines).unwrap();
    assert_eq!(count(&c, "symbol_dll_os"), 1);
}

#[test]
fn mangled_name_gets_friendly_name_at_creation() {
    let mut c = fresh_store();
    let lines = vec!["[\"win10\\\\c.dll\"]\t\t?f1@@YAXPBD0@Z".to_string()];
    run_load(&mut c, &MsvcDemangler, &lines).unwrap();
    let friendly: Option<String> = c
        .query_row("SELECT friendly_name FROM symbols", [], |r| r.get(0))
        .unwrap();
    assert_eq!(
        friendly.as_deref(),
        Some("void __cdecl f1(char const *, char const *)")
    );
}

#[test]
fn unmangled_name_gets_no_friendly_name() {
    let mut c = fresh_store();
    let lines = vec!["[\"win10\\\\c.dll\"]\t\tPlainName".to_string()];
    run_load(&mut c, &MsvcDemangler, &lines).unwrap();
    let friendly: Option<String> = c
        .query_row("SELECT friendly_name FROM symbols", [], |r| r.get(0))
        .unwrap();
    assert!(friendly.is_none());
}

#[test]
fn secondary_platform_is_false_and_long_name_null() {
    let mut c = fresh_store();
    let lines = vec!["[\"win10\\\\a.dll\"]\t1\t".to_string()];
    run_load(&mut c, &MsvcDemangler, &lines).unwrap();
    let secondary: bool = c
        .query_row("SELECT secondary_platform FROM dlls", [], |r| r.get(0))
        .unwrap();
    assert!(!secondary);
    let long: Option<String> = c
        .query_row("SELECT long_name FROM operating_systems", [], |r| r.get(0))
        .unwrap();
    assert!(long.is_none());
}

#[test]
fn blank_lines_are_skipped() {
    let mut c = fresh_store();
    let lines = vec![
        "".to_string(),
        "\r\n".to_string(),
        "[\"win10\\\\a.dll\"]\t1\t".to_string(),
        "\n".to_string(),
    ];
    run_load(&mut c, &MsvcDemangler, &lines).unwrap();
    assert_eq!(count(&c, "symbol_dll_os"), 1);
}

#[test]
fn streaming_matches_whole_run() {
    let lines = vec![
        "[\"win10\\\\sys\\\\foo.dll\"]\t\tAlpha".to_string(),
        "[\"win10\\\\sys\\\\foo.dll\"]\t5\t".to_string(),
        "[\"win11\\\\bar.dll\"]\t12\tBeta".to_string(),
    ];

    let mut batch = fresh_store();
    run_load(&mut batch, &MsvcDemangler, &lines).unwrap();

    let mut streamed = fresh_store();
    whload::loader::begin_load(&mut streamed).unwrap();
    let mut caches = whload::loader::Caches::new();
    for line in &lines {
        whload::loader::process_line(&mut streamed, &mut caches, &MsvcDemangler, line).unwrap();
    }
    whload::loader::finish_load(&mut streamed).unwrap();

    assert_eq!(counts(&batch), counts(&streamed));
    let names = |c: &rusqlite::Connection| -> Vec<String> {
        let mut stmt = c
            .prepare("SELECT short_name FROM operating_systems ORDER BY short_name")
            .unwrap();
        let rows = stmt.query_map([], |r| r.get(0)).unwrap();
        rows.map(|r| r.unwrap()).collect()
    };
    assert_eq!(names(&batch), names(&streamed));
}

#[test]
fn unavailable_store_is_reported() {
    let e = whload::loader::open_store("/surely-missing-directory/db.sqlite").unwrap_err();
    assert!(matches!(e, LoadError::StoreUnavailable { .. }));
}

#[test]
fn store_write_failure_is_reported_with_context() {
    let mut c = fresh_store();
    whload::loader::begin_load(&mut c).unwrap();
    c.execute_batch("DROP TABLE symbols").unwrap();
    let mut caches = whload::loader::Caches::new();
    let e = whload::loader::process_line(
        &mut c,
        &mut caches,
        &MsvcDemangler,
        "[\"win10\\\\a.dll\"]\t\tGone",
    )
    .unwrap_err();
    match e {
        LoadError::StoreWrite { detail } => {
            assert!(detail.contains("os win10"));
            assert!(detail.contains("dll a.dll"));
            assert!(detail.contains("symbol Gone"));
        },
        other => panic!("unexpected error: {:?}", other),
    }
}

#[test]
fn blank_line_is_never_an_error() {
    let mut c = fresh_store();
    whload::loader::begin_load(&mut c).unwrap();
    let mut caches = whload::loader::Caches::new();
    whload::loader::process_line(&mut c, &mut caches, &MsvcDemangler, "").unwrap();
    whload::loader::process_line(&mut c, &mut caches, &MsvcDemangler, "\r\n").unwrap();
    whload::loader::finish_load(&mut c).unwrap();
    assert_eq!(counts(&c), (0, 0, 0, 0));
}
