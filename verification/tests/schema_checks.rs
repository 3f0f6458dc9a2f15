//! The schema check over stores in various version states.

use whload::errors::LoadError;
use whload::loader::open_memory_store;
use whload::schema::{classify_version, ensure_schema, SchemaAction, SchemaOutcome};

fn version_of(c: &rusqlite::Connection) -> i64 {
    c.query_row("SELECT ver FROM schema_version", [], |r| r.get(0)).unwrap()
}

#[test]
fn fresh_store_gets_baseline_schema() {
    let mut c = open_memory_store().unwrap();
    assert_eq!(ensure_schema(&mut c).unwrap(), SchemaOutcome::Fresh);
    assert_eq!(version_of(&c), 2);
    // All tables exist and are empty.
    let n: i64 = c.query_row("SELECT COUNT(*) FROM symbols", [], |r| r.get(0)).unwrap();
    assert_eq!(n, 0);
}

#[test]
fn current_store_is_accepted_unchanged() {
    let mut c = open_memory_store().unwrap();
    ensure_schema(&mut c).unwrap();
    assert_eq!(ensure_schema(&mut c).unwrap(), SchemaOutcome::Current);
    assert_eq!(version_of(&c), 2);
}

#[test]
fn corrupt_version_is_fatal() {
    let mut c = open_memory_store().unwrap();
    c.execute_batch("CREATE TABLE schema_version (ver INTEGER NOT NULL); INSERT INTO schema_version (ver) VALUES (0);")
        .unwrap();
    let e = ensure_schema(&mut c).unwrap_err();
    assert!(matches!(e, LoadError::SchemaInvalid(0)));
}

#[test]
fn negative_version_is_fatal() {
    let mut c = open_memory_store().unwrap();
    c.execute_batch("CREATE TABLE schema_version (ver INTEGER NOT NULL); INSERT INTO schema_version (ver) VALUES (-3);")
        .unwrap();
    let e = ensure_schema(&mut c).unwrap_err();
    assert!(matches!(e, LoadError::SchemaInvalid(-3)));
}

#[test]
fn prior_version_is_migrated_in_place() {
    let mut c = open_memory_store().unwrap();
    c.execute_batch("CREATE TABLE schema_version (ver INTEGER NOT NULL); INSERT INTO schema_version (ver) VALUES (1);")
        .unwrap();
    assert_eq!(ensure_schema(&mut c).unwrap(), SchemaOutcome::Migrated);
    assert_eq!(version_of(&c), 2);
}

#[test]
fn future_version_is_accepted_with_warning() {
    let mut c = open_memory_store().unwrap();
    c.execute_batch("CREATE TABLE schema_version (ver INTEGER NOT NULL); INSERT INTO schema_version (ver) VALUES (9);")
        .unwrap();
    assert_eq!(ensure_schema(&mut c).unwrap(), SchemaOutcome::Future(9));
    assert_eq!(version_of(&c), 9);
}

#[test]
fn version_classification() {
    assert_eq!(classify_version(-1), SchemaAction::Corrupt);
    assert_eq!(classify_version(0), SchemaAction::Corrupt);
    assert_eq!(classify_version(1), SchemaAction::Migrate);
    assert_eq!(classify_version(2), SchemaAction::Current);
    assert_eq!(classify_version(3), SchemaAction::Future);
    assert_eq!(classify_version(i64::MAX), SchemaAction::Future);
}
