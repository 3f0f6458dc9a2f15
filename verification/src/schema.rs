//! The schema check run at startup: before any data manipulation, the store must carry a
//! recognized, versioned schema; at most one forward migration step is
//! applied.

use vstd::prelude::*;
use crate::errors::LoadError;
use crate::store::{store_model, store_saved, store_in_txn, fresh_model, sqlite_version_exists,
    sqlite_read_version, sqlite_init_schema, sqlite_migrate_to_current};

verus! {

/// The highest schema version this loader understands.
pub const MAX_SUPPORTED_SCHEMA: i64 = 2;

/// What a schema version calls for.
#[derive(Clone, Copy, Debug, PartialEq, Eq, Structural)]
pub enum SchemaAction {
    /// Version at or below zero: corrupt store, abort the whole run.
    Corrupt,
    /// Exactly the prior release: apply the one known migration step.
    Migrate,
    /// A version this loader understands as-is.
    Current,
    /// Newer than this loader: accepted with a warning, best effort.
    Future,
}

pub open spec fn spec_classify_version(v: i64) -> SchemaAction {
    if v <= 0 {
        SchemaAction::Corrupt
    } else if v == 1 {
        SchemaAction::Migrate
    } else if v <= MAX_SUPPORTED_SCHEMA {
        SchemaAction::Current
    } else {
        SchemaAction::Future
    }
}

/// Classifies a schema version read from a store.
pub fn classify_version(v: i64) -> (a: SchemaAction)
    ensures
        a == spec_classify_version(v),
{
    if v <= 0 {
        SchemaAction::Corrupt
    } else if v == 1 {
        SchemaAction::Migrate
    } else if v <= MAX_SUPPORTED_SCHEMA {
        SchemaAction::Current
    } else {
        SchemaAction::Future
    }
}

/// The state in which `ensure_schema` leaves the store.
#[derive(Clone, Copy, Debug, PartialEq, Eq, Structural)]
pub enum SchemaOutcome {
    /// No version marker existed: the baseline schema was applied.
    Fresh,
    /// The store was at the prior version and was upgraded in place.
    Migrated,
    /// The store was already at a supported version.
    Current,
    /// The store's version is newer than this loader understands; it is
    /// accepted as-is and the caller should warn.  Carries that version.
    Future(i64),
}

/// Ensures the store has a recognized, versioned schema: applies the
/// baseline definition to a store without one, upgrades a prior-version
/// store by one step, rejects a corrupt version, and accepts a future
/// version with a warning to the caller.  Runs before the load transaction;
/// what it applies is durable on its own.
pub fn ensure_schema(c: &mut rusqlite::Connection) -> (r: Result<SchemaOutcome, LoadError>)
    requires
        !store_in_txn(*old(c)),
        store_saved(*old(c)) == store_model(*old(c)),
    ensures
        !store_in_txn(*final(c)),
        store_saved(*final(c)) == store_model(*final(c)),
        r matches Ok(o) ==> store_model(*final(c)).has_version,
        r matches Ok(SchemaOutcome::Fresh) ==> !store_model(*old(c)).has_version && store_model(
            *final(c),
        ) == fresh_model(),
        r matches Ok(SchemaOutcome::Migrated) ==> store_model(*old(c)).has_version
            && spec_classify_version(store_model(*old(c)).version) == SchemaAction::Migrate
            && store_model(*final(c)).version == MAX_SUPPORTED_SCHEMA,
        r matches Ok(SchemaOutcome::Current) ==> store_model(*old(c)).has_version
            && spec_classify_version(store_model(*old(c)).version) == SchemaAction::Current
            && store_model(*final(c)) == store_model(*old(c)),
        r matches Ok(SchemaOutcome::Future(v)) ==> store_model(*old(c)).has_version && v
            == store_model(*old(c)).version && spec_classify_version(v) == SchemaAction::Future
            && store_model(*final(c)) == store_model(*old(c)),
        r matches Err(LoadError::SchemaInvalid(v)) ==> store_model(*old(c)).has_version && v
            == store_model(*old(c)).version && spec_classify_version(v) == SchemaAction::Corrupt,
        r matches Err(e) ==> e is SchemaInvalid || e is StoreUnavailable,
{
    let exists_already = match sqlite_version_exists(c) {
        Ok(b) => b,
        Err(detail) => {
            return Err(LoadError::StoreUnavailable { detail });
        },
    };
    if !exists_already {
        match sqlite_init_schema(c) {
            Ok(()) => {},
            Err(detail) => {
                return Err(LoadError::StoreUnavailable { detail });
            },
        }
        return Ok(SchemaOutcome::Fresh);
    }
    let version = match sqlite_read_version(c) {
        Ok(v) => v,
        Err(detail) => {
            return Err(LoadError::StoreUnavailable { detail });
        },
    };
    match classify_version(version) {
        SchemaAction::Corrupt => Err(LoadError::SchemaInvalid(version)),
        SchemaAction::Migrate => {
            match sqlite_migrate_to_current(c) {
                Ok(()) => Ok(SchemaOutcome::Migrated),
                Err(detail) => Err(LoadError::StoreUnavailable { detail }),
            }
        },
        SchemaAction::Current => Ok(SchemaOutcome::Current),
        SchemaAction::Future => Ok(SchemaOutcome::Future(version)),
    }
}

} // verus!
