//! The store: a SQLite database holding the relational model, reached
//! through a small set of trusted operations.
//!
//! Contracts speak of a store through three names: `store_model`, the table
//! contents as the current connection sees them; `store_saved`, the durable
//! contents a reopened connection would see; and `store_in_txn`, whether a
//! transaction is open.  Outside a transaction the two models coincide;
//! inside one, writes move only `store_model`, and only a successful commit
//! moves `store_saved`.  Every operation is a single SQL statement against
//! the schema this module creates.

use vstd::prelude::*;
use rusqlite::OptionalExtension;

verus! {

#[verifier::external_type_specification]
#[verifier::external_body]
pub struct ExConnection(rusqlite::Connection);

/// The relational contents of a store, as contracts speak of them: the
/// schema-version marker, each entity table as a map from natural key to
/// surrogate ID (with its payload columns beside it), and the relationship
/// table as a set of facts.
#[verifier::ext_equal]
pub struct StoreModel {
    /// Whether the schema-version marker table exists.
    pub has_version: bool,
    /// The version the marker holds, where it holds exactly one row.
    pub version: i64,
    /// `operating_systems`: short name, case-normalized, to `os_id`.
    pub os: Map<Seq<char>, i64>,
    /// `operating_systems.long_name` by short name.
    pub os_long: Map<Seq<char>, Option<Seq<char>>>,
    /// `dlls`: normalized backslash-separated path to `dll_id`.
    pub dlls: Map<Seq<char>, i64>,
    /// `dlls.secondary_platform` by path.
    pub dll_secondary: Map<Seq<char>, bool>,
    /// `symbols`, named variant: raw name, exactly as encountered, to
    /// `sym_id`.
    pub named: Map<Seq<char>, i64>,
    /// `symbols.friendly_name` by raw name.
    pub named_friendly: Map<Seq<char>, Option<Seq<char>>>,
    /// `symbols`, ordinal variant: bare DLL filename and ordinal to
    /// `sym_id`.
    pub ord: Map<(Seq<char>, u64), i64>,
    /// `symbol_dll_os`: the facts `(sym_id, dll_id, os_id, ordinal)`.
    pub rels: Set<(i64, i64, i64, Option<u64>)>,
}

impl StoreModel {
    /// No operating-system row carries `id`.
    pub open spec fn os_id_fresh(self, id: i64) -> bool {
        forall|k: Seq<char>| self.os.contains_key(k) ==> self.os[k] != id
    }

    /// No DLL row carries `id`.
    pub open spec fn dll_id_fresh(self, id: i64) -> bool {
        forall|k: Seq<char>| self.dlls.contains_key(k) ==> self.dlls[k] != id
    }

    /// No symbol row of either variant carries `id`.
    pub open spec fn sym_id_fresh(self, id: i64) -> bool {
        &&& forall|k: Seq<char>| self.named.contains_key(k) ==> self.named[k] != id
        &&& forall|k: (Seq<char>, u64)| self.ord.contains_key(k) ==> self.ord[k] != id
    }

    /// The model after a new operating-system row, with no long name.
    pub open spec fn with_os(self, k: Seq<char>, id: i64) -> StoreModel {
        StoreModel { os: self.os.insert(k, id), os_long: self.os_long.insert(k, None), ..self }
    }

    /// The model after a new DLL row.
    pub open spec fn with_dll(self, k: Seq<char>, id: i64, secondary: bool) -> StoreModel {
        StoreModel {
            dlls: self.dlls.insert(k, id),
            dll_secondary: self.dll_secondary.insert(k, secondary),
            ..self
        }
    }

    /// The model after a new named-symbol row.
    pub open spec fn with_named(self, k: Seq<char>, id: i64, friendly: Option<Seq<char>>) -> StoreModel {
        StoreModel {
            named: self.named.insert(k, id),
            named_friendly: self.named_friendly.insert(k, friendly),
            ..self
        }
    }

    /// The model after a new ordinal-symbol row, which never has a friendly
    /// name at creation.
    pub open spec fn with_ord(self, k: (Seq<char>, u64), id: i64) -> StoreModel {
        StoreModel { ord: self.ord.insert(k, id), ..self }
    }

    /// The model after recording a relationship fact; a duplicate is
    /// silently absorbed.
    pub open spec fn with_rel(self, f: (i64, i64, i64, Option<u64>)) -> StoreModel {
        StoreModel { rels: self.rels.insert(f), ..self }
    }
}

/// A fresh store: version 2, every table empty.
pub open spec fn fresh_model() -> StoreModel {
    StoreModel {
        has_version: true,
        version: 2,
        os: Map::empty(),
        os_long: Map::empty(),
        dlls: Map::empty(),
        dll_secondary: Map::empty(),
        named: Map::empty(),
        named_friendly: Map::empty(),
        ord: Map::empty(),
        rels: Set::empty(),
    }
}

/// The binding of `k` in `m`, if any.
pub open spec fn map_get<K, V>(m: Map<K, V>, k: K) -> Option<V> {
    if m.contains_key(k) {
        Some(m[k])
    } else {
        None
    }
}

/// The table contents the given connection currently sees.
pub uninterp spec fn store_model(c: rusqlite::Connection) -> StoreModel;

/// The durable table contents: what a reopened connection would see.
pub uninterp spec fn store_saved(c: rusqlite::Connection) -> StoreModel;

/// Whether the connection has a transaction open.
pub uninterp spec fn store_in_txn(c: rusqlite::Connection) -> bool;

/// Relies on `rusqlite::Connection::open_with_flags` with the read-write,
/// create, extended-result-code and no-mutex flags: opens the database at
/// `path`, with no transaction open.
#[verifier::external_body]
pub(crate) fn sqlite_open(path: &str) -> (r: Result<rusqlite::Connection, String>)
    ensures
        r matches Ok(c) ==> !store_in_txn(c) && store_model(c) == store_saved(c),
{
    rusqlite::Connection::open_with_flags(
        path,
        rusqlite::OpenFlags::SQLITE_OPEN_READ_WRITE | rusqlite::OpenFlags::SQLITE_OPEN_CREATE
            | rusqlite::OpenFlags::SQLITE_OPEN_EXRESCODE | rusqlite::OpenFlags::SQLITE_OPEN_NO_MUTEX,
    ).map_err(|e| e.to_string())
}

/// Relies on `rusqlite::Connection::open_in_memory`: opens a fresh private
/// database with no tables at all, and no transaction open.
#[verifier::external_body]
pub(crate) fn sqlite_open_memory() -> (r: Result<rusqlite::Connection, String>)
    ensures
        r matches Ok(c) ==> !store_in_txn(c) && store_model(c) == store_saved(c) && !store_model(
            c,
        ).has_version,
{
    rusqlite::Connection::open_in_memory().map_err(|e| e.to_string())
}

/// Relies on `rusqlite::Connection::table_exists`: whether the table
/// `schema_version` exists in the database.
#[verifier::external_body]
pub(crate) fn sqlite_version_exists(c: &rusqlite::Connection) -> (r: Result<bool, String>)
    ensures
        r matches Ok(b) ==> b == store_model(*c).has_version,
{
    c.table_exists(None::<&str>, "schema_version").map_err(|e| e.to_string())
}

/// Relies on `rusqlite::Connection::query_one` running `SELECT ver FROM
/// schema_version`: the version the single marker row holds.
#[verifier::external_body]
pub(crate) fn sqlite_read_version(c: &rusqlite::Connection) -> (r: Result<i64, String>)
    ensures
        r matches Ok(v) ==> store_model(*c).has_version && v == store_model(*c).version,
{
    c.query_one("SELECT ver FROM schema_version", [], |row| row.get(0)).map_err(|e| e.to_string())
}

/// Relies on `rusqlite::Connection::execute_batch` running the baseline
/// schema definition: creates `schema_version` (marked 2),
/// `operating_systems`, `dlls`, `symbols` and `symbol_dll_os`, each with the
/// unique natural-key constraints the model states, and a unique index on
/// the full relationship tuple that treats an absent ordinal as one value,
/// so that duplicate facts are absorbed.  Runs outside any transaction;
/// each statement is durable on its own.
#[verifier::external_body]
pub(crate) fn sqlite_init_schema(c: &mut rusqlite::Connection) -> (r: Result<(), String>)
    requires
        !store_in_txn(*old(c)),
    ensures
        r is Ok ==> store_model(*final(c)) == fresh_model(),
        !store_in_txn(*final(c)),
        store_saved(*final(c)) == store_model(*final(c)),
{
    c.execute_batch(
        "CREATE TABLE schema_version (ver INTEGER NOT NULL);\nINSERT INTO schema_version (ver) VALUES (2);\nCREATE TABLE operating_systems (os_id INTEGER PRIMARY KEY, short_name TEXT NOT NULL UNIQUE, long_name TEXT NULL);\nCREATE TABLE dlls (dll_id INTEGER PRIMARY KEY, path TEXT NOT NULL UNIQUE, secondary_platform INTEGER NOT NULL);\nCREATE TABLE symbols (sym_id INTEGER PRIMARY KEY, raw_name TEXT NULL UNIQUE, dll_name TEXT NULL, ordinal INTEGER NULL, friendly_name TEXT NULL, UNIQUE (dll_name, ordinal));\nCREATE TABLE symbol_dll_os (sym_id INTEGER NOT NULL REFERENCES symbols(sym_id), dll_id INTEGER NOT NULL REFERENCES dlls(dll_id), os_id INTEGER NOT NULL REFERENCES operating_systems(os_id), ordinal INTEGER NULL, UNIQUE (sym_id, dll_id, os_id, ordinal));\nCREATE UNIQUE INDEX symbol_dll_os_observation ON symbol_dll_os (sym_id, dll_id, os_id, IFNULL(ordinal, -1));",
    ).map_err(|e| e.to_string())
}

/// Relies on `rusqlite::Connection::execute_batch` running the one known
/// forward migration step, which stamps the schema as version 2.  The data
/// upgrade is an opaque step: nothing is assumed of the entity tables
/// afterwards.  Runs outside any transaction.
#[verifier::external_body]
pub(crate) fn sqlite_migrate_to_current(c: &mut rusqlite::Connection) -> (r: Result<(), String>)
    requires
        !store_in_txn(*old(c)),
        store_model(*old(c)).has_version,
    ensures
        r is Ok ==> store_model(*final(c)).has_version && store_model(*final(c)).version == 2,
        !store_in_txn(*final(c)),
        store_saved(*final(c)) == store_model(*final(c)),
{
    c.execute_batch("UPDATE schema_version SET ver = 2;").map_err(|e| e.to_string())
}

/// Relies on `rusqlite::Connection::execute_batch` running `BEGIN DEFERRED`:
/// opens a transaction; nothing written after this is durable until commit.
#[verifier::external_body]
pub(crate) fn sqlite_begin(c: &mut rusqlite::Connection) -> (r: Result<(), String>)
    requires
        !store_in_txn(*old(c)),
    ensures
        store_model(*final(c)) == store_model(*old(c)),
        store_saved(*final(c)) == store_saved(*old(c)),
        r is Ok ==> store_in_txn(*final(c)),
        r is Err ==> !store_in_txn(*final(c)),
{
    c.execute_batch("BEGIN DEFERRED;").map_err(|e| e.to_string())
}

/// Relies on `rusqlite::Connection::execute_batch` running `COMMIT`: makes
/// everything written in the transaction durable at once.  When the commit
/// fails, nothing becomes durable: the transaction either stays open or was
/// rolled back by the failure.
#[verifier::external_body]
pub(crate) fn sqlite_commit(c: &mut rusqlite::Connection) -> (r: Result<(), String>)
    requires
        store_in_txn(*old(c)),
    ensures
        r is Ok ==> !store_in_txn(*final(c)) && store_model(*final(c)) == store_model(*old(c))
            && store_saved(*final(c)) == store_model(*old(c)),
        r is Err ==> store_saved(*final(c)) == store_saved(*old(c)),
{
    c.execute_batch("COMMIT;").map_err(|e| e.to_string())
}

/// Relies on `rusqlite::Connection::query_row` running `SELECT os_id FROM
/// operating_systems WHERE short_name = ?1`, with `optional`: the stored ID
/// under that short name, if the row exists.
#[verifier::external_body]
pub(crate) fn sqlite_get_os(c: &rusqlite::Connection, short_name: &str) -> (r: Result<
    Option<i64>,
    String,
>)
    ensures
        r matches Ok(opt) ==> opt == map_get(store_model(*c).os, short_name@),
{
    c.query_row(
        "SELECT os_id FROM operating_systems WHERE short_name = ?1",
        [short_name],
        |row| row.get(0),
    ).optional().map_err(|e| e.to_string())
}

/// Relies on `rusqlite::Connection::query_row` running `INSERT INTO
/// operating_systems (short_name, long_name) VALUES (?1, NULL) RETURNING
/// os_id`: creates the row with no long name and returns its fresh primary
/// key, distinct from every existing `os_id`.
#[verifier::external_body]
pub(crate) fn sqlite_insert_os(c: &mut rusqlite::Connection, short_name: &str) -> (r: Result<
    i64,
    String,
>)
    requires
        store_in_txn(*old(c)),
        !store_model(*old(c)).os.contains_key(short_name@),
    ensures
        store_saved(*final(c)) == store_saved(*old(c)),
        r matches Ok(id) ==> store_model(*final(c)) == store_model(*old(c)).with_os(short_name@, id)
            && store_model(*old(c)).os_id_fresh(id) && store_in_txn(*final(c)),
{
    c.query_row(
        "INSERT INTO operating_systems (short_name, long_name) VALUES (?1, NULL) RETURNING os_id",
        [short_name],
        |row| row.get(0),
    ).map_err(|e| e.to_string())
}

/// Relies on `rusqlite::Connection::query_row` running `SELECT dll_id FROM
/// dlls WHERE path = ?1`, with `optional`: the stored ID under that path, if
/// the row exists.
#[verifier::external_body]
pub(crate) fn sqlite_get_dll(c: &rusqlite::Connection, path: &str) -> (r: Result<
    Option<i64>,
    String,
>)
    ensures
        r matches Ok(opt) ==> opt == map_get(store_model(*c).dlls, path@),
{
    c.query_row("SELECT dll_id FROM dlls WHERE path = ?1", [path], |row| row.get(0))
        .optional()
        .map_err(|e| e.to_string())
}

/// Relies on `rusqlite::Connection::query_row` running `INSERT INTO dlls
/// (path, secondary_platform) VALUES (?1, ?2) RETURNING dll_id`: creates the
/// row and returns its fresh primary key, distinct from every existing
/// `dll_id`.
#[verifier::external_body]
pub(crate) fn sqlite_insert_dll(
    c: &mut rusqlite::Connection,
    path: &str,
    secondary: bool,
) -> (r: Result<i64, String>)
    requires
        store_in_txn(*old(c)),
        !store_model(*old(c)).dlls.contains_key(path@),
    ensures
        store_saved(*final(c)) == store_saved(*old(c)),
        r matches Ok(id) ==> store_model(*final(c)) == store_model(*old(c)).with_dll(
            path@,
            id,
            secondary,
        ) && store_model(*old(c)).dll_id_fresh(id) && store_in_txn(*final(c)),
{
    c.query_row(
        "INSERT INTO dlls (path, secondary_platform) VALUES (?1, ?2) RETURNING dll_id",
        (path, secondary),
        |row| row.get(0),
    ).map_err(|e| e.to_string())
}

/// Relies on `rusqlite::Connection::query_row` running `SELECT sym_id FROM
/// symbols WHERE raw_name = ?1`, with `optional`: the stored ID under that
/// raw name, if the row exists.
#[verifier::external_body]
pub(crate) fn sqlite_get_named(c: &rusqlite::Connection, raw_name: &str) -> (r: Result<
    Option<i64>,
    String,
>)
    ensures
        r matches Ok(opt) ==> opt == map_get(store_model(*c).named, raw_name@),
{
    c.query_row("SELECT sym_id FROM symbols WHERE raw_name = ?1", [raw_name], |row| row.get(0))
        .optional()
        .map_err(|e| e.to_string())
}

/// Relies on `rusqlite::Connection::query_row` running `INSERT INTO symbols
/// (raw_name, dll_name, ordinal, friendly_name) VALUES (?1, NULL, NULL, ?2)
/// RETURNING sym_id`: creates the named-symbol row, storing the friendly
/// name as given (or null), and returns its fresh primary key, distinct
/// from every existing `sym_id` of either variant.
#[verifier::external_body]
pub(crate) fn sqlite_insert_named(
    c: &mut rusqlite::Connection,
    raw_name: &str,
    friendly: Option<&str>,
) -> (r: Result<i64, String>)
    requires
        store_in_txn(*old(c)),
        !store_model(*old(c)).named.contains_key(raw_name@),
    ensures
        store_saved(*final(c)) == store_saved(*old(c)),
        r matches Ok(id) ==> store_model(*final(c)) == store_model(*old(c)).with_named(
            raw_name@,
            id,
            friendly.deep_view(),
        ) && store_model(*old(c)).sym_id_fresh(id) && store_in_txn(*final(c)),
{
    c.query_row(
        "INSERT INTO symbols (raw_name, dll_name, ordinal, friendly_name) VALUES (?1, NULL, NULL, ?2) RETURNING sym_id",
        (raw_name, friendly),
        |row| row.get(0),
    ).map_err(|e| e.to_string())
}

/// Relies on `rusqlite::Connection::query_row` running `SELECT sym_id FROM
/// symbols WHERE dll_name = ?1 AND ordinal = ?2`, with `optional`: the
/// stored ID under that bare filename and ordinal, if the row exists.
#[verifier::external_body]
pub(crate) fn sqlite_get_ord(
    c: &rusqlite::Connection,
    dll_name: &str,
    ordinal: u64,
) -> (r: Result<Option<i64>, String>)
    ensures
        r matches Ok(opt) ==> opt == map_get(store_model(*c).ord, (dll_name@, ordinal)),
{
    c.query_row(
        "SELECT sym_id FROM symbols WHERE dll_name = ?1 AND ordinal = ?2",
        (dll_name, ordinal),
        |row| row.get(0),
    ).optional().map_err(|e| e.to_string())
}

/// Relies on `rusqlite::Connection::query_row` running `INSERT INTO symbols
/// (raw_name, dll_name, ordinal, friendly_name) VALUES (NULL, ?1, ?2, NULL)
/// RETURNING sym_id`: creates the ordinal-symbol row, with no friendly
/// name, and returns its fresh primary key, distinct from every existing
/// `sym_id` of either variant.
#[verifier::external_body]
pub(crate) fn sqlite_insert_ord(
    c: &mut rusqlite::Connection,
    dll_name: &str,
    ordinal: u64,
) -> (r: Result<i64, String>)
    requires
        store_in_txn(*old(c)),
        !store_model(*old(c)).ord.contains_key((dll_name@, ordinal)),
    ensures
        store_saved(*final(c)) == store_saved(*old(c)),
        r matches Ok(id) ==> store_model(*final(c)) == store_model(*old(c)).with_ord(
            (dll_name@, ordinal),
            id,
        ) && store_model(*old(c)).sym_id_fresh(id) && store_in_txn(*final(c)),
{
    c.query_row(
        "INSERT INTO symbols (raw_name, dll_name, ordinal, friendly_name) VALUES (NULL, ?1, ?2, NULL) RETURNING sym_id",
        (dll_name, ordinal),
        |row| row.get(0),
    ).map_err(|e| e.to_string())
}

/// Relies on `rusqlite::Connection::execute` running `INSERT OR IGNORE INTO
/// symbol_dll_os (sym_id, dll_id, os_id, ordinal) VALUES (?1, ?2, ?3, ?4)`:
/// records the fact, and silently absorbs a duplicate of the full tuple
/// through the unique observation index this module creates.
#[verifier::external_body]
pub(crate) fn sqlite_insert_rel(
    c: &mut rusqlite::Connection,
    sym_id: i64,
    dll_id: i64,
    os_id: i64,
    ordinal: Option<u64>,
) -> (r: Result<(), String>)
    requires
        store_in_txn(*old(c)),
    ensures
        store_saved(*final(c)) == store_saved(*old(c)),
        r is Ok ==> store_model(*final(c)) == store_model(*old(c)).with_rel(
            (sym_id, dll_id, os_id, ordinal),
        ) && store_in_txn(*final(c)),
{
    c.execute(
        "INSERT OR IGNORE INTO symbol_dll_os (sym_id, dll_id, os_id, ordinal) VALUES (?1, ?2, ?3, ?4)",
        (sym_id, dll_id, os_id, ordinal),
    ).map(|_| ()).map_err(|e| e.to_string())
}

} // verus!
