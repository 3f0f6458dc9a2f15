//! The identity resolvers and the single-pass loader.
//!
//! Each resolver follows the same shape: consult the run's in-memory cache,
//! then the store, and only then create the row; the resolved ID is cached
//! either way.  The whole run executes inside one transaction, so a run that
//! fails leaves the durable store exactly as it was.

use vstd::prelude::*;
use vstd::string::StringExecFns;
use crate::cache::{StrIdMap, OrdIdMap};
use crate::demangle::{Demangler, demangler_fn};
use crate::errors::{LoadError, MalformedKind};
use crate::model::{after_os, after_dll, after_sym, os_id_ok, dll_id_ok, sym_id_ok, rec_step_ids,
    rec_step, line_step, load_rel, lemma_load_rel_snoc};
use crate::parse::{ParsedRecord, LineSpec, SymKeySpec, classify_line, parse_line};
use crate::store::{StoreModel, store_model, store_saved, store_in_txn, sqlite_open,
    sqlite_open_memory, sqlite_begin, sqlite_commit, sqlite_get_os, sqlite_insert_os,
    sqlite_get_dll, sqlite_insert_dll, sqlite_get_named, sqlite_insert_named, sqlite_get_ord,
    sqlite_insert_ord, sqlite_insert_rel};
use crate::text::u64_to_string;

verus! {

/// `a` binds only keys that `b` binds, to the same IDs.
pub open spec fn submap_i64<K>(a: Map<K, i64>, b: Map<K, i64>) -> bool {
    forall|k: K| #[trigger] a.contains_key(k) ==> b.contains_key(k) && a[k] == b[k]
}

/// The per-run caches, one per natural key.  They are exclusively owned by a
/// single pass and discarded at its end.
pub struct Caches {
    /// Short OS name to `os_id`.
    pub os: StrIdMap,
    /// Normalized DLL path to `dll_id`.
    pub dlls: StrIdMap,
    /// Raw symbol name to `sym_id`.
    pub named: StrIdMap,
    /// Bare DLL filename and ordinal to `sym_id`.
    pub ord: OrdIdMap,
}

/// The caches are a pure performance layer: every binding mirrors a store
/// row, so a cache hit returns exactly the ID the store would.
pub open spec fn caches_ok(ch: Caches, m: StoreModel) -> bool {
    &&& submap_i64(ch.os@, m.os)
    &&& submap_i64(ch.dlls@, m.dlls)
    &&& submap_i64(ch.named@, m.named)
    &&& submap_i64(ch.ord@, m.ord)
}

impl Caches {
    /// Fresh, empty caches, valid for any store.
    pub fn new() -> (r: Caches)
        ensures
            forall|m: StoreModel| caches_ok(r, m),
    {
        let r = Caches {
            os: StrIdMap::new(),
            dlls: StrIdMap::new(),
            named: StrIdMap::new(),
            ord: OrdIdMap::new(),
        };
        r
    }
}

/// Resolves the operating-system ID for a short name: cache, then store
/// lookup, then creation.
fn resolve_os(c: &mut rusqlite::Connection, caches: &mut Caches, name: &str) -> (r: Result<
    i64,
    String,
>)
    requires
        store_in_txn(*old(c)),
        caches_ok(*old(caches), store_model(*old(c))),
    ensures
        store_saved(*final(c)) == store_saved(*old(c)),
        r matches Ok(id) ==> store_in_txn(*final(c)) && caches_ok(
            *final(caches),
            store_model(*final(c)),
        ) && store_model(*final(c)) == after_os(store_model(*old(c)), name@, id) && os_id_ok(
            store_model(*old(c)),
            name@,
            id,
        ),
{
    if let Some(id) = caches.os.get(name) {
        return Ok(id);
    }
    let found = match sqlite_get_os(c, name) {
        Ok(f) => f,
        Err(e) => {
            return Err(e);
        },
    };
    let id = match found {
        Some(id) => id,
        None => {
            match sqlite_insert_os(c, name) {
                Ok(id) => id,
                Err(e) => {
                    return Err(e);
                },
            }
        },
    };
    caches.os.insert(name.to_owned(), id);
    proof {
        let m2 = store_model(*c);
        assert forall|k: Seq<char>| #[trigger] caches.os@.contains_key(k) implies m2.os.contains_key(
            k,
        ) && caches.os@[k] == m2.os[k] by {
            if k != name@ {
                assert(old(caches).os@.contains_key(k));
            }
        }
    }
    Ok(id)
}

/// Resolves the DLL ID for a normalized path; a row created here is never a
/// secondary platform.
fn resolve_dll(c: &mut rusqlite::Connection, caches: &mut Caches, path: &str) -> (r: Result<
    i64,
    String,
>)
    requires
        store_in_txn(*old(c)),
        caches_ok(*old(caches), store_model(*old(c))),
    ensures
        store_saved(*final(c)) == store_saved(*old(c)),
        r matches Ok(id) ==> store_in_txn(*final(c)) && caches_ok(
            *final(caches),
            store_model(*final(c)),
        ) && store_model(*final(c)) == after_dll(store_model(*old(c)), path@, id) && dll_id_ok(
            store_model(*old(c)),
            path@,
            id,
        ),
{
    if let Some(id) = caches.dlls.get(path) {
        return Ok(id);
    }
    let found = match sqlite_get_dll(c, path) {
        Ok(f) => f,
        Err(e) => {
            return Err(e);
        },
    };
    let id = match found {
        Some(id) => id,
        None => {
            match sqlite_insert_dll(c, path, false) {
                Ok(id) => id,
                Err(e) => {
                    return Err(e);
                },
            }
        },
    };
    caches.dlls.insert(path.to_owned(), id);
    proof {
        let m2 = store_model(*c);
        assert forall|k: Seq<char>| #[trigger] caches.dlls@.contains_key(
            k,
        ) implies m2.dlls.contains_key(k) && caches.dlls@[k] == m2.dlls[k] by {
            if k != path@ {
                assert(old(caches).dlls@.contains_key(k));
            }
        }
    }
    Ok(id)
}

/// Resolves the symbol ID for a raw name.  Only on creation — not on a cache
/// or store hit — is the demangling strategy consulted, and its answer is
/// stored once as the friendly name, never recomputed.
fn resolve_named<D: Demangler>(
    c: &mut rusqlite::Connection,
    caches: &mut Caches,
    d: &D,
    raw: &str,
) -> (r: Result<i64, String>)
    requires
        store_in_txn(*old(c)),
        caches_ok(*old(caches), store_model(*old(c))),
    ensures
        store_saved(*final(c)) == store_saved(*old(c)),
        r matches Ok(id) ==> store_in_txn(*final(c)) && caches_ok(
            *final(caches),
            store_model(*final(c)),
        ) && store_model(*final(c)) == after_sym(
            store_model(*old(c)),
            SymKeySpec::Named(raw@),
            demangler_fn(d),
            id,
        ) && sym_id_ok(store_model(*old(c)), SymKeySpec::Named(raw@), id),
{
    if let Some(id) = caches.named.get(raw) {
        return Ok(id);
    }
    let found = match sqlite_get_named(c, raw) {
        Ok(f) => f,
        Err(e) => {
            return Err(e);
        },
    };
    let id = match found {
        Some(id) => id,
        None => {
            let friendly = d.demangle(raw);
            let friendly_ref: Option<&str> = match &friendly {
                Some(f) => Some(f.as_str()),
                None => None,
            };
            proof {
                assert(friendly_ref.deep_view() == d.spec_demangle(raw@));
                assert(demangler_fn(d)(raw@) == d.spec_demangle(raw@));
            }
            match sqlite_insert_named(c, raw, friendly_ref) {
                Ok(id) => id,
                Err(e) => {
                    return Err(e);
                },
            }
        },
    };
    caches.named.insert(raw.to_owned(), id);
    proof {
        let m2 = store_model(*c);
        assert forall|k: Seq<char>| #[trigger] caches.named@.contains_key(
            k,
        ) implies m2.named.contains_key(k) && caches.named@[k] == m2.named[k] by {
            if k != raw@ {
                assert(old(caches).named@.contains_key(k));
            }
        }
    }
    Ok(id)
}

/// Resolves the symbol ID for an unnamed symbol, keyed by the bare DLL
/// filename and the ordinal — a deliberately narrower scope than the DLL
/// path: the same filename under different directories shares identity.
fn resolve_ord(
    c: &mut rusqlite::Connection,
    caches: &mut Caches,
    bare: &str,
    ordinal: u64,
) -> (r: Result<i64, String>)
    requires
        store_in_txn(*old(c)),
        caches_ok(*old(caches), store_model(*old(c))),
    ensures
        store_saved(*final(c)) == store_saved(*old(c)),
        r matches Ok(id) ==> store_in_txn(*final(c)) && caches_ok(
            *final(caches),
            store_model(*final(c)),
        ) && store_model(*final(c)) == (if store_model(*old(c)).ord.contains_key((bare@, ordinal)) {
            store_model(*old(c))
        } else {
            store_model(*old(c)).with_ord((bare@, ordinal), id)
        }) && sym_id_ok(store_model(*old(c)), SymKeySpec::Ordinal(bare@, ordinal), id),
{
    if let Some(id) = caches.ord.get(bare, ordinal) {
        return Ok(id);
    }
    let found = match sqlite_get_ord(c, bare, ordinal) {
        Ok(f) => f,
        Err(e) => {
            return Err(e);
        },
    };
    let id = match found {
        Some(id) => id,
        None => {
            match sqlite_insert_ord(c, bare, ordinal) {
                Ok(id) => id,
                Err(e) => {
                    return Err(e);
                },
            }
        },
    };
    caches.ord.insert(bare.to_owned(), ordinal, id);
    proof {
        let m2 = store_model(*c);
        assert forall|k: (Seq<char>, u64)| #[trigger] caches.ord@.contains_key(
            k,
        ) implies m2.ord.contains_key(k) && caches.ord@[k] == m2.ord[k] by {
            if k != (bare@, ordinal) {
                assert(old(caches).ord@.contains_key(k));
            }
        }
    }
    Ok(id)
}

/// A store-write failure with the record's identifiers as context.
fn store_write_error(rec: &ParsedRecord, e: String) -> (r: LoadError)
    ensures
        r is StoreWrite,
{
    let mut detail = e;
    detail.append("; os ");
    detail.append(rec.path.os_key.as_str());
    detail.append("; dll ");
    detail.append(rec.path.dll_key.as_str());
    match &rec.name {
        Some(n) => {
            detail.append("; symbol ");
            detail.append(n.as_str());
        },
        None => {},
    }
    match rec.ordinal {
        Some(o) => {
            detail.append("; ordinal ");
            let os = u64_to_string(o);
            detail.append(os.as_str());
        },
        None => {},
    }
    LoadError::StoreWrite { detail }
}

/// Processes one raw input line inside the run's transaction: a blank line
/// is skipped, a malformed one aborts with exactly the defect the line has,
/// and a record has its entities resolved or created and its relationship
/// fact recorded.
pub fn process_line<D: Demangler>(
    c: &mut rusqlite::Connection,
    caches: &mut Caches,
    d: &D,
    line: &str,
) -> (r: Result<(), LoadError>)
    requires
        store_in_txn(*old(c)),
        caches_ok(*old(caches), store_model(*old(c))),
    ensures
        store_saved(*final(c)) == store_saved(*old(c)),
        r is Ok ==> store_in_txn(*final(c)) && caches_ok(*final(caches), store_model(*final(c)))
            && line_step(store_model(*old(c)), line@, demangler_fn(d), store_model(*final(c))),
        r matches Err(e) ==> e is Malformed || e is StoreWrite,
        r matches Err(LoadError::Malformed(k)) ==> classify_line(line@) == LineSpec::Bad(k),
        classify_line(line@) matches LineSpec::Bad(k) ==> r == Err::<(), LoadError>(
            LoadError::Malformed(k),
        ),
        classify_line(line@) is Blank ==> r is Ok,
{
    let rec = match parse_line(line) {
        Ok(None) => {
            return Ok(());
        },
        Err(k) => {
            return Err(LoadError::Malformed(k));
        },
        Ok(Some(rec)) => rec,
    };
    let ghost l = classify_line(line@);
    let ghost m0 = store_model(*c);
    let ghost df = demangler_fn(d);
    let os_id = match resolve_os(c, caches, rec.path.os_key.as_str()) {
        Ok(id) => id,
        Err(e) => {
            return Err(store_write_error(&rec, e));
        },
    };
    let ghost ma = store_model(*c);
    let dll_id = match resolve_dll(c, caches, rec.path.dll_key.as_str()) {
        Ok(id) => id,
        Err(e) => {
            return Err(store_write_error(&rec, e));
        },
    };
    let ghost mb = store_model(*c);
    let sym_id = match &rec.name {
        Some(n) => {
            match resolve_named(c, caches, d, n.as_str()) {
                Ok(id) => id,
                Err(e) => {
                    return Err(store_write_error(&rec, e));
                },
            }
        },
        None => {
            let ordinal = match rec.ordinal {
                Some(o) => o,
                None => {
                    proof {
                        crate::parse::lemma_name_takes_priority(line@);
                        assert(false);
                    }
                    return Err(LoadError::Malformed(MalformedKind::NoIdentity));
                },
            };
            match resolve_ord(c, caches, rec.path.bare_dll.as_str(), ordinal) {
                Ok(id) => id,
                Err(e) => {
                    return Err(store_write_error(&rec, e));
                },
            }
        },
    };
    let ghost mc = store_model(*c);
    proof {
        assert(mc == after_sym(mb, l.sym_key(), df, sym_id) && sym_id_ok(mb, l.sym_key(), sym_id))
            by {
            crate::parse::lemma_name_takes_priority(line@);
            if rec.name is Some {
                assert(l.sym_key() == SymKeySpec::Named(rec.name->Some_0@));
            } else {
                assert(l.sym_key() == SymKeySpec::Ordinal(rec.path.bare_dll@, rec.ordinal->Some_0));
            }
        }
    }
    match sqlite_insert_rel(c, sym_id, dll_id, os_id, rec.ordinal) {
        Ok(()) => {
            proof {
                let m2 = store_model(*c);
                assert(rec_step_ids(m0, l, df, m2, os_id, dll_id, sym_id));
                assert(rec_step(m0, l, df, m2));
            }
            Ok(())
        },
        Err(e) => Err(store_write_error(&rec, e)),
    }
}

/// Opens the store at `path` for a loader run.
pub fn open_store(path: &str) -> (r: Result<rusqlite::Connection, LoadError>)
    ensures
        r matches Ok(c) ==> !store_in_txn(c) && store_model(c) == store_saved(c),
        r matches Err(e) ==> e is StoreUnavailable,
{
    match sqlite_open(path) {
        Ok(c) => Ok(c),
        Err(detail) => Err(LoadError::StoreUnavailable { detail }),
    }
}

/// Opens a fresh private in-memory store, with no schema yet.
pub fn open_memory_store() -> (r: Result<rusqlite::Connection, LoadError>)
    ensures
        r matches Ok(c) ==> !store_in_txn(c) && store_model(c) == store_saved(c) && !store_model(
            c,
        ).has_version,
        r matches Err(e) ==> e is StoreUnavailable,
{
    match sqlite_open_memory() {
        Ok(c) => Ok(c),
        Err(detail) => Err(LoadError::StoreUnavailable { detail }),
    }
}

/// Opens the run's single transaction.  Nothing written after this is
/// visible to other readers, or durable, until `finish_load` commits.
pub fn begin_load(c: &mut rusqlite::Connection) -> (r: Result<(), LoadError>)
    requires
        !store_in_txn(*old(c)),
    ensures
        store_model(*final(c)) == store_model(*old(c)),
        store_saved(*final(c)) == store_saved(*old(c)),
        r is Ok ==> store_in_txn(*final(c)),
        r matches Err(e) ==> e is StoreUnavailable && !store_in_txn(*final(c)),
{
    match sqlite_begin(c) {
        Ok(()) => Ok(()),
        Err(detail) => Err(LoadError::StoreUnavailable { detail }),
    }
}

/// Commits the run's transaction, making the whole run durable at once.  On
/// failure nothing of the run is durable.
pub fn finish_load(c: &mut rusqlite::Connection) -> (r: Result<(), LoadError>)
    requires
        store_in_txn(*old(c)),
    ensures
        r is Ok ==> !store_in_txn(*final(c)) && store_model(*final(c)) == store_model(*old(c))
            && store_saved(*final(c)) == store_model(*old(c)),
        r is Err ==> store_saved(*final(c)) == store_saved(*old(c)),
        r matches Err(e) ==> e is StoreWrite,
{
    match sqlite_commit(c) {
        Ok(()) => Ok(()),
        Err(detail) => Err(LoadError::StoreWrite { detail }),
    }
}

/// Runs a whole load: one transaction around every line, committed only
/// after the last.  On success the durable store is exactly a run of the
/// model relation over the lines; on any failure — a malformed record or a
/// store error — the durable store is exactly what it was before the run.
pub fn run_load<D: Demangler>(
    c: &mut rusqlite::Connection,
    d: &D,
    lines: &Vec<String>,
) -> (r: Result<(), LoadError>)
    requires
        !store_in_txn(*old(c)),
    ensures
        r is Ok ==> !store_in_txn(*final(c)) && store_saved(*final(c)) == store_model(*final(c))
            && load_rel(
            store_model(*old(c)),
            lines.deep_view(),
            demangler_fn(d),
            store_model(*final(c)),
        ) && (forall|i: int|
            0 <= i < lines@.len() ==> !(classify_line(#[trigger] lines.deep_view()[i]) is Bad)),
        r is Err ==> store_saved(*final(c)) == store_saved(*old(c)),
        r matches Err(e) ==> e is Malformed || e is StoreWrite || e is StoreUnavailable,
        r matches Err(LoadError::Malformed(k)) ==> exists|i: int|
            0 <= i < lines@.len() && classify_line(#[trigger] lines.deep_view()[i])
                == LineSpec::Bad(k) && (forall|j: int|
                0 <= j < i ==> !(classify_line(#[trigger] lines.deep_view()[j]) is Bad)),
{
    let mut caches = Caches::new();
    match begin_load(c) {
        Ok(()) => {},
        Err(e) => {
            return Err(e);
        },
    }
    let ghost m0 = store_model(*c);
    let ghost df = demangler_fn(d);
    let mut i: usize = 0;
    while i < lines.len()
        invariant
            i <= lines@.len(),
            store_in_txn(*c),
            caches_ok(caches, store_model(*c)),
            store_saved(*c) == store_saved(*old(c)),
            m0 == store_model(*old(c)),
            df == demangler_fn(d),
            load_rel(m0, lines.deep_view().take(i as int), df, store_model(*c)),
            forall|j: int| 0 <= j < i ==> !(classify_line(#[trigger] lines.deep_view()[j]) is Bad),
        decreases lines@.len() - i,
    {
        let ghost m_pre = store_model(*c);
        proof {
            assert(lines.deep_view()[i as int] == lines@[i as int]@);
        }
        match process_line(c, &mut caches, d, lines[i].as_str()) {
            Ok(()) => {
                proof {
                    lemma_load_rel_snoc(
                        m0,
                        lines.deep_view().take(i as int),
                        df,
                        m_pre,
                        lines.deep_view()[i as int],
                        store_model(*c),
                    );
                    assert(lines.deep_view().take(i as int).push(lines.deep_view()[i as int])
                        =~= lines.deep_view().take(i + 1));
                }
            },
            Err(e) => {
                proof {
                    if e is Malformed {
                        let k = e->Malformed_0;
                        assert(classify_line(lines.deep_view()[i as int]) == LineSpec::Bad(k));
                    }
                }
                return Err(e);
            },
        }
        i = i + 1;
    }
    proof {
        assert(lines.deep_view().take(lines@.len() as int) =~= lines.deep_view());
    }
    match finish_load(c) {
        Ok(()) => Ok(()),
        Err(e) => Err(e),
    }
}

} // verus!
