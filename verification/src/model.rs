//! The mathematical meaning of a loader run: how processing records moves a
//! store model.  Identifier assignment is the store's alone, so a run is a
//! relation between models, not a function — the relation pins everything
//! except which fresh IDs newly created rows receive.

use vstd::prelude::*;
use crate::parse::{LineSpec, SymKeySpec, classify_line};
use crate::store::StoreModel;

verus! {

/// The model after resolving an operating system: unchanged when the short
/// name exists, else one new row under `id`.
pub open spec fn after_os(m: StoreModel, k: Seq<char>, id: i64) -> StoreModel {
    if m.os.contains_key(k) {
        m
    } else {
        m.with_os(k, id)
    }
}

/// Resolution respects the store's identity rules: when the short name
/// exists, `id` is its stored ID; when it does not, the store assigns `id`
/// fresh, distinct from every existing `os_id`.
pub open spec fn os_id_ok(m: StoreModel, k: Seq<char>, id: i64) -> bool {
    &&& m.os.contains_key(k) ==> id == m.os[k]
    &&& !m.os.contains_key(k) ==> m.os_id_fresh(id)
}

/// The model after resolving a DLL path; a row created by the loader is
/// never a secondary platform.
pub open spec fn after_dll(m: StoreModel, k: Seq<char>, id: i64) -> StoreModel {
    if m.dlls.contains_key(k) {
        m
    } else {
        m.with_dll(k, id, false)
    }
}

pub open spec fn dll_id_ok(m: StoreModel, k: Seq<char>, id: i64) -> bool {
    &&& m.dlls.contains_key(k) ==> id == m.dlls[k]
    &&& !m.dlls.contains_key(k) ==> m.dll_id_fresh(id)
}

/// The model after resolving a symbol.  A named symbol created here gets the
/// demangler's answer as its friendly name, once, at creation; an existing
/// row is never touched.  An ordinal-only symbol is keyed by bare DLL
/// filename and ordinal.
pub open spec fn after_sym(
    m: StoreModel,
    sym: SymKeySpec,
    df: spec_fn(Seq<char>) -> Option<Seq<char>>,
    id: i64,
) -> StoreModel {
    match sym {
        SymKeySpec::Named(n) => {
            if m.named.contains_key(n) {
                m
            } else {
                m.with_named(n, id, df(n))
            }
        },
        SymKeySpec::Ordinal(b, o) => {
            if m.ord.contains_key((b, o)) {
                m
            } else {
                m.with_ord((b, o), id)
            }
        },
    }
}

pub open spec fn sym_id_ok(m: StoreModel, sym: SymKeySpec, id: i64) -> bool {
    match sym {
        SymKeySpec::Named(n) => {
            &&& m.named.contains_key(n) ==> id == m.named[n]
            &&& !m.named.contains_key(n) ==> m.sym_id_fresh(id)
        },
        SymKeySpec::Ordinal(b, o) => {
            &&& m.ord.contains_key((b, o)) ==> id == m.ord[(b, o)]
            &&& !m.ord.contains_key((b, o)) ==> m.sym_id_fresh(id)
        },
    }
}

/// One record's step with the three resolved IDs given: operating system,
/// DLL and symbol are resolved in that order, then the relationship fact is
/// recorded with the ordinal as observed on this line.
pub open spec fn rec_step_ids(
    m: StoreModel,
    l: LineSpec,
    df: spec_fn(Seq<char>) -> Option<Seq<char>>,
    m2: StoreModel,
    os_id: i64,
    dll_id: i64,
    sym_id: i64,
) -> bool {
    let ma = after_os(m, l->Rec_os_key, os_id);
    let mb = after_dll(ma, l->Rec_dll_key, dll_id);
    let mc = after_sym(mb, l.sym_key(), df, sym_id);
    &&& os_id_ok(m, l->Rec_os_key, os_id)
    &&& dll_id_ok(ma, l->Rec_dll_key, dll_id)
    &&& sym_id_ok(mb, l.sym_key(), sym_id)
    &&& m2 == mc.with_rel((sym_id, dll_id, os_id, l->Rec_ordinal))
}

/// One record's step: some choice of IDs moves `m` to `m2`.
pub open spec fn rec_step(
    m: StoreModel,
    l: LineSpec,
    df: spec_fn(Seq<char>) -> Option<Seq<char>>,
    m2: StoreModel,
) -> bool {
    exists|os_id: i64, dll_id: i64, sym_id: i64| rec_step_ids(m, l, df, m2, os_id, dll_id, sym_id)
}

/// One line's step: a blank line changes nothing, a malformed line has no
/// outcome at all, and a record steps as above.
pub open spec fn line_step(
    m: StoreModel,
    line: Seq<char>,
    df: spec_fn(Seq<char>) -> Option<Seq<char>>,
    m2: StoreModel,
) -> bool {
    match classify_line(line) {
        LineSpec::Blank => m2 == m,
        LineSpec::Bad(_) => false,
        LineSpec::Rec { .. } => rec_step(m, classify_line(line), df, m2),
    }
}

/// A whole run: the lines step in order.  No outcome exists when any line is
/// malformed — a run that meets a malformed record never commits.
pub open spec fn load_rel(
    m: StoreModel,
    lines: Seq<Seq<char>>,
    df: spec_fn(Seq<char>) -> Option<Seq<char>>,
    m2: StoreModel,
) -> bool
    decreases lines.len(),
{
    if lines.len() == 0 {
        m2 == m
    } else {
        exists|mid: StoreModel|
            #[trigger] line_step(m, lines[0], df, mid) && load_rel(mid, lines.drop_first(), df, m2)
    }
}

/// Extending a run by one more line.
pub proof fn lemma_load_rel_snoc(
    m0: StoreModel,
    pre: Seq<Seq<char>>,
    df: spec_fn(Seq<char>) -> Option<Seq<char>>,
    mc: StoreModel,
    line: Seq<char>,
    mn: StoreModel,
)
    requires
        load_rel(m0, pre, df, mc),
        line_step(mc, line, df, mn),
    ensures
        load_rel(m0, pre.push(line), df, mn),
    decreases pre.len(),
{
    if pre.len() == 0 {
        assert(mc == m0);
        assert(pre.push(line)[0] == line);
        assert(pre.push(line).drop_first() =~= Seq::<Seq<char>>::empty());
        assert(line_step(m0, pre.push(line)[0], df, mn) && load_rel(
            mn,
            pre.push(line).drop_first(),
            df,
            mn,
        ));
    } else {
        let mid = choose|mid: StoreModel|
            #[trigger] line_step(m0, pre[0], df, mid) && load_rel(mid, pre.drop_first(), df, mc);
        lemma_load_rel_snoc(mid, pre.drop_first(), df, mc, line, mn);
        assert(pre.drop_first().push(line) =~= pre.push(line).drop_first());
        assert(pre.push(line)[0] == pre[0]);
        assert(line_step(m0, pre.push(line)[0], df, mid) && load_rel(
            mid,
            pre.push(line).drop_first(),
            df,
            mn,
        ));
    }
}

} // verus!
