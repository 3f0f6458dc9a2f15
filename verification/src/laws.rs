//! Laws of the load relation: re-ingesting input changes nothing, a
//! duplicate fact within a run is absorbed, and ordinal-symbol identity is
//! scoped to the bare DLL filename while DLL and OS identity are not.

use vstd::prelude::*;
use crate::model::{after_os, after_dll, after_sym, rec_step_ids, rec_step, line_step, load_rel};
use crate::parse::{LineSpec, SymKeySpec, classify_line};
use crate::store::StoreModel;

verus! {

/// The symbol ID a model stores under a symbol key.
pub open spec fn sym_id_of(m: StoreModel, sym: SymKeySpec) -> i64 {
    match sym {
        SymKeySpec::Named(n) => m.named[n],
        SymKeySpec::Ordinal(b, o) => m.ord[(b, o)],
    }
}

/// Whether a model has a symbol key.
pub open spec fn sym_present(m: StoreModel, sym: SymKeySpec) -> bool {
    match sym {
        SymKeySpec::Named(n) => m.named.contains_key(n),
        SymKeySpec::Ordinal(b, o) => m.ord.contains_key((b, o)),
    }
}

/// A record is done in a model: its three entities exist and its
/// relationship fact, under their stored IDs, is recorded.
pub open spec fn rec_done(l: LineSpec, m: StoreModel) -> bool {
    &&& m.os.contains_key(l->Rec_os_key)
    &&& m.dlls.contains_key(l->Rec_dll_key)
    &&& sym_present(m, l.sym_key())
    &&& m.rels.contains(
        (sym_id_of(m, l.sym_key()), m.dlls[l->Rec_dll_key], m.os[l->Rec_os_key], l->Rec_ordinal),
    )
}

/// A line is done in a model: trivially for a blank line, through its record
/// otherwise.  A malformed line is never done.
pub open spec fn line_done(line: Seq<char>, m: StoreModel) -> bool {
    match classify_line(line) {
        LineSpec::Blank => true,
        LineSpec::Bad(_) => false,
        LineSpec::Rec { .. } => rec_done(classify_line(line), m),
    }
}

/// Everything the first model records, the second records too, under the
/// same IDs.
pub open spec fn model_le(a: StoreModel, b: StoreModel) -> bool {
    &&& crate::loader::submap_i64(a.os, b.os)
    &&& crate::loader::submap_i64(a.dlls, b.dlls)
    &&& crate::loader::submap_i64(a.named, b.named)
    &&& crate::loader::submap_i64(a.ord, b.ord)
    &&& a.rels.subset_of(b.rels)
}

proof fn lemma_model_le_refl(a: StoreModel)
    ensures
        model_le(a, a),
{
}

proof fn lemma_model_le_trans(a: StoreModel, b: StoreModel, c: StoreModel)
    requires
        model_le(a, b),
        model_le(b, c),
    ensures
        model_le(a, c),
{
}

/// One record's step only grows the model.
proof fn lemma_rec_step_grows(
    m: StoreModel,
    l: LineSpec,
    df: spec_fn(Seq<char>) -> Option<Seq<char>>,
    m2: StoreModel,
)
    requires
        rec_step(m, l, df, m2),
    ensures
        model_le(m, m2),
{
    let (os_id, dll_id, sym_id) = choose|os_id: i64, dll_id: i64, sym_id: i64|
        rec_step_ids(m, l, df, m2, os_id, dll_id, sym_id);
    let ma = after_os(m, l->Rec_os_key, os_id);
    let mb = after_dll(ma, l->Rec_dll_key, dll_id);
    let mc = after_sym(mb, l.sym_key(), df, sym_id);
    assert(model_le(m, ma));
    assert(model_le(ma, mb));
    assert(model_le(mb, mc));
    assert(model_le(mc, m2));
    lemma_model_le_trans(m, ma, mb);
    lemma_model_le_trans(m, mb, mc);
    lemma_model_le_trans(m, mc, m2);
}

proof fn lemma_line_step_grows(
    m: StoreModel,
    line: Seq<char>,
    df: spec_fn(Seq<char>) -> Option<Seq<char>>,
    m2: StoreModel,
)
    requires
        line_step(m, line, df, m2),
    ensures
        model_le(m, m2),
{
    match classify_line(line) {
        LineSpec::Blank => {},
        LineSpec::Bad(_) => {},
        LineSpec::Rec { .. } => {
            lemma_rec_step_grows(m, classify_line(line), df, m2);
        },
    }
}

proof fn lemma_load_rel_grows(
    m: StoreModel,
    lines: Seq<Seq<char>>,
    df: spec_fn(Seq<char>) -> Option<Seq<char>>,
    m2: StoreModel,
)
    requires
        load_rel(m, lines, df, m2),
    ensures
        model_le(m, m2),
    decreases lines.len(),
{
    if lines.len() == 0 {
        lemma_model_le_refl(m);
    } else {
        let mid = choose|mid: StoreModel|
            #[trigger] line_step(m, lines[0], df, mid) && load_rel(mid, lines.drop_first(), df, m2);
        lemma_line_step_grows(m, lines[0], df, mid);
        lemma_load_rel_grows(mid, lines.drop_first(), df, m2);
        lemma_model_le_trans(m, mid, m2);
    }
}

/// After a record's step, the record is done.
proof fn lemma_rec_step_done(
    m: StoreModel,
    l: LineSpec,
    df: spec_fn(Seq<char>) -> Option<Seq<char>>,
    m2: StoreModel,
)
    requires
        rec_step(m, l, df, m2),
    ensures
        rec_done(l, m2),
{
    let (os_id, dll_id, sym_id) = choose|os_id: i64, dll_id: i64, sym_id: i64|
        rec_step_ids(m, l, df, m2, os_id, dll_id, sym_id);
    let ma = after_os(m, l->Rec_os_key, os_id);
    let mb = after_dll(ma, l->Rec_dll_key, dll_id);
    let mc = after_sym(mb, l.sym_key(), df, sym_id);
    assert(ma.os.contains_key(l->Rec_os_key) && ma.os[l->Rec_os_key] == os_id);
    assert(mb.dlls.contains_key(l->Rec_dll_key) && mb.dlls[l->Rec_dll_key] == dll_id);
    assert(sym_present(mc, l.sym_key()) && sym_id_of(mc, l.sym_key()) == sym_id);
    assert(m2.os == mc.os && m2.dlls == mc.dlls && m2.named == mc.named && m2.ord == mc.ord);
    assert(m2.rels.contains((sym_id, dll_id, os_id, l->Rec_ordinal)));
}

/// Doneness survives growth: the keys stay bound to the same IDs, so the
/// same fact stays recorded.
proof fn lemma_done_grows(l: LineSpec, a: StoreModel, b: StoreModel)
    requires
        rec_done(l, a),
        model_le(a, b),
    ensures
        rec_done(l, b),
{
    assert(a.rels.contains(
        (sym_id_of(a, l.sym_key()), a.dlls[l->Rec_dll_key], a.os[l->Rec_os_key], l->Rec_ordinal),
    ));
}

/// In a model where a record is done, its step goes nowhere: the one and
/// only outcome is the model itself.
proof fn lemma_done_step_fixed(
    m: StoreModel,
    l: LineSpec,
    df: spec_fn(Seq<char>) -> Option<Seq<char>>,
)
    requires
        l is Rec,
        rec_done(l, m),
    ensures
        rec_step(m, l, df, m),
        forall|m2: StoreModel| #[trigger] rec_step(m, l, df, m2) ==> m2 == m,
{
    let os_id = m.os[l->Rec_os_key];
    let dll_id = m.dlls[l->Rec_dll_key];
    let sym_id = sym_id_of(m, l.sym_key());
    assert(after_os(m, l->Rec_os_key, os_id) == m);
    assert(after_dll(m, l->Rec_dll_key, dll_id) == m);
    assert(after_sym(m, l.sym_key(), df, sym_id) == m);
    let t = (sym_id, dll_id, os_id, l->Rec_ordinal);
    assert(m.rels.insert(t) =~= m.rels);
    assert(m.with_rel(t) =~= m);
    assert(rec_step_ids(m, l, df, m, os_id, dll_id, sym_id));
    assert forall|m2: StoreModel| #[trigger] rec_step(m, l, df, m2) implies m2 == m by {
        let (i1, i2, i3) = choose|i1: i64, i2: i64, i3: i64| rec_step_ids(m, l, df, m2, i1, i2, i3);
        assert(after_os(m, l->Rec_os_key, i1) == m && i1 == os_id);
        assert(after_dll(m, l->Rec_dll_key, i2) == m && i2 == dll_id);
        assert(after_sym(m, l.sym_key(), df, i3) == m && i3 == sym_id);
        assert(m2 == m.with_rel(t));
    }
}

/// After a run, every line of it is done in the final model.
proof fn lemma_load_rel_all_done(
    m: StoreModel,
    lines: Seq<Seq<char>>,
    df: spec_fn(Seq<char>) -> Option<Seq<char>>,
    m2: StoreModel,
)
    requires
        load_rel(m, lines, df, m2),
    ensures
        forall|i: int| 0 <= i < lines.len() ==> line_done(#[trigger] lines[i], m2),
    decreases lines.len(),
{
    if lines.len() > 0 {
        let mid = choose|mid: StoreModel|
            #[trigger] line_step(m, lines[0], df, mid) && load_rel(mid, lines.drop_first(), df, m2);
        lemma_load_rel_all_done(mid, lines.drop_first(), df, m2);
        match classify_line(lines[0]) {
            LineSpec::Blank => {},
            LineSpec::Bad(_) => {},
            LineSpec::Rec { .. } => {
                lemma_rec_step_done(m, classify_line(lines[0]), df, mid);
                lemma_load_rel_grows(mid, lines.drop_first(), df, m2);
                lemma_done_grows(classify_line(lines[0]), mid, m2);
            },
        }
        assert forall|i: int| 0 <= i < lines.len() implies line_done(#[trigger] lines[i], m2) by {
            if i > 0 {
                assert(lines[i] == lines.drop_first()[i - 1]);
            }
        }
    }
}

/// From a model in which every line is done, the run has exactly one
/// outcome: the model itself.
proof fn lemma_all_done_fixed(
    m: StoreModel,
    lines: Seq<Seq<char>>,
    df: spec_fn(Seq<char>) -> Option<Seq<char>>,
)
    requires
        forall|i: int| 0 <= i < lines.len() ==> line_done(#[trigger] lines[i], m),
    ensures
        load_rel(m, lines, df, m),
        forall|m3: StoreModel| #[trigger] load_rel(m, lines, df, m3) ==> m3 == m,
    decreases lines.len(),
{
    if lines.len() == 0 {
    } else {
        assert(line_done(lines[0], m));
        assert(forall|i: int|
            0 <= i < lines.drop_first().len() ==> line_done(
                #[trigger] lines.drop_first()[i],
                m,
            )) by {
            assert(forall|i: int|
                0 <= i < lines.drop_first().len() ==> lines.drop_first()[i] == lines[i + 1]);
        }
        lemma_all_done_fixed(m, lines.drop_first(), df);
        match classify_line(lines[0]) {
            LineSpec::Blank => {
                assert(line_step(m, lines[0], df, m));
            },
            LineSpec::Bad(_) => {
                assert(false);
            },
            LineSpec::Rec { .. } => {
                lemma_done_step_fixed(m, classify_line(lines[0]), df);
                assert(line_step(m, lines[0], df, m));
            },
        }
        assert(load_rel(m, lines, df, m)) by {
            assert(line_step(m, lines[0], df, m) && load_rel(m, lines.drop_first(), df, m));
        }
        assert forall|m3: StoreModel| #[trigger] load_rel(m, lines, df, m3) implies m3 == m by {
            let mid = choose|mid: StoreModel|
                #[trigger] line_step(m, lines[0], df, mid) && load_rel(
                    mid,
                    lines.drop_first(),
                    df,
                    m3,
                );
            match classify_line(lines[0]) {
                LineSpec::Blank => {
                    assert(mid == m);
                },
                LineSpec::Bad(_) => {},
                LineSpec::Rec { .. } => {
                    lemma_done_step_fixed(m, classify_line(lines[0]), df);
                    assert(mid == m);
                },
            }
        }
    }
}

/// Ingesting the same lines again against the store a run produced changes
/// nothing: the run's outcome absorbs a repetition, so every table keeps an
/// identical row count.
pub proof fn lemma_load_idempotent(
    m: StoreModel,
    lines: Seq<Seq<char>>,
    df: spec_fn(Seq<char>) -> Option<Seq<char>>,
    m2: StoreModel,
)
    requires
        load_rel(m, lines, df, m2),
    ensures
        load_rel(m2, lines, df, m2),
        forall|m3: StoreModel| #[trigger] load_rel(m2, lines, df, m3) ==> m3 == m2,
{
    lemma_load_rel_all_done(m, lines, df, m2);
    lemma_all_done_fixed(m2, lines, df);
}

/// Recording the identical fact twice within one run produces exactly what
/// recording it once does: the second step of the same record changes
/// nothing.
pub proof fn lemma_duplicate_record_absorbed(
    m: StoreModel,
    line: Seq<char>,
    df: spec_fn(Seq<char>) -> Option<Seq<char>>,
    m2: StoreModel,
    m3: StoreModel,
)
    requires
        line_step(m, line, df, m2),
        line_step(m2, line, df, m3),
    ensures
        m3 == m2,
{
    match classify_line(line) {
        LineSpec::Blank => {},
        LineSpec::Bad(_) => {},
        LineSpec::Rec { .. } => {
            lemma_rec_step_done(m, classify_line(line), df, m2);
            lemma_done_step_fixed(m2, classify_line(line), df);
        },
    }
}

/// Identity scoping: two ordinal-only records sharing a bare DLL filename
/// and ordinal but differing in operating system and full DLL path resolve
/// to one single new symbol, yet two distinct new DLL entities and two
/// distinct new operating-system entities, and record two distinct
/// relationship facts — exactly two rows when the relationship table
/// started empty.
pub proof fn lemma_ordinal_scoping(
    m: StoreModel,
    l1: LineSpec,
    l2: LineSpec,
    df: spec_fn(Seq<char>) -> Option<Seq<char>>,
    m1: StoreModel,
    m2: StoreModel,
    bare: Seq<char>,
    ordinal: u64,
)
    requires
        l1 is Rec && l2 is Rec,
        l1.sym_key() == SymKeySpec::Ordinal(bare, ordinal),
        l2.sym_key() == SymKeySpec::Ordinal(bare, ordinal),
        l1->Rec_os_key != l2->Rec_os_key,
        l1->Rec_dll_key != l2->Rec_dll_key,
        !m.os.contains_key(l1->Rec_os_key),
        !m.os.contains_key(l2->Rec_os_key),
        !m.dlls.contains_key(l1->Rec_dll_key),
        !m.dlls.contains_key(l2->Rec_dll_key),
        !m.ord.contains_key((bare, ordinal)),
        rec_step(m, l1, df, m1),
        rec_step(m1, l2, df, m2),
    ensures
        m2.ord.dom() =~= m.ord.dom().insert((bare, ordinal)),
        m2.named == m.named,
        m2.dlls.dom() =~= m.dlls.dom().insert(l1->Rec_dll_key).insert(l2->Rec_dll_key),
        m2.os.dom() =~= m.os.dom().insert(l1->Rec_os_key).insert(l2->Rec_os_key),
        m2.ord[(bare, ordinal)] == m1.ord[(bare, ordinal)],
        exists|f1: (i64, i64, i64, Option<u64>), f2: (i64, i64, i64, Option<u64>)|
            f1 != f2 && m2.rels == #[trigger] m.rels.insert(f1).insert(f2),
        m.rels == Set::<(i64, i64, i64, Option<u64>)>::empty() ==> m2.rels.len() == 2,
{
    let (a1, b1, c1) = choose|a1: i64, b1: i64, c1: i64| rec_step_ids(m, l1, df, m1, a1, b1, c1);
    let (a2, b2, c2) = choose|a2: i64, b2: i64, c2: i64| rec_step_ids(m1, l2, df, m2, a2, b2, c2);
    let ma1 = after_os(m, l1->Rec_os_key, a1);
    let mb1 = after_dll(ma1, l1->Rec_dll_key, b1);
    let mc1 = after_sym(mb1, l1.sym_key(), df, c1);
    let ma2 = after_os(m1, l2->Rec_os_key, a2);
    let mb2 = after_dll(ma2, l2->Rec_dll_key, b2);
    let mc2 = after_sym(mb2, l2.sym_key(), df, c2);
    assert(m1.ord == m.ord.insert((bare, ordinal), c1));
    assert(mc2 == mb2);
    assert(m2.ord == m1.ord);
    assert(m2.named == m.named);
    assert(m2.dlls == m.dlls.insert(l1->Rec_dll_key, b1).insert(l2->Rec_dll_key, b2));
    assert(m2.os == m.os.insert(l1->Rec_os_key, a1).insert(l2->Rec_os_key, a2));
    let f1 = (c1, b1, a1, l1->Rec_ordinal);
    let f2 = (c2, b2, a2, l2->Rec_ordinal);
    assert(m1.rels == m.rels.insert(f1));
    assert(m2.rels == m1.rels.insert(f2));
    // The second record's DLL row is created against a model that already
    // binds the first record's path to its ID, so the store hands out a
    // distinct one: the two facts cannot collide.
    assert(ma2.dlls == m1.dlls);
    assert(m1.dlls.contains_key(l1->Rec_dll_key) && m1.dlls[l1->Rec_dll_key] == b1);
    assert(!ma2.dlls.contains_key(l2->Rec_dll_key));
    assert(ma2.dll_id_fresh(b2));
    assert(b2 != b1);
    assert(f1 != f2);
    assert(m2.rels == m.rels.insert(f1).insert(f2));
    if m.rels == Set::<(i64, i64, i64, Option<u64>)>::empty() {
        broadcast use vstd::set::axiom_set_empty_len;

        vstd::set::axiom_set_insert_len(m.rels, f1);
        assert(!m.rels.insert(f1).contains(f2));
        vstd::set::axiom_set_insert_len(m.rels.insert(f1), f2);
        assert(m2.rels.len() == 2);
    }
}

} // verus!

