//! In-memory caches from natural key to surrogate ID.  They are a pure
//! performance layer scoped to one run: every binding they hold mirrors a
//! row of the store.

use vstd::prelude::*;

verus! {

/// The map denoted by a sequence of key-ID pairs; a later binding for the
/// same key wins.
pub open spec fn str_pairs_map(s: Seq<(String, i64)>) -> Map<Seq<char>, i64>
    decreases s.len(),
{
    if s.len() == 0 {
        Map::empty()
    } else {
        str_pairs_map(s.drop_last()).insert(s.last().0@, s.last().1)
    }
}

proof fn lemma_str_pairs_get(s: Seq<(String, i64)>, i: int, k: Seq<char>)
    requires
        0 <= i < s.len(),
        s[i].0@ == k,
        forall|j: int| i < j < s.len() ==> s[j].0@ != k,
    ensures
        str_pairs_map(s).contains_key(k),
        str_pairs_map(s)[k] == s[i].1,
    decreases s.len(),
{
    if i == s.len() - 1 {
    } else {
        assert(forall|j: int| i < j < s.len() - 1 ==> s.drop_last()[j] == s[j]);
        lemma_str_pairs_get(s.drop_last(), i, k);
    }
}

proof fn lemma_str_pairs_absent(s: Seq<(String, i64)>, k: Seq<char>)
    requires
        forall|j: int| 0 <= j < s.len() ==> s[j].0@ != k,
    ensures
        !str_pairs_map(s).contains_key(k),
    decreases s.len(),
{
    if s.len() > 0 {
        lemma_str_pairs_absent(s.drop_last(), k);
    }
}

/// A cache keyed by one string: short OS name, DLL path, or raw symbol
/// name.
pub struct StrIdMap {
    entries: Vec<(String, i64)>,
}

impl View for StrIdMap {
    type V = Map<Seq<char>, i64>;

    closed spec fn view(&self) -> Map<Seq<char>, i64> {
        str_pairs_map(self.entries@)
    }
}

impl StrIdMap {
    /// An empty cache.
    pub fn new() -> (r: StrIdMap)
        ensures
            r@ == Map::<Seq<char>, i64>::empty(),
    {
        StrIdMap { entries: Vec::new() }
    }

    /// The cached ID under `k`, if any.
    pub fn get(&self, k: &str) -> (r: Option<i64>)
        ensures
            r == crate::store::map_get(self@, k@),
    {
        let ks = k.to_owned();
        let mut i: usize = self.entries.len();
        while i > 0
            invariant
                i <= self.entries@.len(),
                ks@ == k@,
                forall|j: int| i <= j < self.entries@.len() ==> self.entries@[j].0@ != k@,
            decreases i,
        {
            i = i - 1;
            if self.entries[i].0 == ks {
                proof {
                    lemma_str_pairs_get(self.entries@, i as int, k@);
                }
                return Some(self.entries[i].1);
            }
        }
        proof {
            lemma_str_pairs_absent(self.entries@, k@);
        }
        None
    }

    /// Binds `k` to `id`.
    pub fn insert(&mut self, k: String, id: i64)
        ensures
            final(self)@ == old(self)@.insert(k@, id),
    {
        self.entries.push((k, id));
        proof {
            assert(self.entries@.drop_last() =~= old(self).entries@);
        }
    }
}

/// The map denoted by a sequence of (filename, ordinal, ID) triples; a later
/// binding for the same pair wins.
pub open spec fn ord_triples_map(s: Seq<(String, u64, i64)>) -> Map<(Seq<char>, u64), i64>
    decreases s.len(),
{
    if s.len() == 0 {
        Map::empty()
    } else {
        ord_triples_map(s.drop_last()).insert((s.last().0@, s.last().1), s.last().2)
    }
}

proof fn lemma_ord_triples_get(s: Seq<(String, u64, i64)>, i: int, k: (Seq<char>, u64))
    requires
        0 <= i < s.len(),
        (s[i].0@, s[i].1) == k,
        forall|j: int| i < j < s.len() ==> (s[j].0@, s[j].1) != k,
    ensures
        ord_triples_map(s).contains_key(k),
        ord_triples_map(s)[k] == s[i].2,
    decreases s.len(),
{
    if i == s.len() - 1 {
    } else {
        assert(forall|j: int| i < j < s.len() - 1 ==> s.drop_last()[j] == s[j]);
        lemma_ord_triples_get(s.drop_last(), i, k);
    }
}

proof fn lemma_ord_triples_absent(s: Seq<(String, u64, i64)>, k: (Seq<char>, u64))
    requires
        forall|j: int| 0 <= j < s.len() ==> (s[j].0@, s[j].1) != k,
    ensures
        !ord_triples_map(s).contains_key(k),
    decreases s.len(),
{
    if s.len() > 0 {
        lemma_ord_triples_absent(s.drop_last(), k);
    }
}

/// The cache for ordinal-only symbols, keyed by bare DLL filename and
/// ordinal.
pub struct OrdIdMap {
    entries: Vec<(String, u64, i64)>,
}

impl View for OrdIdMap {
    type V = Map<(Seq<char>, u64), i64>;

    closed spec fn view(&self) -> Map<(Seq<char>, u64), i64> {
        ord_triples_map(self.entries@)
    }
}

impl OrdIdMap {
    /// An empty cache.
    pub fn new() -> (r: OrdIdMap)
        ensures
            r@ == Map::<(Seq<char>, u64), i64>::empty(),
    {
        OrdIdMap { entries: Vec::new() }
    }

    /// The cached ID under the pair, if any.
    pub fn get(&self, name: &str, ordinal: u64) -> (r: Option<i64>)
        ensures
            r == crate::store::map_get(self@, (name@, ordinal)),
    {
        let ks = name.to_owned();
        let mut i: usize = self.entries.len();
        while i > 0
            invariant
                i <= self.entries@.len(),
                ks@ == name@,
                forall|j: int|
                    i <= j < self.entries@.len() ==> (self.entries@[j].0@, self.entries@[j].1) != (
                    name@,
                    ordinal,
                ),
            decreases i,
        {
            i = i - 1;
            if self.entries[i].0 == ks && self.entries[i].1 == ordinal {
                proof {
                    lemma_ord_triples_get(self.entries@, i as int, (name@, ordinal));
                }
                return Some(self.entries[i].2);
            }
        }
        proof {
            lemma_ord_triples_absent(self.entries@, (name@, ordinal));
        }
        None
    }

    /// Binds the pair to `id`.
    pub fn insert(&mut self, name: String, ordinal: u64, id: i64)
        ensures
            final(self)@ == old(self)@.insert((name@, ordinal), id),
    {
        self.entries.push((name, ordinal, id));
        proof {
            assert(self.entries@.drop_last() =~= old(self).entries@);
        }
    }
}

} // verus!
