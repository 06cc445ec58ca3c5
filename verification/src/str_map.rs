//! A map keyed by strings that remembers the order in which keys were first
//! inserted. Lookups go through an `ahash::AHashMap` from key to position;
//! keys and values are held in insertion order.
use ahash::AHashMap;
use vstd::prelude::*;

verus! {

/// `ahash::AHashMap`, the index of a `StrMap`; opaque here, its entries
/// named below.
#[verifier::external_type_specification]
#[verifier::external_body]
#[verifier::reject_recursive_types(K)]
#[verifier::reject_recursive_types(V)]
#[verifier::reject_recursive_types(S)]
pub struct ExAHashMap<K, V, S>(AHashMap<K, V, S>);

/// `ahash::RandomState`, the hasher of an `AHashMap`; opaque here.
#[verifier::external_type_specification]
#[verifier::external_body]
pub struct ExAHashRandomState(ahash::RandomState);

/// The key-to-position entries held by an `AHashMap<String, usize>`.
pub uninterp spec fn ahash_index_entries(m: AHashMap<String, usize>) -> Map<Seq<char>, usize>;

/// The entries of an empty index.
pub open spec fn no_entries() -> Map<Seq<char>, usize> {
    Map::empty()
}

/// `AHashMap::new`: a map with no entries.
#[verifier::external_body]
fn ahash_index_new() -> (r: AHashMap<String, usize>)
    ensures
        ahash_index_entries(r) == no_entries(),
{
    AHashMap::new()
}

/// `AHashMap::get`: the value stored under `k`, if any.
#[verifier::external_body]
fn ahash_index_get(m: &AHashMap<String, usize>, k: &str) -> (r: Option<usize>)
    ensures
        r is Some <==> ahash_index_entries(*m).contains_key(k@),
        r matches Some(i) ==> ahash_index_entries(*m)[k@] == i,
{
    m.get(k).copied()
}

/// `AHashMap::insert`: stores `v` under `k`, replacing any earlier value.
#[verifier::external_body]
fn ahash_index_insert(m: &mut AHashMap<String, usize>, k: String, v: usize)
    ensures
        ahash_index_entries(*final(m)) == ahash_index_entries(*old(m)).insert(k@, v),
{
    m.insert(k, v);
}

/// The position of the first entry with key `k`; `s.len()` when none has.
pub open spec fn assoc_pos<K, V>(s: Seq<(K, V)>, k: K) -> int
    decreases s.len(),
{
    if s.len() == 0 {
        0
    } else if s[0].0 == k {
        0
    } else {
        1 + assoc_pos(s.drop_first(), k)
    }
}

/// `s` with the value of key `k` set to `v`, as a map insert: an entry
/// with that key is replaced in place, else one is added at the end.
pub open spec fn assoc_insert<K, V>(s: Seq<(K, V)>, k: K, v: V) -> Seq<(K, V)> {
    if assoc_pos(s, k) < s.len() {
        s.update(assoc_pos(s, k), (k, v))
    } else {
        s.push((k, v))
    }
}

/// The value of key `k` in `s`.
pub open spec fn assoc_get<K, V>(s: Seq<(K, V)>, k: K) -> Option<V> {
    if assoc_pos(s, k) < s.len() {
        Some(s[assoc_pos(s, k)].1)
    } else {
        None
    }
}

/// `assoc_pos` is a position of `s` or its length, and no entry before it
/// has key `k`.
pub proof fn lemma_assoc_pos<K, V>(s: Seq<(K, V)>, k: K)
    ensures
        0 <= assoc_pos(s, k) <= s.len(),
        assoc_pos(s, k) < s.len() ==> s[assoc_pos(s, k)].0 == k,
        forall|j: int| 0 <= j < assoc_pos(s, k) ==> (#[trigger] s[j]).0 != k,
    decreases s.len(),
{
    if s.len() > 0 && s[0].0 != k {
        lemma_assoc_pos(s.drop_first(), k);
        assert forall|j: int| 0 <= j < assoc_pos(s, k) implies (#[trigger] s[j]).0 != k by {
            if j > 0 {
                assert(s[j] == s.drop_first()[j - 1]);
            }
        }
    }
}

/// The entries of a map in key order, each value seen through `f`.
pub open spec fn entries_by<V, W>(m: StrMap<V>, f: spec_fn(V) -> W) -> Seq<(Seq<char>, W)> {
    Seq::new(m.key_seq().len(), |i: int| (m.key_seq()[i], f(m.val_seq()[i])))
}

/// In the entries of a map, a key is found at its position.
pub proof fn lemma_entries_pos<V, W>(m: StrMap<V>, f: spec_fn(V) -> W, k: Seq<char>)
    requires
        m.wf(),
    ensures
        m.view_map().contains_key(k) ==> assoc_pos(entries_by(m, f), k) == m.pos_of(k),
        !m.view_map().contains_key(k) ==> assoc_pos(entries_by(m, f), k) == m.key_seq().len(),
{
    m.lemma_wf_facts();
    let e = entries_by(m, f);
    lemma_assoc_pos(e, k);
    let p = assoc_pos(e, k);
    if m.view_map().contains_key(k) {
        let q = m.pos_of(k);
        assert(e[q].0 == k);
        if p < q {
            assert(e[p].0 == k);
            assert(m.key_seq()[p] == m.key_seq()[q]);
        }
    } else {
        if p < e.len() {
            assert(m.key_seq()[p] == k);
            assert(m.key_seq().contains(k));
        }
    }
}

/// Inserting into a map inserts into its entries.
pub proof fn lemma_entries_insert<V, W>(a: StrMap<V>, b: StrMap<V>, k: Seq<char>, v: V, f: spec_fn(V) -> W)
    requires
        a.wf(),
        a.view_map().contains_key(k) ==> b.key_seq() == a.key_seq() && b.val_seq() == a.val_seq().update(
            a.pos_of(k),
            v,
        ),
        !a.view_map().contains_key(k) ==> b.key_seq() == a.key_seq().push(k) && b.val_seq()
            == a.val_seq().push(v),
    ensures
        entries_by(b, f) == assoc_insert(entries_by(a, f), k, f(v)),
{
    lemma_entries_pos(a, f, k);
    a.lemma_wf_facts();
    let ea = entries_by(a, f);
    if a.view_map().contains_key(k) {
        assert(entries_by(b, f) =~= ea.update(a.pos_of(k), (k, f(v))));
    } else {
        assert(entries_by(b, f) =~= ea.push((k, f(v))));
    }
}

/// A string-keyed map that keeps its keys in first-insertion order.
pub struct StrMap<V> {
    index: AHashMap<String, usize>,
    keys: Vec<String>,
    vals: Vec<V>,
}

impl<V> StrMap<V> {
    /// The keys, in first-insertion order.
    pub closed spec fn key_seq(&self) -> Seq<Seq<char>> {
        self.keys@.map_values(|k: String| k@)
    }

    /// The values, in the order of their keys.
    pub closed spec fn val_seq(&self) -> Seq<V> {
        self.vals@
    }

    /// Position of a present key in key order.
    pub closed spec fn pos_of(&self, k: Seq<char>) -> int {
        ahash_index_entries(self.index)[k] as int
    }

    /// Internal consistency of index, keys and values.
    pub closed spec fn wf(&self) -> bool {
        let e = ahash_index_entries(self.index);
        &&& self.keys@.len() == self.vals@.len()
        &&& forall|i: int|
            0 <= i < self.keys@.len() ==> e.contains_key(#[trigger] self.keys@[i]@) && e[self.keys@[i]@]
                == i
        &&& forall|k: Seq<char>|
            #[trigger] e.contains_key(k) ==> e[k] < self.keys@.len() && self.keys@[e[k] as int]@ == k
    }

    /// The map from key to value.
    pub closed spec fn view_map(&self) -> Map<Seq<char>, V> {
        Map::new(
            |k: Seq<char>| ahash_index_entries(self.index).contains_key(k),
            |k: Seq<char>| self.vals@[ahash_index_entries(self.index)[k] as int],
        )
    }

    pub proof fn lemma_wf_facts(&self)
        requires
            self.wf(),
        ensures
            self.key_seq().len() == self.val_seq().len(),
            self.key_seq().no_duplicates(),
            forall|k: Seq<char>| #[trigger]
                self.view_map().contains_key(k) <==> self.key_seq().contains(k),
            forall|i: int|
                0 <= i < self.key_seq().len() ==> #[trigger] self.view_map()[self.key_seq()[i]]
                    == self.val_seq()[i],
            self.view_map().dom().finite(),
            forall|k: Seq<char>| #[trigger]
                self.view_map().contains_key(k) ==> 0 <= self.pos_of(k) < self.key_seq().len()
                    && self.key_seq()[self.pos_of(k)] == k,
    {
        let e = ahash_index_entries(self.index);
        assert forall|k: Seq<char>| #[trigger]
            self.view_map().contains_key(k) <==> self.key_seq().contains(k) by {
            if e.contains_key(k) {
                let i = e[k] as int;
                assert(self.key_seq()[i] == k);
            }
            if self.key_seq().contains(k) {
                let i = choose|i: int| 0 <= i < self.key_seq().len() && self.key_seq()[i] == k;
                assert(self.keys@[i]@ == k);
            }
        }
        assert forall|i: int, j: int|
            0 <= i < self.key_seq().len() && 0 <= j < self.key_seq().len() && i != j implies self.key_seq()[i]
            != self.key_seq()[j] by {
            assert(self.key_seq()[i] == self.keys@[i]@);
            assert(self.key_seq()[j] == self.keys@[j]@);
        }
        assert forall|i: int| 0 <= i < self.key_seq().len() implies #[trigger] self.view_map()[self.key_seq()[i]]
            == self.val_seq()[i] by {
            assert(self.key_seq()[i] == self.keys@[i]@);
        }
        assert(self.view_map().dom() =~= self.key_seq().to_set());
    }

    /// An empty map.
    pub fn new() -> (m: Self)
        ensures
            m.wf(),
            m.view_map() == Map::<Seq<char>, V>::empty(),
            m.key_seq() == Seq::<Seq<char>>::empty(),
    {
        let m = StrMap { index: ahash_index_new(), keys: Vec::new(), vals: Vec::new() };
        assert(m.view_map() =~= Map::<Seq<char>, V>::empty());
        assert(m.key_seq() =~= Seq::<Seq<char>>::empty());
        m
    }

    /// Number of keys.
    pub fn len(&self) -> (n: usize)
        requires
            self.wf(),
        ensures
            n == self.key_seq().len(),
    {
        self.keys.len()
    }

    /// Position of `k` in key order, if present.
    pub fn position(&self, k: &str) -> (r: Option<usize>)
        requires
            self.wf(),
        ensures
            r is Some <==> self.view_map().contains_key(k@),
            r matches Some(i) ==> i < self.key_seq().len() && self.key_seq()[i as int] == k@,
    {
        ahash_index_get(&self.index, k)
    }

    /// The value stored under `k`, if any.
    pub fn get(&self, k: &str) -> (r: Option<&V>)
        requires
            self.wf(),
        ensures
            r is Some <==> self.view_map().contains_key(k@),
            r matches Some(v) ==> *v == self.view_map()[k@],
    {
        match ahash_index_get(&self.index, k) {
            Some(i) => Some(&self.vals[i]),
            None => None,
        }
    }

    /// Whether `k` is a key.
    pub fn contains_key(&self, k: &str) -> (r: bool)
        requires
            self.wf(),
        ensures
            r == self.view_map().contains_key(k@),
    {
        ahash_index_get(&self.index, k).is_some()
    }

    /// The key at position `i`.
    pub fn key_at(&self, i: usize) -> (k: &String)
        requires
            self.wf(),
            i < self.key_seq().len(),
        ensures
            k@ == self.key_seq()[i as int],
    {
        &self.keys[i]
    }

    /// The value at position `i`.
    pub fn value_at(&self, i: usize) -> (v: &V)
        requires
            self.wf(),
            i < self.key_seq().len(),
        ensures
            *v == self.val_seq()[i as int],
    {
        &self.vals[i]
    }

    /// Stores `v` under `k`: a new key goes last, a known key keeps its place
    /// and gets the new value.
    pub fn insert(&mut self, k: String, v: V)
        requires
            old(self).wf(),
        ensures
            final(self).wf(),
            final(self).view_map() == old(self).view_map().insert(k@, v),
            old(self).view_map().contains_key(k@) ==> final(self).key_seq() == old(self).key_seq(),
            !old(self).view_map().contains_key(k@) ==> final(self).key_seq() == old(self).key_seq().push(
                k@,
            ),
            final(self).val_seq() == (if old(self).view_map().contains_key(k@) {
                old(self).val_seq().update(old(self).pos_of(k@), v)
            } else {
                old(self).val_seq().push(v)
            }),
    {
        match ahash_index_get(&self.index, k.as_str()) {
            Some(i) => {
                self.vals.set(i, v);
                assert(self.view_map() =~= old(self).view_map().insert(k@, v));
            },
            None => {
                let pos: usize = self.keys.len();
                let kc = k.clone();
                ahash_index_insert(&mut self.index, kc, pos);
                self.keys.push(k);
                self.vals.push(v);
                let ghost e = ahash_index_entries(self.index);
                assert forall|i: int| 0 <= i < self.keys@.len() implies e.contains_key(
                    #[trigger] self.keys@[i]@,
                ) && e[self.keys@[i]@] == i by {
                    if i < pos {
                        assert(self.keys@[i] == old(self).keys@[i]);
                    }
                }
                assert(self.key_seq() =~= old(self).key_seq().push(k@));
                assert(self.view_map() =~= old(self).view_map().insert(k@, v));
            },
        }
    }

    /// Replaces the value at position `i`.
    pub fn set_at(&mut self, i: usize, v: V)
        requires
            old(self).wf(),
            i < old(self).key_seq().len(),
        ensures
            final(self).wf(),
            final(self).key_seq() == old(self).key_seq(),
            final(self).val_seq() == old(self).val_seq().update(i as int, v),
            final(self).view_map() == old(self).view_map().insert(old(self).key_seq()[i as int], v),
    {
        self.vals.set(i, v);
        proof {
            let k = old(self).key_seq()[i as int];
            assert(k == self.keys@[i as int]@);
            assert(self.view_map() =~= old(self).view_map().insert(k, v));
        }
    }

    /// Puts `v` at position `i` and hands back the value that was there.
    pub fn replace_at(&mut self, i: usize, v: V) -> (r: V)
        requires
            old(self).wf(),
            i < old(self).key_seq().len(),
        ensures
            final(self).wf(),
            r == old(self).val_seq()[i as int],
            final(self).key_seq() == old(self).key_seq(),
            final(self).val_seq() == old(self).val_seq().update(i as int, v),
            final(self).view_map() == old(self).view_map().insert(old(self).key_seq()[i as int], v),
    {
        let mut v = v;
        std::mem::swap(&mut v, &mut self.vals[i]);
        proof {
            let k = old(self).key_seq()[i as int];
            assert(k == self.keys@[i as int]@);
            assert(self.vals@ == old(self).vals@.update(i as int, self.vals@[i as int]));
            assert(self.view_map() =~= old(self).view_map().insert(k, self.vals@[i as int]));
        }
        v
    }

    /// The values, in key order.
    pub fn into_values(self) -> (r: Vec<V>)
        requires
            self.wf(),
        ensures
            r@ == self.val_seq(),
    {
        self.vals
    }

    /// The keys, in first-insertion order.
    pub fn keys(&self) -> (r: &Vec<String>)
        requires
            self.wf(),
        ensures
            r@.map_values(|k: String| k@) == self.key_seq(),
    {
        &self.keys
    }
}

} // verus!
