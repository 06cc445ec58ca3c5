//! Rows reduced to the last one per key and sorted by key, the order in
//! which rows are written to the database.
use crate::steps::reduction_step::{last_with_key, lemma_last_with_key, reduced_to_last};
use vstd::prelude::*;

verus! {

/// Lexicographic order of texts by character code, which is the order of
/// their UTF-8 bytes.
pub open spec fn text_less(a: Seq<char>, b: Seq<char>) -> bool
    decreases a.len(),
{
    if a.len() == 0 {
        b.len() > 0
    } else if b.len() == 0 {
        false
    } else if a[0] == b[0] {
        text_less(a.drop_first(), b.drop_first())
    } else {
        (a[0] as int) < (b[0] as int)
    }
}

/// `text_less` is irreflexive.
pub proof fn lemma_text_irreflexive(a: Seq<char>)
    ensures
        !text_less(a, a),
    decreases a.len(),
{
    if a.len() > 0 {
        lemma_text_irreflexive(a.drop_first());
    }
}

/// Two texts are equal or one is below the other, and not both ways.
pub proof fn lemma_text_trichotomy(a: Seq<char>, b: Seq<char>)
    ensures
        text_less(a, b) || a == b || text_less(b, a),
        !(text_less(a, b) && text_less(b, a)),
    decreases a.len(),
{
    if a.len() == 0 && b.len() == 0 {
        assert(a =~= b);
    } else if a.len() > 0 && b.len() > 0 && a[0] == b[0] {
        lemma_text_trichotomy(a.drop_first(), b.drop_first());
        if a.drop_first() == b.drop_first() {
            assert forall|k: int| 0 <= k < a.len() implies a[k] == b[k] by {
                if k > 0 {
                    assert(a[k] == a.drop_first()[k - 1]);
                    assert(b[k] == b.drop_first()[k - 1]);
                }
            }
            assert(a =~= b);
        }
    }
}

/// `text_less` is transitive.
pub proof fn lemma_text_transitive(a: Seq<char>, b: Seq<char>, c: Seq<char>)
    requires
        text_less(a, b),
        text_less(b, c),
    ensures
        text_less(a, c),
    decreases a.len(),
{
    if a.len() > 0 && b.len() > 0 && c.len() > 0 {
        if a[0] == b[0] && b[0] == c[0] {
            lemma_text_transitive(a.drop_first(), b.drop_first(), c.drop_first());
        }
    }
}

/// `text_less` is a strict total order.
pub proof fn lemma_text_order(a: Seq<char>, b: Seq<char>, c: Seq<char>)
    ensures
        !text_less(a, a),
        text_less(a, b) || a == b || text_less(b, a),
        !(text_less(a, b) && text_less(b, a)),
        text_less(a, b) && text_less(b, c) ==> text_less(a, c),
{
    lemma_text_irreflexive(a);
    lemma_text_trichotomy(a, b);
    if text_less(a, b) && text_less(b, c) {
        lemma_text_transitive(a, b, c);
    }
}

/// Inserting an element into a sequence adds it to the set of its elements.
pub proof fn lemma_insert_to_set<A>(s: Seq<A>, p: int, x: A)
    requires
        0 <= p <= s.len(),
    ensures
        s.insert(p, x).to_set() == s.to_set().insert(x),
{
    let t = s.insert(p, x);
    assert forall|e: A| t.contains(e) <==> (s.contains(e) || e == x) by {
        if t.contains(e) {
            let k = choose|k: int| 0 <= k < t.len() && t[k] == e;
            if k < p {
                assert(s[k] == e);
            } else if k > p {
                assert(s[k - 1] == e);
            }
        }
        if s.contains(e) {
            let k = choose|k: int| 0 <= k < s.len() && s[k] == e;
            if k < p {
                assert(t[k] == e);
            } else {
                assert(t[k + 1] == e);
            }
        }
        if e == x {
            assert(t[p] == x);
        }
    }
    assert(t.to_set() =~= s.to_set().insert(x));
}

/// Whether `a` comes before `b` in lexicographic order of their characters.
pub fn text_lt(a: &str, b: &str) -> (r: bool)
    ensures
        r == text_less(a@, b@),
{
    let n: usize = a.unicode_len();
    let m: usize = b.unicode_len();
    let mut i: usize = 0;
    assert(a@.skip(0) =~= a@);
    assert(b@.skip(0) =~= b@);
    while i < n && i < m
        invariant
            n == a@.len(),
            m == b@.len(),
            i <= n,
            i <= m,
            forall|k: int| 0 <= k < i ==> a@[k] == b@[k],
            text_less(a@, b@) == text_less(a@.skip(i as int), b@.skip(i as int)),
        decreases n - i,
    {
        let x = a.get_char(i);
        let y = b.get_char(i);
        proof {
            let sa = a@.skip(i as int);
            let sb = b@.skip(i as int);
            assert(sa[0] == x && sb[0] == y);
            assert(sa.drop_first() =~= a@.skip(i + 1));
            assert(sb.drop_first() =~= b@.skip(i + 1));
        }
        if x != y {
            return (x as u32) < (y as u32);
        }
        i = i + 1;
    }
    proof {
        assert(a@.skip(i as int).len() == n - i);
        assert(b@.skip(i as int).len() == m - i);
    }
    i < m && i == n
}

/// How the keys of two rows compare.
pub enum KeyOrder {
    Less,
    Same,
    Greater,
}

/// Rows with a key under a strict total order.
pub trait SortedRow: View + Sized {
    /// The key of a row.
    type Key;

    /// The key of a row, by its content.
    spec fn row_key(v: Self::V) -> Self::Key;

    /// The order of keys.
    spec fn key_less(a: Self::Key, b: Self::Key) -> bool;

    /// The order of keys is a strict total order.
    proof fn lemma_key_order(a: Self::Key, b: Self::Key, c: Self::Key)
        ensures
            !Self::key_less(a, a),
            Self::key_less(a, b) || a == b || Self::key_less(b, a),
            Self::key_less(a, b) && Self::key_less(b, c) ==> Self::key_less(a, c),
    ;

    /// How the key of this row compares with that of `other`.
    fn compare_key(&self, other: &Self) -> (r: KeyOrder)
        ensures
            r is Less <==> Self::key_less(Self::row_key(self@), Self::row_key(other@)),
            r is Same <==> Self::row_key(self@) == Self::row_key(other@),
            r is Greater <==> Self::key_less(Self::row_key(other@), Self::row_key(self@)),
    ;
}

/// Whether the keys of `rows` strictly increase.
pub open spec fn keys_increasing<T: SortedRow>(rows: Seq<T::V>) -> bool {
    forall|i: int, j: int|
        0 <= i < j < rows.len() ==> T::key_less(T::row_key(#[trigger] rows[i]), T::row_key(#[trigger] rows[j]))
}

/// The contents of rows.
pub open spec fn views_of<T: View>(rows: Seq<T>) -> Seq<T::V> {
    rows.map_values(|r: T| r@)
}

/// `v` back to front.
pub(crate) fn reversed<T>(v: Vec<T>) -> (r: Vec<T>)
    ensures
        r@.len() == v@.len(),
        forall|i: int| 0 <= i < v@.len() ==> #[trigger] r@[i] == v@[v@.len() - 1 - i],
{
    let ghost all = v@;
    let mut v = v;
    let mut r: Vec<T> = Vec::new();
    while v.len() > 0
        invariant
            v@.len() + r@.len() == all.len(),
            forall|k: int| 0 <= k < v@.len() ==> v@[k] == all[k],
            forall|k: int| 0 <= k < r@.len() ==> #[trigger] r@[k] == all[all.len() - 1 - k],
        decreases v@.len(),
    {
        let x = v.pop().unwrap();
        r.push(x);
    }
    r
}

/// The last row of each key of `rows`, in increasing order of key.
pub fn last_per_key_sorted<T: SortedRow>(rows: Vec<T>) -> (r: Vec<T>)
    ensures
        keys_increasing::<T>(views_of(r@)),
        reduced_to_last(views_of(r@), views_of(rows@), |v: T::V| T::row_key(v)),
{
    let ghost all = views_of(rows@);
    let ghost key = |v: T::V| T::row_key(v);
    let n = rows.len();
    let mut rev = reversed(rows);
    let mut out: Vec<T> = Vec::new();
    let mut i: usize = 0;
    proof {
        assert(views_of(out@) =~= Seq::<T::V>::empty());
        assert(all.take(0) =~= Seq::<T::V>::empty());
        assert(views_of(out@).map_values(key).to_set() =~= all.take(0).map_values(key).to_set());
    }
    while i < n
        invariant
            n == all.len(),
            i <= n,
            rev@.len() == n - i,
            forall|k: int| 0 <= k < rev@.len() ==> (#[trigger] rev@[k])@ == all[n - 1 - k],
            key == (|v: T::V| T::row_key(v)),
            keys_increasing::<T>(views_of(out@)),
            views_of(out@).map_values(key).to_set() == all.take(i as int).map_values(key).to_set(),
            forall|j: int|
                0 <= j < out@.len() ==> last_with_key(all.take(i as int), key, T::row_key(#[trigger] out@[j]@))
                    == Some(out@[j]@),
        decreases n - i,
    {
        let row = rev.pop().unwrap();
        let ghost x = row@;
        let ghost done = all.take(i as int);
        let ghost done2 = all.take(i + 1);
        let ghost before = views_of(out@);
        proof {
            assert(x == all[i as int]);
            assert(done2.drop_last() =~= done);
            assert(done2.last() == x);
            assert(done2.map_values(key) =~= done.map_values(key).push(T::row_key(x)));
            done.map_values(key).lemma_push_to_set_commute(T::row_key(x));
        }
        // The first position whose key is not below that of `row`.
        let mut p: usize = 0;
        let mut same = false;
        let mut stop = false;
        while p < out.len() && !stop
            invariant
                p <= out@.len(),
                forall|j: int| 0 <= j < p ==> T::key_less(T::row_key(#[trigger] out@[j]@), T::row_key(x)),
                stop ==> p < out@.len(),
                stop && same ==> T::row_key(out@[p as int]@) == T::row_key(x),
                stop && !same ==> T::key_less(T::row_key(x), T::row_key(out@[p as int]@)),
                !stop ==> !same,
                row@ == x,
            decreases out@.len() - p + (if stop { 0int } else { 1int }),
        {
            match out[p].compare_key(&row) {
                KeyOrder::Less => {
                    p = p + 1;
                },
                KeyOrder::Same => {
                    same = true;
                    stop = true;
                },
                KeyOrder::Greater => {
                    stop = true;
                },
            }
        }
        if same {
            out.set(p, row);
            proof {
                let after = views_of(out@);
                assert(after =~= before.update(p as int, x));
                assert forall|a: int, b: int| 0 <= a < b < after.len() implies T::key_less(
                    T::row_key(#[trigger] after[a]),
                    T::row_key(#[trigger] after[b]),
                ) by {
                    assert(T::row_key(before[p as int]) == T::row_key(x));
                    assert(T::key_less(T::row_key(before[a]), T::row_key(before[b])));
                }
                assert(after.map_values(key) =~= before.map_values(key));
                assert(before.map_values(key)[p as int] == T::row_key(x));
                assert(before.map_values(key).to_set().contains(T::row_key(x)));
                assert(done.map_values(key).to_set().insert(T::row_key(x)) =~= done.map_values(key).to_set());
                assert forall|j: int| 0 <= j < out@.len() implies last_with_key(done2, key, T::row_key(#[trigger] out@[j]@))
                    == Some(out@[j]@) by {
                    if j != p {
                        assert(out@[j]@ == before[j]);
                        assert(T::key_less(T::row_key(before[j]), T::row_key(before[p as int]))
                            || T::key_less(T::row_key(before[p as int]), T::row_key(before[j])));
                        T::lemma_key_order(T::row_key(before[j]), T::row_key(x), T::row_key(x));
                    }
                }
            }
        } else {
            out.insert(p, row);
            proof {
                let after = views_of(out@);
                assert(after =~= before.insert(p as int, x));
                assert forall|j: int| p <= j < before.len() implies T::key_less(
                    T::row_key(x),
                    T::row_key(#[trigger] before[j]),
                ) by {
                    assert(before[p as int] == out@[p as int]@ || true);
                    if j > p {
                        assert(T::key_less(T::row_key(before[p as int]), T::row_key(before[j])));
                        T::lemma_key_order(T::row_key(x), T::row_key(before[p as int]), T::row_key(before[j]));
                    }
                }
                assert forall|a: int, b: int| 0 <= a < b < after.len() implies T::key_less(
                    T::row_key(#[trigger] after[a]),
                    T::row_key(#[trigger] after[b]),
                ) by {
                    if a < p && b > p {
                        assert(after[a] == before[a]);
                        assert(after[b] == before[b - 1]);
                        T::lemma_key_order(T::row_key(before[a]), T::row_key(x), T::row_key(before[b - 1]));
                    } else if a < p && b == p {
                    } else if a == p {
                        assert(after[b] == before[b - 1]);
                    } else if b < p {
                    } else {
                        assert(after[a] == before[a - 1]);
                        assert(after[b] == before[b - 1]);
                    }
                }
                assert(after.map_values(key) =~= before.map_values(key).insert(p as int, T::row_key(x)));
                lemma_insert_to_set(before.map_values(key), p as int, T::row_key(x));
                assert forall|j: int| 0 <= j < out@.len() implies last_with_key(done2, key, T::row_key(#[trigger] out@[j]@))
                    == Some(out@[j]@) by {
                    if j < p {
                        assert(out@[j]@ == before[j]);
                        T::lemma_key_order(T::row_key(before[j]), T::row_key(x), T::row_key(x));
                    } else if j > p {
                        assert(out@[j]@ == before[j - 1]);
                        T::lemma_key_order(T::row_key(x), T::row_key(before[j - 1]), T::row_key(x));
                    }
                }
            }
        }
        i = i + 1;
    }
    proof {
        assert(all.take(n as int) =~= all);
        let outv = views_of(out@);
        assert forall|a: int, b: int| 0 <= a < outv.len() && 0 <= b < outv.len() && a != b implies outv.map_values(key)[a]
            != outv.map_values(key)[b] by {
            if a < b {
                T::lemma_key_order(T::row_key(outv[a]), T::row_key(outv[b]), T::row_key(outv[b]));
            } else {
                T::lemma_key_order(T::row_key(outv[b]), T::row_key(outv[a]), T::row_key(outv[a]));
            }
        }
        assert forall|j: int| 0 <= j < outv.len() implies last_with_key(all, key, key(#[trigger] outv[j])) == Some(outv[j]) by {
            assert(outv[j] == out@[j]@);
        }
    }
    out
}

/// In rows whose keys are distinct, the last row with the key of a row is
/// that row.
proof fn lemma_last_with_own_key<V, K>(rows: Seq<V>, key: spec_fn(V) -> K, i: int)
    requires
        rows.map_values(key).no_duplicates(),
        0 <= i < rows.len(),
    ensures
        last_with_key(rows, key, key(rows[i])) == Some(rows[i]),
    decreases rows.len(),
{
    if i < rows.len() - 1 {
        let ks = rows.map_values(key);
        assert(ks[i] == key(rows[i]) && ks[rows.len() - 1] == key(rows.last()));
        assert(rows.drop_last().map_values(key) =~= ks.drop_last());
        assert(rows.drop_last()[i] == rows[i]);
        lemma_last_with_own_key(rows.drop_last(), key, i);
    }
}

/// Two key-sorted sequences of rows with the same set of keys have the same
/// keys in the same order.
proof fn lemma_sorted_keys_unique<T: SortedRow>(a: Seq<T::V>, b: Seq<T::V>)
    requires
        keys_increasing::<T>(a),
        keys_increasing::<T>(b),
        a.map_values(|v: T::V| T::row_key(v)).to_set() == b.map_values(|v: T::V| T::row_key(v)).to_set(),
    ensures
        a.map_values(|v: T::V| T::row_key(v)) == b.map_values(|v: T::V| T::row_key(v)),
    decreases a.len(),
{
    let key = |v: T::V| T::row_key(v);
    let ka = a.map_values(key);
    let kb = b.map_values(key);
    if a.len() == 0 {
        if b.len() > 0 {
            assert(kb.to_set().contains(kb[0]));
        }
        assert(ka =~= kb);
    } else if b.len() == 0 {
        assert(ka.to_set().contains(ka[0]));
    } else {
        assert(ka.to_set().contains(ka[0]));
        assert(kb.to_set().contains(kb[0]));
        let j = choose|j: int| 0 <= j < kb.len() && kb[j] == ka[0];
        let k = choose|k: int| 0 <= k < ka.len() && ka[k] == kb[0];
        T::lemma_key_order(ka[0], kb[0], ka[0]);
        T::lemma_key_order(kb[0], ka[0], kb[0]);
        if j > 0 && k > 0 {
            assert(T::key_less(T::row_key(b[0]), T::row_key(b[j])));
            assert(T::key_less(T::row_key(a[0]), T::row_key(a[k])));
        } else if j > 0 {
            assert(T::key_less(T::row_key(b[0]), T::row_key(b[j])));
        } else if k > 0 {
            assert(T::key_less(T::row_key(a[0]), T::row_key(a[k])));
        }
        assert(ka[0] == kb[0]);
        let a1 = a.drop_first();
        let b1 = b.drop_first();
        assert(a1.map_values(key) =~= ka.drop_first());
        assert(b1.map_values(key) =~= kb.drop_first());
        assert forall|x: T::Key| a1.map_values(key).to_set().contains(x) implies b1.map_values(key).to_set().contains(x) by {
            let p = choose|p: int| 0 <= p < a1.map_values(key).len() && a1.map_values(key)[p] == x;
            assert(ka[p + 1] == x);
            assert(T::key_less(T::row_key(a[0]), T::row_key(a[p + 1])));
            T::lemma_key_order(x, x, x);
            assert(ka.to_set().contains(x));
            let q = choose|q: int| 0 <= q < kb.len() && kb[q] == x;
            assert(q != 0);
            assert(b1.map_values(key)[q - 1] == x);
        }
        assert forall|x: T::Key| b1.map_values(key).to_set().contains(x) implies a1.map_values(key).to_set().contains(x) by {
            let p = choose|p: int| 0 <= p < b1.map_values(key).len() && b1.map_values(key)[p] == x;
            assert(kb[p + 1] == x);
            assert(T::key_less(T::row_key(b[0]), T::row_key(b[p + 1])));
            T::lemma_key_order(x, x, x);
            assert(kb.to_set().contains(x));
            let q = choose|q: int| 0 <= q < ka.len() && ka[q] == x;
            assert(q != 0);
            assert(a1.map_values(key)[q - 1] == x);
        }
        assert(a1.map_values(key).to_set() =~= b1.map_values(key).to_set());
        lemma_sorted_keys_unique::<T>(a1, b1);
        assert(ka =~= kb) by {
            assert forall|i: int| 0 <= i < ka.len() implies ka[i] == kb[i] by {
                if i > 0 {
                    assert(ka[i] == a1.map_values(key)[i - 1]);
                    assert(kb[i] == b1.map_values(key)[i - 1]);
                }
            }
        }
    }
}

/// The rows that a batch writes are fixed by the batch: two key-sorted
/// reductions of the same rows to their last row per key are the same.
pub proof fn lemma_sorted_reduction_unique<T: SortedRow>(rows: Seq<T::V>, a: Seq<T::V>, b: Seq<T::V>)
    requires
        keys_increasing::<T>(a),
        keys_increasing::<T>(b),
        reduced_to_last(a, rows, |v: T::V| T::row_key(v)),
        reduced_to_last(b, rows, |v: T::V| T::row_key(v)),
    ensures
        a == b,
{
    let key = |v: T::V| T::row_key(v);
    lemma_sorted_keys_unique::<T>(a, b);
    assert(a.map_values(key).len() == b.map_values(key).len());
    assert forall|i: int| 0 <= i < a.len() implies a[i] == b[i] by {
        assert(a.map_values(key)[i] == b.map_values(key)[i]);
        assert(last_with_key(rows, key, key(a[i])) == Some(a[i]));
        assert(last_with_key(rows, key, key(b[i])) == Some(b[i]));
    }
    assert(a =~= b);
}

/// Rows as a batch writes them are written unchanged when written again:
/// a key-sorted reduction of such rows is those rows.
pub proof fn lemma_sorted_reduction_fixed<T: SortedRow>(rows: Seq<T::V>, out: Seq<T::V>, again: Seq<T::V>)
    requires
        keys_increasing::<T>(out),
        reduced_to_last(out, rows, |v: T::V| T::row_key(v)),
        keys_increasing::<T>(again),
        reduced_to_last(again, out, |v: T::V| T::row_key(v)),
    ensures
        again == out,
{
    let key = |v: T::V| T::row_key(v);
    assert forall|i: int| 0 <= i < out.len() implies last_with_key(out, key, key(#[trigger] out[i])) == Some(out[i]) by {
        lemma_last_with_own_key(out, key, i);
    }
    assert(reduced_to_last(out, out, key));
    lemma_sorted_reduction_unique::<T>(out, again, out);
}

} // verus!
