//! The writing step: a batch of rows reduced to one row per primary key and
//! sorted by it, so that concurrent writers take row locks in one order.
use crate::keyed_rows::{
    last_per_key_sorted, lemma_text_order, reversed, text_less, text_lt, views_of, keys_increasing,
    KeyOrder, SortedRow,
};
use crate::str_map::StrMap;
use crate::models::nft_models::{
    CurrentNFTMarketplaceCollectionOffer, CurrentNFTMarketplaceCollectionOfferView,
    CurrentNFTMarketplaceListing, CurrentNFTMarketplaceListingView,
    CurrentNFTMarketplaceTokenOffer, CurrentNFTMarketplaceTokenOfferView, NftMarketplaceActivity,
    NftMarketplaceActivityView,
};
use crate::steps::reduction_step::{
    holds_last, last_with_key, lemma_holds_last_insert, lemma_holds_last_values, lemma_last_with_key,
    lemma_reduced_to_last_same_keys, lemma_reduced_to_last_trans, reduced_to_last,
};
use crate::text::{i64_to_string, int_to_decimal, lemma_int_to_decimal_injective, str_eq, str_to_string};
use crate::utils::BlockTimestamp;
use vstd::prelude::*;

verus! {

/// The rows written per statement.
pub const CHUNK_SIZE: usize = 200;

/// Lexicographic order of pairs of integers.
pub open spec fn pair_less(a: (i64, i64), b: (i64, i64)) -> bool {
    a.0 < b.0 || (a.0 == b.0 && a.1 < b.1)
}

/// Lexicographic order of pairs of texts.
pub open spec fn text_pair_less(a: (Seq<char>, Seq<char>), b: (Seq<char>, Seq<char>)) -> bool {
    text_less(a.0, b.0) || (a.0 == b.0 && text_less(a.1, b.1))
}

/// Whether time `a` is not later than time `b`.
pub open spec fn time_not_after(a: BlockTimestamp, b: BlockTimestamp) -> bool {
    a.secs() < b.secs() || (a.secs() == b.secs() && a.nsecs() <= b.nsecs())
}

/// The current listing stored for a token after upserting `row` over
/// `stored`: `row` when nothing is stored; when the stored time is not later
/// than the row's, the stored listing with its state (deleted flag, time,
/// amount, version and price) taken from `row`; the stored listing otherwise.
pub open spec fn listing_after_upsert(
    stored: Option<CurrentNFTMarketplaceListingView>,
    row: CurrentNFTMarketplaceListingView,
) -> CurrentNFTMarketplaceListingView {
    match stored {
        Some(s) => if time_not_after(s.last_transaction_timestamp, row.last_transaction_timestamp) {
            CurrentNFTMarketplaceListingView {
                is_deleted: row.is_deleted,
                last_transaction_timestamp: row.last_transaction_timestamp,
                token_amount: row.token_amount,
                last_transaction_version: row.last_transaction_version,
                price: row.price,
                ..s
            }
        } else {
            s
        },
        None => row,
    }
}

/// The current token offer stored for a token and buyer after upserting
/// `row` over `stored`: `row` when nothing is stored; when the stored version
/// is older than the row's, the stored offer with its state taken from
/// `row`; the stored offer otherwise.
pub open spec fn token_offer_after_upsert(
    stored: Option<CurrentNFTMarketplaceTokenOfferView>,
    row: CurrentNFTMarketplaceTokenOfferView,
) -> CurrentNFTMarketplaceTokenOfferView {
    match stored {
        Some(s) => if s.last_transaction_version < row.last_transaction_version {
            CurrentNFTMarketplaceTokenOfferView {
                is_deleted: row.is_deleted,
                last_transaction_timestamp: row.last_transaction_timestamp,
                token_amount: row.token_amount,
                last_transaction_version: row.last_transaction_version,
                price: row.price,
                ..s
            }
        } else {
            s
        },
        None => row,
    }
}

/// The current collection offer stored under an offer id after upserting
/// `row` over `stored`: `row` when nothing is stored; when the stored version
/// is older than the row's, the stored offer with its state taken from
/// `row`; the stored offer otherwise.
pub open spec fn collection_offer_after_upsert(
    stored: Option<CurrentNFTMarketplaceCollectionOfferView>,
    row: CurrentNFTMarketplaceCollectionOfferView,
) -> CurrentNFTMarketplaceCollectionOfferView {
    match stored {
        Some(s) => if s.last_transaction_version < row.last_transaction_version {
            CurrentNFTMarketplaceCollectionOfferView {
                is_deleted: row.is_deleted,
                last_transaction_timestamp: row.last_transaction_timestamp,
                remaining_token_amount: row.remaining_token_amount,
                last_transaction_version: row.last_transaction_version,
                price: row.price,
                ..s
            }
        } else {
            s
        },
        None => row,
    }
}

/// An upsert never takes a current listing back in time: the stored time
/// afterwards is not earlier than before, the token stays, and upserting
/// the same row again changes nothing.
pub proof fn lemma_listing_upsert_never_goes_back(
    stored: Option<CurrentNFTMarketplaceListingView>,
    row: CurrentNFTMarketplaceListingView,
)
    ensures
        stored matches Some(s) ==> time_not_after(
            s.last_transaction_timestamp,
            listing_after_upsert(stored, row).last_transaction_timestamp,
        ) && listing_after_upsert(stored, row).token_data_id == s.token_data_id,
        listing_after_upsert(Some(listing_after_upsert(stored, row)), row) == listing_after_upsert(
            stored,
            row,
        ),
{
}

/// An upsert never takes a current token offer back in versions: the stored
/// version afterwards is the later of the stored and the written one, the
/// token and buyer stay, and upserting the same row again changes nothing.
pub proof fn lemma_token_offer_upsert_never_goes_back(
    stored: Option<CurrentNFTMarketplaceTokenOfferView>,
    row: CurrentNFTMarketplaceTokenOfferView,
)
    ensures
        token_offer_after_upsert(stored, row).last_transaction_version >= row.last_transaction_version,
        stored matches Some(s) ==> token_offer_after_upsert(stored, row).last_transaction_version
            >= s.last_transaction_version && token_offer_after_upsert(stored, row).token_data_id
            == s.token_data_id && token_offer_after_upsert(stored, row).buyer == s.buyer,
        token_offer_after_upsert(Some(token_offer_after_upsert(stored, row)), row)
            == token_offer_after_upsert(stored, row),
{
}

/// An upsert never takes a current collection offer back in versions: the
/// stored version afterwards is the later of the stored and the written one,
/// the offer id stays, and upserting the same row again changes nothing.
pub proof fn lemma_collection_offer_upsert_never_goes_back(
    stored: Option<CurrentNFTMarketplaceCollectionOfferView>,
    row: CurrentNFTMarketplaceCollectionOfferView,
)
    ensures
        collection_offer_after_upsert(stored, row).last_transaction_version
            >= row.last_transaction_version,
        stored matches Some(s) ==> collection_offer_after_upsert(stored, row).last_transaction_version
            >= s.last_transaction_version && collection_offer_after_upsert(
            stored,
            row,
        ).collection_offer_id == s.collection_offer_id,
        collection_offer_after_upsert(Some(collection_offer_after_upsert(stored, row)), row)
            == collection_offer_after_upsert(stored, row),
{
}

/// How two texts compare.
fn compare_text(a: &str, b: &str) -> (r: KeyOrder)
    ensures
        r is Less <==> text_less(a@, b@),
        r is Same <==> a@ == b@,
        r is Greater <==> text_less(b@, a@),
{
    proof {
        lemma_text_order(a@, b@, b@);
    }
    if str_eq(a, b) {
        KeyOrder::Same
    } else if text_lt(a, b) {
        KeyOrder::Less
    } else {
        KeyOrder::Greater
    }
}

impl SortedRow for NftMarketplaceActivity {
    type Key = (i64, i64);

    open spec fn row_key(v: NftMarketplaceActivityView) -> (i64, i64) {
        (v.txn_version, v.index)
    }

    open spec fn key_less(a: (i64, i64), b: (i64, i64)) -> bool {
        pair_less(a, b)
    }

    proof fn lemma_key_order(a: (i64, i64), b: (i64, i64), c: (i64, i64)) {
    }

    fn compare_key(&self, other: &Self) -> (r: KeyOrder) {
        if self.txn_version < other.txn_version || (self.txn_version == other.txn_version
            && self.index < other.index) {
            KeyOrder::Less
        } else if self.txn_version == other.txn_version && self.index == other.index {
            KeyOrder::Same
        } else {
            KeyOrder::Greater
        }
    }
}

impl SortedRow for CurrentNFTMarketplaceListing {
    type Key = Seq<char>;

    open spec fn row_key(v: CurrentNFTMarketplaceListingView) -> Seq<char> {
        v.token_data_id
    }

    open spec fn key_less(a: Seq<char>, b: Seq<char>) -> bool {
        text_less(a, b)
    }

    proof fn lemma_key_order(a: Seq<char>, b: Seq<char>, c: Seq<char>) {
        lemma_text_order(a, b, c);
    }

    fn compare_key(&self, other: &Self) -> (r: KeyOrder) {
        compare_text(self.token_data_id.as_str(), other.token_data_id.as_str())
    }
}

impl SortedRow for CurrentNFTMarketplaceTokenOffer {
    type Key = (Seq<char>, Seq<char>);

    open spec fn row_key(v: CurrentNFTMarketplaceTokenOfferView) -> (Seq<char>, Seq<char>) {
        (v.token_data_id, v.buyer)
    }

    open spec fn key_less(a: (Seq<char>, Seq<char>), b: (Seq<char>, Seq<char>)) -> bool {
        text_pair_less(a, b)
    }

    proof fn lemma_key_order(a: (Seq<char>, Seq<char>), b: (Seq<char>, Seq<char>), c: (Seq<char>, Seq<char>)) {
        lemma_text_order(a.0, b.0, c.0);
        lemma_text_order(a.1, b.1, c.1);
        lemma_text_order(b.0, a.0, c.0);
        lemma_text_order(a.0, c.0, b.0);
    }

    fn compare_key(&self, other: &Self) -> (r: KeyOrder) {
        proof {
            lemma_text_order(self@.token_data_id, other@.token_data_id, other@.token_data_id);
            lemma_text_order(self@.buyer, other@.buyer, other@.buyer);
        }
        match compare_text(self.token_data_id.as_str(), other.token_data_id.as_str()) {
            KeyOrder::Less => KeyOrder::Less,
            KeyOrder::Greater => KeyOrder::Greater,
            KeyOrder::Same => compare_text(self.buyer.as_str(), other.buyer.as_str()),
        }
    }
}

impl SortedRow for CurrentNFTMarketplaceCollectionOffer {
    type Key = Seq<char>;

    open spec fn row_key(v: CurrentNFTMarketplaceCollectionOfferView) -> Seq<char> {
        v.collection_offer_id
    }

    open spec fn key_less(a: Seq<char>, b: Seq<char>) -> bool {
        text_less(a, b)
    }

    proof fn lemma_key_order(a: Seq<char>, b: Seq<char>, c: Seq<char>) {
        lemma_text_order(a, b, c);
    }

    fn compare_key(&self, other: &Self) -> (r: KeyOrder) {
        compare_text(self.collection_offer_id.as_str(), other.collection_offer_id.as_str())
    }
}

/// The step that writes rows through the database pool `P`.
pub struct DBWritingStep<P> {
    pub db_pool: P,
}

impl<P> DBWritingStep<P> {
    /// The name of the step.
    pub fn name(&self) -> (r: String)
        ensures
            r@ == "DBWritingStep"@,
    {
        str_to_string("DBWritingStep")
    }

    /// A step writing through `db_pool`.
    pub fn new(db_pool: P) -> (r: DBWritingStep<P>)
        ensures
            r.db_pool == db_pool,
    {
        DBWritingStep { db_pool }
    }
}

/// The last listing of each token in `rows`, gathered in a map keyed by
/// token (an `AHashMap` index underneath).
fn last_listing_per_token(rows: Vec<CurrentNFTMarketplaceListing>) -> (r: Vec<CurrentNFTMarketplaceListing>)
    ensures
        reduced_to_last(views_of(r@), views_of(rows@), |v: CurrentNFTMarketplaceListingView| CurrentNFTMarketplaceListing::row_key(v)),
{
    let ghost all = views_of(rows@);
    let ghost key = |v: CurrentNFTMarketplaceListingView| CurrentNFTMarketplaceListing::row_key(v);
    let n = rows.len();
    let mut rev = reversed(rows);
    let mut m: StrMap<CurrentNFTMarketplaceListing> = StrMap::new();
    let mut i: usize = 0;
    proof {
        assert(all.take(0).map_values(key).to_set() =~= Set::<Seq<char>>::empty());
        assert(m.view_map().dom() =~= Set::<Seq<char>>::empty());
    }
    while i < n
        invariant
            n == all.len(),
            i <= n,
            rev@.len() == n - i,
            forall|k: int| 0 <= k < rev@.len() ==> (#[trigger] rev@[k])@ == all[n - 1 - k],
            key == (|v: CurrentNFTMarketplaceListingView| CurrentNFTMarketplaceListing::row_key(v)),
            m.wf(),
            holds_last(m.view_map(), all.take(i as int), key),
        decreases n - i,
    {
        let row = rev.pop().unwrap();
        proof {
            assert(row@ == all[i as int]);
            assert(all.take(i + 1) =~= all.take(i as int).push(row@));
            lemma_holds_last_insert(m.view_map(), all.take(i as int), key, row);
        }
        let k = row.token_data_id.clone();
        m.insert(k, row);
        i = i + 1;
    }
    proof {
        assert(all.take(n as int) =~= all);
        m.lemma_wf_facts();
        lemma_holds_last_values(m.view_map(), all, key, m.key_seq(), m.val_seq());
    }
    let r = m.into_values();
    assert(views_of(r@) =~= r@.map_values(|x: CurrentNFTMarketplaceListing| x@));
    r
}

/// The last collection offer of each offer id in `rows`, gathered in a map
/// keyed by offer id (an `AHashMap` index underneath).
fn last_collection_offer_per_id(rows: Vec<CurrentNFTMarketplaceCollectionOffer>) -> (r: Vec<CurrentNFTMarketplaceCollectionOffer>)
    ensures
        reduced_to_last(views_of(r@), views_of(rows@), |v: CurrentNFTMarketplaceCollectionOfferView| CurrentNFTMarketplaceCollectionOffer::row_key(v)),
{
    let ghost all = views_of(rows@);
    let ghost key = |v: CurrentNFTMarketplaceCollectionOfferView| CurrentNFTMarketplaceCollectionOffer::row_key(v);
    let n = rows.len();
    let mut rev = reversed(rows);
    let mut m: StrMap<CurrentNFTMarketplaceCollectionOffer> = StrMap::new();
    let mut i: usize = 0;
    proof {
        assert(all.take(0).map_values(key).to_set() =~= Set::<Seq<char>>::empty());
        assert(m.view_map().dom() =~= Set::<Seq<char>>::empty());
    }
    while i < n
        invariant
            n == all.len(),
            i <= n,
            rev@.len() == n - i,
            forall|k: int| 0 <= k < rev@.len() ==> (#[trigger] rev@[k])@ == all[n - 1 - k],
            key == (|v: CurrentNFTMarketplaceCollectionOfferView| CurrentNFTMarketplaceCollectionOffer::row_key(v)),
            m.wf(),
            holds_last(m.view_map(), all.take(i as int), key),
        decreases n - i,
    {
        let row = rev.pop().unwrap();
        proof {
            assert(row@ == all[i as int]);
            assert(all.take(i + 1) =~= all.take(i as int).push(row@));
            lemma_holds_last_insert(m.view_map(), all.take(i as int), key, row);
        }
        let k = row.collection_offer_id.clone();
        m.insert(k, row);
        i = i + 1;
    }
    proof {
        assert(all.take(n as int) =~= all);
        m.lemma_wf_facts();
        lemma_holds_last_values(m.view_map(), all, key, m.key_seq(), m.val_seq());
    }
    let r = m.into_values();
    assert(views_of(r@) =~= r@.map_values(|x: CurrentNFTMarketplaceCollectionOffer| x@));
    r
}

/// Whether the map of maps `outer` (by first key, then by second key)
/// holds exactly the rows of `flat` (by both keys).
spec fn nested_holds<T>(outer: StrMap<StrMap<T>>, flat: Map<(Seq<char>, Seq<char>), T>) -> bool {
    &&& outer.wf()
    &&& forall|t: Seq<char>| #[trigger] outer.view_map().contains_key(t) ==> outer.view_map()[t].wf()
    &&& forall|q: (Seq<char>, Seq<char>)| #[trigger]
        flat.contains_key(q) <==> (outer.view_map().contains_key(q.0) && outer.view_map()[q.0].view_map().contains_key(q.1))
    &&& forall|q: (Seq<char>, Seq<char>)| #[trigger]
        flat.contains_key(q) ==> flat[q] == outer.view_map()[q.0].view_map()[q.1]
}

/// The rows of `rows` (each given with the two texts of its key), the last
/// of each key, gathered in a map keyed by the first text whose values are
/// maps keyed by the second (`AHashMap` indexes underneath).
fn last_per_text_pair<T: View>(
    rows: Vec<(String, String, T)>,
    Ghost(key): Ghost<spec_fn(T::V) -> (Seq<char>, Seq<char>)>,
) -> (r: Vec<T>)
    requires
        forall|i: int|
            0 <= i < rows@.len() ==> (#[trigger] rows@[i]).0@ == key(rows@[i].2@).0 && rows@[i].1@ == key(
                rows@[i].2@,
            ).1,
    ensures
        reduced_to_last(views_of(r@), rows@.map_values(|x: (String, String, T)| x.2@), key),
{
    let ghost all = rows@.map_values(|x: (String, String, T)| x.2@);
    let n = rows.len();
    let mut rev = reversed(rows);
    let mut outer: StrMap<StrMap<T>> = StrMap::new();
    let ghost mut flat: Map<(Seq<char>, Seq<char>), T> = Map::empty();
    let mut i: usize = 0;
    proof {
        assert(all.take(0).map_values(key).to_set() =~= Set::<(Seq<char>, Seq<char>)>::empty());
        assert(flat.dom() =~= Set::<(Seq<char>, Seq<char>)>::empty());
    }
    while i < n
        invariant
            n == all.len(),
            i <= n,
            rev@.len() == n - i,
            forall|k: int|
                0 <= k < rev@.len() ==> (#[trigger] rev@[k]).2@ == all[n - 1 - k] && rev@[k].0@ == key(
                    rev@[k].2@,
                ).0 && rev@[k].1@ == key(rev@[k].2@).1,
            nested_holds(outer, flat),
            holds_last(flat, all.take(i as int), key),
        decreases n - i,
    {
        let (token, buyer, row) = rev.pop().unwrap();
        let ghost p = key(row@);
        let ghost old_flat = flat;
        let ghost old_map = outer.view_map();
        proof {
            assert(row@ == all[i as int]);
            assert(all.take(i + 1) =~= all.take(i as int).push(row@));
            lemma_holds_last_insert(flat, all.take(i as int), key, row);
            flat = flat.insert(p, row);
            outer.lemma_wf_facts();
        }
        match outer.position(token.as_str()) {
            Some(j) => {
                let mut inner = outer.replace_at(j, StrMap::new());
                assert(inner == old_map[token@]);
                let ghost old_inner = inner.view_map();
                inner.insert(buyer, row);
                outer.set_at(j, inner);
                proof {
                    assert(outer.view_map() =~= old_map.insert(token@, inner));
                    assert(inner.view_map() == old_inner.insert(p.1, row));
                    assert forall|q: (Seq<char>, Seq<char>)| #[trigger]
                        flat.contains_key(q) <==> (outer.view_map().contains_key(q.0)
                            && outer.view_map()[q.0].view_map().contains_key(q.1)) by {
                        assert(old_flat.contains_key(q) <==> (old_map.contains_key(q.0)
                            && old_map[q.0].view_map().contains_key(q.1)));
                    }
                    assert forall|q: (Seq<char>, Seq<char>)| #[trigger]
                        flat.contains_key(q) implies flat[q] == outer.view_map()[q.0].view_map()[q.1] by {
                        if q != p {
                            assert(old_flat.contains_key(q));
                        }
                    }
                }
            },
            None => {
                let mut inner: StrMap<T> = StrMap::new();
                inner.insert(buyer, row);
                outer.insert(token, inner);
                proof {
                    assert(outer.view_map() == old_map.insert(p.0, inner));
                    assert(inner.view_map() =~= Map::<Seq<char>, T>::empty().insert(p.1, row));
                    assert forall|q: (Seq<char>, Seq<char>)| #[trigger]
                        flat.contains_key(q) <==> (outer.view_map().contains_key(q.0)
                            && outer.view_map()[q.0].view_map().contains_key(q.1)) by {
                        assert(old_flat.contains_key(q) <==> (old_map.contains_key(q.0)
                            && old_map[q.0].view_map().contains_key(q.1)));
                    }
                    assert forall|q: (Seq<char>, Seq<char>)| #[trigger]
                        flat.contains_key(q) implies flat[q] == outer.view_map()[q.0].view_map()[q.1] by {
                        if q != p {
                            assert(old_flat.contains_key(q));
                        }
                    }
                }
            },
        }
        i = i + 1;
    }
    proof {
        assert(all.take(n as int) =~= all);
        outer.lemma_wf_facts();
        assert forall|q: (Seq<char>, Seq<char>)| #[trigger] flat.contains_key(q) implies key(flat[q]@) == q by {
            lemma_last_with_key(all, key, q);
        }
    }
    let ghost tokens = outer.key_seq();
    let ghost inners = outer.val_seq();
    let ghost omap = outer.view_map();
    let groups = outer.into_values();
    let m = groups.len();
    let mut grev = reversed(groups);
    let mut out: Vec<T> = Vec::new();
    let mut j: usize = 0;
    proof {
        assert(views_of(out@).map_values(key) =~= Seq::<(Seq<char>, Seq<char>)>::empty());
    }
    while j < m
        invariant
            m == tokens.len(),
            inners.len() == m,
            tokens.no_duplicates(),
            forall|x: int| 0 <= x < m ==> #[trigger] omap[tokens[x]] == inners[x],
            forall|t: Seq<char>| #[trigger] omap.contains_key(t) <==> tokens.contains(t),
            forall|t: Seq<char>| #[trigger] omap.contains_key(t) ==> omap[t].wf(),
            forall|q: (Seq<char>, Seq<char>)| #[trigger]
                flat.contains_key(q) <==> (omap.contains_key(q.0) && omap[q.0].view_map().contains_key(q.1)),
            forall|q: (Seq<char>, Seq<char>)| #[trigger]
                flat.contains_key(q) ==> flat[q] == omap[q.0].view_map()[q.1],
            forall|q: (Seq<char>, Seq<char>)| #[trigger] flat.contains_key(q) ==> key(flat[q]@) == q,
            j <= m,
            grev@.len() == m - j,
            forall|k: int| 0 <= k < grev@.len() ==> #[trigger] grev@[k] == inners[m - 1 - k],
            views_of(out@).map_values(key).no_duplicates(),
            forall|x: int|
                0 <= x < out@.len() ==> flat.contains_key(key(#[trigger] out@[x]@)) && flat[key(out@[x]@)]
                    == out@[x] && tokens.take(j as int).contains(key(out@[x]@).0),
            forall|q: (Seq<char>, Seq<char>)|
                flat.contains_key(q) && tokens.take(j as int).contains(q.0) ==> #[trigger] views_of(
                    out@,
                ).map_values(key).contains(q),
        decreases m - j,
    {
        let inner = grev.pop().unwrap();
        let ghost t = tokens[j as int];
        let ghost before = out@;
        proof {
            assert(inner == inners[j as int]);
            assert(omap[t] == inner);
            assert(omap.contains_key(t));
            inner.lemma_wf_facts();
        }
        let ghost bks = inner.key_seq();
        let ghost ivals = inner.val_seq();
        let ghost imap = inner.view_map();
        let mut items = inner.into_values();
        proof {
            assert forall|y: int| 0 <= y < ivals.len() implies flat.contains_key((t, bks[y]))
                && #[trigger] ivals[y] == flat[(t, bks[y])] && key(ivals[y]@) == (t, bks[y]) by {
                assert(imap.contains_key(bks[y]));
                assert(flat.contains_key((t, bks[y])));
            }
        }
        out.append(&mut items);
        proof {
            assert(out@ == before + ivals);
            let ks = views_of(out@).map_values(key);
            let kb = views_of(before).map_values(key);
            assert forall|x: int| 0 <= x < out@.len() implies flat.contains_key(key(#[trigger] out@[x]@))
                && flat[key(out@[x]@)] == out@[x] && tokens.take(j + 1).contains(key(out@[x]@).0) by {
                if x < before.len() {
                    assert(out@[x] == before[x]);
                    let tj = tokens.take(j as int);
                    let w = choose|w: int| 0 <= w < tj.len() && tj[w] == key(before[x]@).0;
                    assert(tokens.take(j + 1)[w] == tokens[w]);
                } else {
                    assert(out@[x] == ivals[x - before.len()]);
                    assert(tokens.take(j + 1)[j as int] == t);
                }
            }
            assert forall|a: int, b: int| 0 <= a < b < ks.len() implies ks[a] != ks[b] by {
                if b < before.len() {
                    assert(ks[a] == kb[a] && ks[b] == kb[b]);
                } else if a >= before.len() {
                    assert(ks[a] == (t, bks[a - before.len()]));
                    assert(ks[b] == (t, bks[b - before.len()]));
                } else {
                    assert(ks[a] == kb[a]);
                    assert(out@[a] == before[a]);
                    let tj = tokens.take(j as int);
                    let w = choose|w: int| 0 <= w < tj.len() && tj[w] == key(before[a]@).0;
                    assert(ks[b] == (t, bks[b - before.len()]));
                    assert(tokens[w] != tokens[j as int]);
                }
            }
            assert forall|q: (Seq<char>, Seq<char>)|
                flat.contains_key(q) && tokens.take(j + 1).contains(q.0) implies #[trigger] views_of(
                out@,
            ).map_values(key).contains(q) by {
                let tk = tokens.take(j + 1);
                let w = choose|w: int| 0 <= w < tk.len() && tk[w] == q.0;
                if w < j {
                    assert(tokens.take(j as int)[w] == q.0);
                    assert(kb.contains(q));
                    let y = choose|y: int| 0 <= y < kb.len() && kb[y] == q;
                    assert(ks[y] == kb[y]);
                } else {
                    assert(q.0 == t);
                    assert(imap.contains_key(q.1));
                    let y = choose|y: int| 0 <= y < bks.len() && bks[y] == q.1;
                    assert(ks[before.len() + y] == key(ivals[y]@));
                }
            }
        }
        j = j + 1;
    }
    proof {
        let ks = views_of(out@).map_values(key);
        assert(tokens.take(m as int) =~= tokens);
        assert forall|q: (Seq<char>, Seq<char>)| ks.to_set().contains(q) <==> flat.dom().contains(q) by {
            if flat.contains_key(q) {
                assert(tokens.contains(q.0));
                assert(ks.contains(q));
            }
            if ks.contains(q) {
                let y = choose|y: int| 0 <= y < ks.len() && ks[y] == q;
                assert(ks[y] == key(out@[y]@));
            }
        }
        assert(ks.to_set() =~= flat.dom());
        assert forall|x: int| 0 <= x < views_of(out@).len() implies last_with_key(all, key, key(
            #[trigger] views_of(out@)[x],
        )) == Some(views_of(out@)[x]) by {
            assert(views_of(out@)[x] == out@[x]@);
            assert(flat.contains_key(key(out@[x]@)));
        }
    }
    out
}

/// The decimal texts of an activity's key: its version and its index.
pub open spec fn activity_key_texts(v: NftMarketplaceActivityView) -> (Seq<char>, Seq<char>) {
    (int_to_decimal(v.txn_version as int), int_to_decimal(v.index as int))
}

/// Each activity with the decimal texts of its key, version and index.
fn keyed_activities(rows: Vec<NftMarketplaceActivity>) -> (r: Vec<(String, String, NftMarketplaceActivity)>)
    ensures
        r@.map_values(|x: (String, String, NftMarketplaceActivity)| x.2@) == views_of(rows@),
        forall|i: int|
            0 <= i < r@.len() ==> (#[trigger] r@[i]).0@ == activity_key_texts(r@[i].2@).0 && r@[i].1@
                == activity_key_texts(r@[i].2@).1,
{
    let ghost all = rows@;
    let n = rows.len();
    let mut rev = reversed(rows);
    let mut r: Vec<(String, String, NftMarketplaceActivity)> = Vec::new();
    while r.len() < n
        invariant
            n == all.len(),
            r@.len() <= n,
            rev@.len() == n - r@.len(),
            forall|k: int| 0 <= k < rev@.len() ==> #[trigger] rev@[k] == all[n - 1 - k],
            forall|i: int| 0 <= i < r@.len() ==> (#[trigger] r@[i]).2 == all[i],
            forall|i: int|
                0 <= i < r@.len() ==> (#[trigger] r@[i]).0@ == activity_key_texts(r@[i].2@).0 && r@[i].1@
                    == activity_key_texts(r@[i].2@).1,
        decreases n - r@.len(),
    {
        let row = rev.pop().unwrap();
        let version = i64_to_string(row.txn_version);
        let index = i64_to_string(row.index);
        r.push((version, index, row));
    }
    assert(r@.map_values(|x: (String, String, NftMarketplaceActivity)| x.2@) =~= views_of(all));
    r
}

/// Each token offer with the two texts of its key, token and buyer.
fn keyed_token_offers(rows: Vec<CurrentNFTMarketplaceTokenOffer>) -> (r: Vec<(String, String, CurrentNFTMarketplaceTokenOffer)>)
    ensures
        r@.map_values(|x: (String, String, CurrentNFTMarketplaceTokenOffer)| x.2@) == views_of(rows@),
        forall|i: int|
            0 <= i < r@.len() ==> (#[trigger] r@[i]).0@ == r@[i].2@.token_data_id && r@[i].1@
                == r@[i].2@.buyer,
{
    let ghost all = rows@;
    let n = rows.len();
    let mut rev = reversed(rows);
    let mut r: Vec<(String, String, CurrentNFTMarketplaceTokenOffer)> = Vec::new();
    while r.len() < n
        invariant
            n == all.len(),
            r@.len() <= n,
            rev@.len() == n - r@.len(),
            forall|k: int| 0 <= k < rev@.len() ==> #[trigger] rev@[k] == all[n - 1 - k],
            forall|i: int| 0 <= i < r@.len() ==> (#[trigger] r@[i]).2 == all[i],
            forall|i: int|
                0 <= i < r@.len() ==> (#[trigger] r@[i]).0@ == r@[i].2@.token_data_id && r@[i].1@
                    == r@[i].2@.buyer,
        decreases n - r@.len(),
    {
        let row = rev.pop().unwrap();
        let token = row.token_data_id.clone();
        let buyer = row.buyer.clone();
        r.push((token, buyer, row));
    }
    assert(r@.map_values(|x: (String, String, CurrentNFTMarketplaceTokenOffer)| x.2@) =~= views_of(all));
    r
}

/// The rows of a batch as written: of each table, the last row of each
/// primary key (activities by version and index, listings by token, token
/// offers by token and buyer, collection offers by offer), sorted by that
/// key. The last row of each key is found with maps keyed by text first:
/// listings by token, collection offers by offer, token offers by token and
/// then buyer, activities by the decimal text of the version and then of
/// the index. What the tables then hold of each current row is
/// `listing_after_upsert`, `token_offer_after_upsert` and
/// `collection_offer_after_upsert`.
pub fn prepare_batch(
    input: (
        Vec<NftMarketplaceActivity>,
        Vec<CurrentNFTMarketplaceListing>,
        Vec<CurrentNFTMarketplaceTokenOffer>,
        Vec<CurrentNFTMarketplaceCollectionOffer>,
    ),
) -> (r: (
    Vec<NftMarketplaceActivity>,
    Vec<CurrentNFTMarketplaceListing>,
    Vec<CurrentNFTMarketplaceTokenOffer>,
    Vec<CurrentNFTMarketplaceCollectionOffer>,
))
    ensures
        keys_increasing::<NftMarketplaceActivity>(views_of(r.0@)),
        reduced_to_last(
            views_of(r.0@),
            views_of(input.0@),
            |v: NftMarketplaceActivityView| NftMarketplaceActivity::row_key(v),
        ),
        keys_increasing::<CurrentNFTMarketplaceListing>(views_of(r.1@)),
        reduced_to_last(
            views_of(r.1@),
            views_of(input.1@),
            |v: CurrentNFTMarketplaceListingView| CurrentNFTMarketplaceListing::row_key(v),
        ),
        keys_increasing::<CurrentNFTMarketplaceTokenOffer>(views_of(r.2@)),
        reduced_to_last(
            views_of(r.2@),
            views_of(input.2@),
            |v: CurrentNFTMarketplaceTokenOfferView| CurrentNFTMarketplaceTokenOffer::row_key(v),
        ),
        keys_increasing::<CurrentNFTMarketplaceCollectionOffer>(views_of(r.3@)),
        reduced_to_last(
            views_of(r.3@),
            views_of(input.3@),
            |v: CurrentNFTMarketplaceCollectionOfferView| CurrentNFTMarketplaceCollectionOffer::row_key(v),
        ),
{
    let (activities, listings, token_offers, collection_offers) = input;
    let ghost activities_in = views_of(activities@);
    let ghost activity_key = |v: NftMarketplaceActivityView| NftMarketplaceActivity::row_key(v);
    let ghost activity_texts = |v: NftMarketplaceActivityView| activity_key_texts(v);
    let last_activities = last_per_text_pair(keyed_activities(activities), Ghost(activity_texts));
    proof {
        assert forall|a: NftMarketplaceActivityView, b: NftMarketplaceActivityView|
            #![trigger activity_key(a), activity_key(b)]
            #![trigger activity_texts(a), activity_texts(b)]
            (activity_key(a) == activity_key(b)) <==> (activity_texts(a) == activity_texts(b)) by {
            lemma_int_to_decimal_injective(a.txn_version as int, b.txn_version as int);
            lemma_int_to_decimal_injective(a.index as int, b.index as int);
        }
        lemma_reduced_to_last_same_keys(views_of(last_activities@), activities_in, activity_key, activity_texts);
    }
    let ghost activities_mid = views_of(last_activities@);
    let ghost listings_in = views_of(listings@);
    let ghost collection_offers_in = views_of(collection_offers@);
    let last_listings = last_listing_per_token(listings);
    let last_collection_offers = last_collection_offer_per_id(collection_offers);
    let ghost token_offers_in = views_of(token_offers@);
    let last_token_offers = last_per_text_pair(
        keyed_token_offers(token_offers),
        Ghost(|v: CurrentNFTMarketplaceTokenOfferView| CurrentNFTMarketplaceTokenOffer::row_key(v)),
    );
    let ghost token_offers_mid = views_of(last_token_offers@);
    let ghost listings_mid = views_of(last_listings@);
    let ghost collection_offers_mid = views_of(last_collection_offers@);
    let r = (
        last_per_key_sorted(last_activities),
        last_per_key_sorted(last_listings),
        last_per_key_sorted(last_token_offers),
        last_per_key_sorted(last_collection_offers),
    );
    proof {
        lemma_reduced_to_last_trans(views_of(r.0@), activities_mid, activities_in, activity_key);
        lemma_reduced_to_last_trans(
            views_of(r.1@),
            listings_mid,
            listings_in,
            |v: CurrentNFTMarketplaceListingView| CurrentNFTMarketplaceListing::row_key(v),
        );
        lemma_reduced_to_last_trans(
            views_of(r.2@),
            token_offers_mid,
            token_offers_in,
            |v: CurrentNFTMarketplaceTokenOfferView| CurrentNFTMarketplaceTokenOffer::row_key(v),
        );
        lemma_reduced_to_last_trans(
            views_of(r.3@),
            collection_offers_mid,
            collection_offers_in,
            |v: CurrentNFTMarketplaceCollectionOfferView| CurrentNFTMarketplaceCollectionOffer::row_key(v),
        );
    }
    r
}

/// Activities are told apart by version and index: two activities share a
/// primary key, or the texts of their key, exactly when they have the same
/// transaction version and the same index.
pub proof fn lemma_activity_key_is_version_and_index(a: NftMarketplaceActivityView, b: NftMarketplaceActivityView)
    ensures
        (NftMarketplaceActivity::row_key(a) == NftMarketplaceActivity::row_key(b)) <==> (a.txn_version
            == b.txn_version && a.index == b.index),
        (activity_key_texts(a) == activity_key_texts(b)) <==> (a.txn_version == b.txn_version && a.index
            == b.index),
{
    lemma_int_to_decimal_injective(a.txn_version as int, b.txn_version as int);
    lemma_int_to_decimal_injective(a.index as int, b.index as int);
}

/// The activities a batch writes are one per version and index of the
/// batch: every activity of the batch has a written activity with its
/// version and index, every written activity has one in the batch, and no
/// two written activities share both.
pub proof fn lemma_written_activities_per_version_and_index(
    out: Seq<NftMarketplaceActivityView>,
    rows: Seq<NftMarketplaceActivityView>,
)
    requires
        reduced_to_last(out, rows, |v: NftMarketplaceActivityView| NftMarketplaceActivity::row_key(v)),
    ensures
        forall|i: int|
            0 <= i < rows.len() ==> exists|j: int|
                0 <= j < out.len() && out[j].txn_version == (#[trigger] rows[i]).txn_version && out[j].index
                    == rows[i].index,
        forall|j: int|
            0 <= j < out.len() ==> exists|i: int|
                0 <= i < rows.len() && rows[i].txn_version == (#[trigger] out[j]).txn_version && rows[i].index
                    == out[j].index,
        forall|j1: int, j2: int|
            0 <= j1 < out.len() && 0 <= j2 < out.len() && j1 != j2 ==> !((#[trigger] out[j1]).txn_version
                == (#[trigger] out[j2]).txn_version && out[j1].index == out[j2].index),
{
    let key = |v: NftMarketplaceActivityView| NftMarketplaceActivity::row_key(v);
    let ko = out.map_values(key);
    let kr = rows.map_values(key);
    assert forall|i: int| 0 <= i < rows.len() implies exists|j: int|
        0 <= j < out.len() && out[j].txn_version == (#[trigger] rows[i]).txn_version && out[j].index
            == rows[i].index by {
        assert(kr.to_set().contains(kr[i]));
        assert(ko.to_set().contains(kr[i]));
        let j = choose|j: int| 0 <= j < ko.len() && ko[j] == kr[i];
        lemma_activity_key_is_version_and_index(out[j], rows[i]);
    }
    assert forall|j: int| 0 <= j < out.len() implies exists|i: int|
        0 <= i < rows.len() && rows[i].txn_version == (#[trigger] out[j]).txn_version && rows[i].index
            == out[j].index by {
        assert(ko.to_set().contains(ko[j]));
        assert(kr.to_set().contains(ko[j]));
        let i = choose|i: int| 0 <= i < kr.len() && kr[i] == ko[j];
        lemma_activity_key_is_version_and_index(out[j], rows[i]);
    }
    assert forall|j1: int, j2: int|
        0 <= j1 < out.len() && 0 <= j2 < out.len() && j1 != j2 implies !((#[trigger] out[j1]).txn_version
        == (#[trigger] out[j2]).txn_version && out[j1].index == out[j2].index) by {
        assert(ko[j1] != ko[j2]);
        lemma_activity_key_is_version_and_index(out[j1], out[j2]);
    }
}

} // verus!
