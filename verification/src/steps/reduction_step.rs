//! The reduction step: resource updates merged into the rows they complete,
//! and the rows of a batch reduced to the last one of each key.
use crate::models::nft_models::{
    CurrentNFTMarketplaceCollectionOffer, CurrentNFTMarketplaceCollectionOfferView,
    CurrentNFTMarketplaceListing, CurrentNFTMarketplaceListingView,
    CurrentNFTMarketplaceTokenOffer, CurrentNFTMarketplaceTokenOfferView, MarketplaceModel,
    NftMarketplaceActivity, NftMarketplaceActivityView,
};
use crate::steps::remapper_step::{activity_views, first_match, flatten_groups, ActivityGroups};
use crate::str_map::{entries_by, StrMap};
use crate::text::{concat_str, str_to_string};
use vstd::prelude::*;

verus! {

/// The column updates of a resource, in order: column name and value.
pub open spec fn update_pairs(m: StrMap<String>) -> Seq<(Seq<char>, Seq<char>)> {
    entries_by(m, |s: String| s@)
}

/// Whether a row still needs `column`: the row has no such column, or it is
/// empty.
pub open spec fn needs_column<T: MarketplaceModel>(row: T::V, column: Seq<char>) -> bool {
    match T::column_text(row, column) {
        Some(t) => t.len() == 0,
        None => true,
    }
}

/// The groups after `column` is set to `value` in the first activity of
/// the row's transaction that the row matches (if any).
pub open spec fn set_in_matching_activity<T: MarketplaceModel>(
    row: T::V,
    groups: Seq<Seq<NftMarketplaceActivityView>>,
    versions: Seq<i64>,
    column: Seq<char>,
    value: Seq<char>,
) -> Seq<Seq<NftMarketplaceActivityView>> {
    if versions.contains(T::row_txn_version(row)) {
        let gi = versions.index_of(T::row_txn_version(row));
        let ai = first_match::<T>(row, groups[gi]);
        if ai < groups[gi].len() {
            groups.update(
                gi,
                groups[gi].update(ai, NftMarketplaceActivity::with_column(groups[gi][ai], column, value)),
            )
        } else {
            groups
        }
    } else {
        groups
    }
}

/// A row and the activities after merging `updates` in order: a column the
/// row still needs is set, in the matching activity first and then in the
/// row; a column the row already has is left alone.
pub open spec fn merge_updates<T: MarketplaceModel>(
    row: T::V,
    groups: Seq<Seq<NftMarketplaceActivityView>>,
    versions: Seq<i64>,
    updates: Seq<(Seq<char>, Seq<char>)>,
) -> (T::V, Seq<Seq<NftMarketplaceActivityView>>)
    decreases updates.len(),
{
    if updates.len() == 0 {
        (row, groups)
    } else {
        let prev = merge_updates::<T>(row, groups, versions, updates.drop_last());
        let column = updates.last().0;
        let value = updates.last().1;
        if needs_column::<T>(prev.0, column) {
            (
                T::with_column(prev.0, column, value),
                set_in_matching_activity::<T>(prev.0, prev.1, versions, column, value),
            )
        } else {
            prev
        }
    }
}

/// Merges a resource's column updates into `model`: every column the model
/// has not filled yet (absent or empty) is set, and so is the same column of
/// the first activity of the model's transaction that the model matches.
pub fn merge_partial_update<T: MarketplaceModel>(
    model: &mut T,
    partial_update: &StrMap<String>,
    activities: &mut ActivityGroups,
)
    requires
        partial_update.wf(),
        old(activities).wf(),
    ensures
        final(activities).wf(),
        final(activities).versions() == old(activities).versions(),
        (final(model)@, final(activities).group_views()) == merge_updates::<T>(
            old(model)@,
            old(activities).group_views(),
            old(activities).versions(),
            update_pairs(*partial_update),
        ),
{
    let ghost updates = update_pairs(*partial_update);
    let n = partial_update.len();
    let mut i: usize = 0;
    assert(updates.take(0) =~= Seq::<(Seq<char>, Seq<char>)>::empty());
    while i < n
        invariant
            partial_update.wf(),
            n == partial_update.key_seq().len(),
            updates == update_pairs(*partial_update),
            i <= n,
            activities.wf(),
            activities.versions() == old(activities).versions(),
            (model@, activities.group_views()) == merge_updates::<T>(
                old(model)@,
                old(activities).group_views(),
                old(activities).versions(),
                updates.take(i as int),
            ),
        decreases n - i,
    {
        let column = partial_update.key_at(i);
        let value = partial_update.value_at(i);
        proof {
            partial_update.lemma_wf_facts();
            assert(updates.take(i + 1).drop_last() =~= updates.take(i as int));
            assert(updates.take(i + 1).last() == (column@, value@));
        }
        let needs = match model.get_field(column.as_str()) {
            Some(t) => t.unicode_len() == 0,
            None => true,
        };
        if needs {
            let ghost row = model@;
            let ghost groups = activities.group_views();
            let ghost versions = activities.versions();
            match activities.position(model.get_txn_version()) {
                Some(gi) => {
                    proof {
                        let j = versions.index_of(T::row_txn_version(row));
                        assert(versions[gi as int] == T::row_txn_version(row));
                        assert(versions[j] == T::row_txn_version(row));
                        assert(j == gi);
                    }
                    match activities.find_match(gi, &*model) {
                        Some(ai) => {
                            activities.set_activity_field(gi, ai, column.as_str(), value.clone());
                        },
                        None => {},
                    }
                },
                None => {},
            }
            assert(activities.group_views() == set_in_matching_activity::<T>(
                row,
                groups,
                versions,
                column@,
                value@,
            ));
            model.set_field(column.as_str(), value.clone());
        }
        i = i + 1;
    }
    assert(updates.take(n as int) =~= updates);
}

/// The last of `rows` whose key is `k`.
pub open spec fn last_with_key<V, K>(rows: Seq<V>, key: spec_fn(V) -> K, k: K) -> Option<V>
    decreases rows.len(),
{
    if rows.len() == 0 {
        None
    } else if key(rows.last()) == k {
        Some(rows.last())
    } else {
        last_with_key(rows.drop_last(), key, k)
    }
}

/// Whether `out` holds, for each key of `rows`, exactly one row: the last
/// row of `rows` with that key.
pub open spec fn reduced_to_last<V, K>(out: Seq<V>, rows: Seq<V>, key: spec_fn(V) -> K) -> bool {
    &&& out.map_values(key).no_duplicates()
    &&& out.map_values(key).to_set() == rows.map_values(key).to_set()
    &&& forall|i: int| 0 <= i < out.len() ==> last_with_key(rows, key, key(#[trigger] out[i])) == Some(out[i])
}

/// A row found under a key is one of the rows.
proof fn lemma_last_with_key_member<V, K>(rows: Seq<V>, key: spec_fn(V) -> K, k: K)
    ensures
        last_with_key(rows, key, k) matches Some(v) ==> exists|j: int| 0 <= j < rows.len() && rows[j] == v,
    decreases rows.len(),
{
    if rows.len() > 0 {
        lemma_last_with_key_member(rows.drop_last(), key, k);
        if key(rows.last()) == k {
            assert(rows[rows.len() - 1] == rows.last());
        } else if last_with_key(rows.drop_last(), key, k) is Some {
            let v = last_with_key(rows.drop_last(), key, k)->0;
            let j = choose|j: int| 0 <= j < rows.drop_last().len() && rows.drop_last()[j] == v;
            assert(rows[j] == rows.drop_last()[j]);
        }
    }
}

/// Reducing rows that already hold the last row per key of `rows` gives
/// the last row per key of `rows`.
pub proof fn lemma_reduced_to_last_trans<V, K>(out: Seq<V>, mid: Seq<V>, rows: Seq<V>, key: spec_fn(V) -> K)
    requires
        reduced_to_last(out, mid, key),
        reduced_to_last(mid, rows, key),
    ensures
        reduced_to_last(out, rows, key),
{
    assert forall|i: int| 0 <= i < out.len() implies last_with_key(rows, key, key(#[trigger] out[i]))
        == Some(out[i]) by {
        lemma_last_with_key_member(mid, key, key(out[i]));
        let j = choose|j: int| 0 <= j < mid.len() && mid[j] == out[i];
        assert(last_with_key(rows, key, key(mid[j])) == Some(mid[j]));
    }
}

/// Looking a row up by one key or by another that tells the same rows apart
/// finds the same row.
proof fn lemma_last_with_same_keys<V, K, L>(rows: Seq<V>, f: spec_fn(V) -> K, g: spec_fn(V) -> L, x: V)
    requires
        forall|a: V, b: V| #![trigger f(a), f(b)] #![trigger g(a), g(b)] (f(a) == f(b)) <==> (g(a) == g(b)),
    ensures
        last_with_key(rows, f, f(x)) == last_with_key(rows, g, g(x)),
    decreases rows.len(),
{
    if rows.len() > 0 {
        lemma_last_with_same_keys(rows.drop_last(), f, g, x);
        assert((f(rows.last()) == f(x)) <==> (g(rows.last()) == g(x)));
    }
}

/// A reduction to the last row per key is one under any other key that
/// tells the same rows apart.
pub proof fn lemma_reduced_to_last_same_keys<V, K, L>(
    out: Seq<V>,
    rows: Seq<V>,
    f: spec_fn(V) -> K,
    g: spec_fn(V) -> L,
)
    requires
        reduced_to_last(out, rows, g),
        forall|a: V, b: V| #![trigger f(a), f(b)] #![trigger g(a), g(b)] (f(a) == f(b)) <==> (g(a) == g(b)),
    ensures
        reduced_to_last(out, rows, f),
{
    let fo = out.map_values(f);
    let go = out.map_values(g);
    let fr = rows.map_values(f);
    let gr = rows.map_values(g);
    assert forall|i: int, j: int| 0 <= i < fo.len() && 0 <= j < fo.len() && i != j implies fo[i] != fo[j] by {
        assert(go[i] != go[j]);
        assert((f(out[i]) == f(out[j])) <==> (g(out[i]) == g(out[j])));
    }
    assert forall|k: K| fo.to_set().contains(k) <==> fr.to_set().contains(k) by {
        if fo.contains(k) {
            let i = choose|i: int| 0 <= i < fo.len() && fo[i] == k;
            assert(go.to_set().contains(go[i]));
            assert(gr.contains(g(out[i])));
            let j = choose|j: int| 0 <= j < gr.len() && gr[j] == g(out[i]);
            assert((f(rows[j]) == f(out[i])) <==> (g(rows[j]) == g(out[i])));
            assert(fr[j] == k);
        }
        if fr.contains(k) {
            let j = choose|j: int| 0 <= j < fr.len() && fr[j] == k;
            assert(gr.to_set().contains(gr[j]));
            assert(go.contains(g(rows[j])));
            let i = choose|i: int| 0 <= i < go.len() && go[i] == g(rows[j]);
            assert((f(rows[j]) == f(out[i])) <==> (g(rows[j]) == g(out[i])));
            assert(fo[i] == k);
        }
    }
    assert(fo.to_set() =~= fr.to_set());
    assert forall|i: int| 0 <= i < out.len() implies last_with_key(rows, f, f(#[trigger] out[i])) == Some(out[i]) by {
        lemma_last_with_same_keys(rows, f, g, out[i]);
        assert(last_with_key(rows, g, g(out[i])) == Some(out[i]));
    }
}

/// Whether the map `m` holds, under each key of `rows`, the last row with
/// that key.
pub open spec fn holds_last<V: View, K>(
    m: Map<K, V>,
    rows: Seq<V::V>,
    key: spec_fn(V::V) -> K,
) -> bool {
    &&& m.dom() == rows.map_values(key).to_set()
    &&& forall|k: K| #[trigger] m.contains_key(k) ==> last_with_key(rows, key, k) == Some(m[k]@)
}

/// A row found under key `k` has key `k`.
pub proof fn lemma_last_with_key<V, K>(rows: Seq<V>, key: spec_fn(V) -> K, k: K)
    ensures
        last_with_key(rows, key, k) matches Some(v) ==> key(v) == k,
        last_with_key(rows, key, k) is Some <==> rows.map_values(key).contains(k),
    decreases rows.len(),
{
    if rows.len() > 0 {
        lemma_last_with_key(rows.drop_last(), key, k);
        assert(rows.drop_last().map_values(key) =~= rows.map_values(key).drop_last());
        let m = rows.map_values(key);
        if m.contains(k) && key(rows.last()) != k {
            let i = choose|i: int| 0 <= i < m.len() && m[i] == k;
            assert(i != m.len() - 1);
            assert(m.drop_last()[i] == k);
        }
        if key(rows.last()) == k {
            assert(m[m.len() - 1] == k);
        }
    }
}

/// Storing a row under its key keeps a map holding the last row per key.
pub proof fn lemma_holds_last_insert<V: View, K>(
    m: Map<K, V>,
    rows: Seq<V::V>,
    key: spec_fn(V::V) -> K,
    v: V,
)
    requires
        holds_last(m, rows, key),
    ensures
        holds_last(m.insert(key(v@), v), rows.push(v@), key),
{
    let rows2 = rows.push(v@);
    assert(rows2.drop_last() =~= rows);
    assert(rows2.map_values(key) =~= rows.map_values(key).push(key(v@)));
    rows.map_values(key).lemma_push_to_set_commute(key(v@));
    assert(rows2.map_values(key).to_set() =~= rows.map_values(key).to_set().insert(key(v@)));
}

/// Reading out a map that holds the last row per key, in the order of
/// its keys, gives one row per key, the last.
pub proof fn lemma_holds_last_values<V: View, K>(
    m: Map<K, V>,
    rows: Seq<V::V>,
    key: spec_fn(V::V) -> K,
    keys: Seq<K>,
    vals: Seq<V>,
)
    requires
        holds_last(m, rows, key),
        keys.len() == vals.len(),
        keys.no_duplicates(),
        forall|k: K| #[trigger] m.contains_key(k) <==> keys.contains(k),
        forall|i: int| 0 <= i < keys.len() ==> #[trigger] m[keys[i]] == vals[i],
    ensures
        reduced_to_last(vals.map_values(|x: V| x@), rows, key),
{
    let out = vals.map_values(|x: V| x@);
    assert forall|i: int| 0 <= i < out.len() implies key(#[trigger] out[i]) == keys[i]
        && last_with_key(rows, key, key(out[i])) == Some(out[i]) by {
        assert(keys.contains(keys[i]));
        assert(m.contains_key(keys[i]));
        assert(m[keys[i]] == vals[i]);
        lemma_last_with_key(rows, key, keys[i]);
    }
    assert(out.map_values(key) =~= keys);
    assert(keys.to_set() =~= m.dom());
}

/// The key under which a listing is kept: marketplace and token.
pub open spec fn listing_key(l: CurrentNFTMarketplaceListingView) -> Seq<char> {
    l.marketplace + "::"@ + l.token_data_id
}

/// The key under which a token offer is kept: marketplace, token and buyer.
pub open spec fn token_offer_key(o: CurrentNFTMarketplaceTokenOfferView) -> Seq<char> {
    o.marketplace + "::"@ + o.token_data_id + "::"@ + o.buyer
}

/// The key under which a collection offer is kept: marketplace and offer.
pub open spec fn collection_offer_key(o: CurrentNFTMarketplaceCollectionOfferView) -> Seq<char> {
    o.marketplace + "::"@ + o.collection_offer_id
}

/// The rows of a batch gathered for writing: the activities in order, and
/// the current listings and offers keyed so that a later row replaces an
/// earlier one with the same key.
pub struct NFTAccumulator {
    activities: Vec<NftMarketplaceActivity>,
    listings: StrMap<CurrentNFTMarketplaceListing>,
    token_offers: StrMap<CurrentNFTMarketplaceTokenOffer>,
    collection_offers: StrMap<CurrentNFTMarketplaceCollectionOffer>,
}

impl NFTAccumulator {
    /// The activities added so far.
    pub closed spec fn activity_seq(&self) -> Seq<NftMarketplaceActivity> {
        self.activities@
    }

    /// The listings by key.
    pub closed spec fn listing_map(&self) -> Map<Seq<char>, CurrentNFTMarketplaceListing> {
        self.listings.view_map()
    }

    /// The token offers by key.
    pub closed spec fn token_offer_map(&self) -> Map<Seq<char>, CurrentNFTMarketplaceTokenOffer> {
        self.token_offers.view_map()
    }

    /// The collection offers by key.
    pub closed spec fn collection_offer_map(&self) -> Map<
        Seq<char>,
        CurrentNFTMarketplaceCollectionOffer,
    > {
        self.collection_offers.view_map()
    }

    /// The keyed maps are consistent.
    pub closed spec fn wf(&self) -> bool {
        self.listings.wf() && self.token_offers.wf() && self.collection_offers.wf()
    }

    /// Whether nothing has been gathered.
    pub open spec fn is_empty(&self) -> bool {
        &&& self.activity_seq().len() == 0
        &&& self.listing_map().dom() == Set::<Seq<char>>::empty()
        &&& self.token_offer_map().dom() == Set::<Seq<char>>::empty()
        &&& self.collection_offer_map().dom() == Set::<Seq<char>>::empty()
    }

    /// Nothing gathered.
    pub fn new() -> (r: NFTAccumulator)
        ensures
            r.wf(),
            r.activity_seq() == Seq::<NftMarketplaceActivity>::empty(),
            r.listing_map() == Map::<Seq<char>, CurrentNFTMarketplaceListing>::empty(),
            r.token_offer_map() == Map::<Seq<char>, CurrentNFTMarketplaceTokenOffer>::empty(),
            r.collection_offer_map() == Map::<
                Seq<char>,
                CurrentNFTMarketplaceCollectionOffer,
            >::empty(),
    {
        NFTAccumulator {
            activities: Vec::new(),
            listings: StrMap::new(),
            token_offers: StrMap::new(),
            collection_offers: StrMap::new(),
        }
    }

    /// Keeps `listing` under its key, replacing an earlier one.
    pub fn fold_listing(&mut self, listing: CurrentNFTMarketplaceListing)
        requires
            old(self).wf(),
        ensures
            final(self).wf(),
            final(self).listing_map() == old(self).listing_map().insert(listing_key(listing@), listing),
            final(self).token_offer_map() == old(self).token_offer_map(),
            final(self).collection_offer_map() == old(self).collection_offer_map(),
            final(self).activity_seq() == old(self).activity_seq(),
    {
        let with_sep = concat_str(listing.marketplace.as_str(), "::");
        let key = concat_str(with_sep.as_str(), listing.token_data_id.as_str());
        self.listings.insert(key, listing);
    }

    /// Keeps `offer` under its key, replacing an earlier one.
    pub fn fold_token_offer(&mut self, offer: CurrentNFTMarketplaceTokenOffer)
        requires
            old(self).wf(),
        ensures
            final(self).wf(),
            final(self).token_offer_map() == old(self).token_offer_map().insert(
                token_offer_key(offer@),
                offer,
            ),
            final(self).listing_map() == old(self).listing_map(),
            final(self).collection_offer_map() == old(self).collection_offer_map(),
            final(self).activity_seq() == old(self).activity_seq(),
    {
        let a = concat_str(offer.marketplace.as_str(), "::");
        let b = concat_str(a.as_str(), offer.token_data_id.as_str());
        let c = concat_str(b.as_str(), "::");
        let key = concat_str(c.as_str(), offer.buyer.as_str());
        self.token_offers.insert(key, offer);
    }

    /// Keeps `offer` under its key, replacing an earlier one.
    pub fn fold_collection_offer(&mut self, offer: CurrentNFTMarketplaceCollectionOffer)
        requires
            old(self).wf(),
        ensures
            final(self).wf(),
            final(self).collection_offer_map() == old(self).collection_offer_map().insert(
                collection_offer_key(offer@),
                offer,
            ),
            final(self).listing_map() == old(self).listing_map(),
            final(self).token_offer_map() == old(self).token_offer_map(),
            final(self).activity_seq() == old(self).activity_seq(),
    {
        let with_sep = concat_str(offer.marketplace.as_str(), "::");
        let key = concat_str(with_sep.as_str(), offer.collection_offer_id.as_str());
        self.collection_offers.insert(key, offer);
    }

    /// Appends an activity.
    pub fn add_activity(&mut self, activity: NftMarketplaceActivity)
        requires
            old(self).wf(),
        ensures
            final(self).wf(),
            final(self).activity_seq() == old(self).activity_seq().push(activity),
            final(self).listing_map() == old(self).listing_map(),
            final(self).token_offer_map() == old(self).token_offer_map(),
            final(self).collection_offer_map() == old(self).collection_offer_map(),
    {
        self.activities.push(activity);
    }

    /// The listing keys, in first-insertion order.
    pub closed spec fn listing_keys(&self) -> Seq<Seq<char>> {
        self.listings.key_seq()
    }

    /// The token offer keys, in first-insertion order.
    pub closed spec fn token_offer_keys(&self) -> Seq<Seq<char>> {
        self.token_offers.key_seq()
    }

    /// The collection offer keys, in first-insertion order.
    pub closed spec fn collection_offer_keys(&self) -> Seq<Seq<char>> {
        self.collection_offers.key_seq()
    }

    /// Each key is listed once, and the keys listed are those of the maps.
    pub proof fn lemma_keys(&self)
        requires
            self.wf(),
        ensures
            self.listing_keys().no_duplicates(),
            self.token_offer_keys().no_duplicates(),
            self.collection_offer_keys().no_duplicates(),
            forall|k: Seq<char>| #[trigger] self.listing_map().contains_key(k) <==> self.listing_keys().contains(k),
            forall|k: Seq<char>|
                #[trigger] self.token_offer_map().contains_key(k) <==> self.token_offer_keys().contains(k),
            forall|k: Seq<char>|
                #[trigger] self.collection_offer_map().contains_key(k)
                    <==> self.collection_offer_keys().contains(k),
    {
        self.listings.lemma_wf_facts();
        self.token_offers.lemma_wf_facts();
        self.collection_offers.lemma_wf_facts();
    }

    /// Hands out everything gathered and starts over: the activities in
    /// order, and the listings and offers one per key, in key order.
    pub fn drain(&mut self) -> (r: (
        Vec<NftMarketplaceActivity>,
        Vec<CurrentNFTMarketplaceListing>,
        Vec<CurrentNFTMarketplaceTokenOffer>,
        Vec<CurrentNFTMarketplaceCollectionOffer>,
    ))
        requires
            old(self).wf(),
        ensures
            final(self).wf(),
            final(self).is_empty(),
            r.0@ == old(self).activity_seq(),
            r.1@.len() == old(self).listing_keys().len(),
            forall|i: int|
                0 <= i < r.1@.len() ==> old(self).listing_map()[old(self).listing_keys()[i]]
                    == #[trigger] r.1@[i],
            r.2@.len() == old(self).token_offer_keys().len(),
            forall|i: int|
                0 <= i < r.2@.len() ==> old(self).token_offer_map()[old(self).token_offer_keys()[i]]
                    == #[trigger] r.2@[i],
            r.3@.len() == old(self).collection_offer_keys().len(),
            forall|i: int|
                0 <= i < r.3@.len() ==> old(self).collection_offer_map()[old(
                    self,
                ).collection_offer_keys()[i]] == #[trigger] r.3@[i],
    {
        proof {
            self.listings.lemma_wf_facts();
            self.token_offers.lemma_wf_facts();
            self.collection_offers.lemma_wf_facts();
        }
        let mut activities: Vec<NftMarketplaceActivity> = Vec::new();
        std::mem::swap(&mut activities, &mut self.activities);
        let mut listings: StrMap<CurrentNFTMarketplaceListing> = StrMap::new();
        std::mem::swap(&mut listings, &mut self.listings);
        let mut token_offers: StrMap<CurrentNFTMarketplaceTokenOffer> = StrMap::new();
        std::mem::swap(&mut token_offers, &mut self.token_offers);
        let mut collection_offers: StrMap<CurrentNFTMarketplaceCollectionOffer> = StrMap::new();
        std::mem::swap(&mut collection_offers, &mut self.collection_offers);
        let l = listings.into_values();
        let t = token_offers.into_values();
        let c = collection_offers.into_values();
        proof {
            assert(self.listing_map().dom() =~= Set::<Seq<char>>::empty());
            assert(self.token_offer_map().dom() =~= Set::<Seq<char>>::empty());
            assert(self.collection_offer_map().dom() =~= Set::<Seq<char>>::empty());
        }
        (activities, l, t, c)
    }
}

/// The resource updates by resource address: the column updates of each, in
/// order.
pub open spec fn updates_view(m: StrMap<StrMap<String>>) -> Map<Seq<char>, Seq<(Seq<char>, Seq<char>)>> {
    Map::new(|k: Seq<char>| m.view_map().contains_key(k), |k: Seq<char>| update_pairs(m.view_map()[k]))
}

/// The resource updates are consistent maps.
pub open spec fn updates_wf(m: StrMap<StrMap<String>>) -> bool {
    &&& m.wf()
    &&& forall|k: Seq<char>| #[trigger] m.view_map().contains_key(k) ==> m.view_map()[k].wf()
}

/// The rows of one kind after merging, each in turn, the updates of the
/// resource that `lookup` names (when there are any), and the activities
/// after it; a row for which `lookup` names nothing is dropped.
pub open spec fn reduce_rows<T: MarketplaceModel>(
    groups: Seq<Seq<NftMarketplaceActivityView>>,
    versions: Seq<i64>,
    updates: Map<Seq<char>, Seq<(Seq<char>, Seq<char>)>>,
    rows: Seq<T::V>,
    lookup: spec_fn(T::V) -> Option<Seq<char>>,
) -> (Seq<T::V>, Seq<Seq<NftMarketplaceActivityView>>)
    decreases rows.len(),
{
    if rows.len() == 0 {
        (Seq::empty(), groups)
    } else {
        let prev = reduce_rows::<T>(groups, versions, updates, rows.drop_last(), lookup);
        let row = rows.last();
        match lookup(row) {
            None => prev,
            Some(k) => if updates.contains_key(k) {
                let merged = merge_updates::<T>(row, prev.1, versions, updates[k]);
                (prev.0.push(merged.0), merged.1)
            } else {
                (prev.0.push(row), prev.1)
            },
        }
    }
}

/// A listing takes the updates of its token.
pub open spec fn listing_lookup() -> spec_fn(CurrentNFTMarketplaceListingView) -> Option<Seq<char>> {
    |l: CurrentNFTMarketplaceListingView| Some(l.token_data_id)
}

/// A token offer takes the updates of its token.
pub open spec fn token_offer_lookup() -> spec_fn(CurrentNFTMarketplaceTokenOfferView) -> Option<Seq<char>> {
    |o: CurrentNFTMarketplaceTokenOfferView| Some(o.token_data_id)
}

/// A collection offer without an id is dropped; one with a token takes the
/// updates of that token, one without takes those of its offer id.
pub open spec fn collection_offer_lookup() -> spec_fn(CurrentNFTMarketplaceCollectionOfferView) -> Option<Seq<char>> {
    |o: CurrentNFTMarketplaceCollectionOfferView|
        if o.collection_offer_id.len() == 0 {
            None
        } else {
            match o.token_data_id {
                Some(t) => Some(t),
                None => Some(o.collection_offer_id),
            }
        }
}

/// The listings, token offers and collection offers of a batch after their
/// updates are merged (listings first, then token offers, then collection
/// offers), and the activities after all of it.
pub open spec fn reduction_of(
    groups: Seq<Seq<NftMarketplaceActivityView>>,
    versions: Seq<i64>,
    updates: Map<Seq<char>, Seq<(Seq<char>, Seq<char>)>>,
    listings: Seq<CurrentNFTMarketplaceListingView>,
    token_offers: Seq<CurrentNFTMarketplaceTokenOfferView>,
    collection_offers: Seq<CurrentNFTMarketplaceCollectionOfferView>,
) -> (
    Seq<CurrentNFTMarketplaceListingView>,
    Seq<CurrentNFTMarketplaceTokenOfferView>,
    Seq<CurrentNFTMarketplaceCollectionOfferView>,
    Seq<Seq<NftMarketplaceActivityView>>,
) {
    let a = reduce_rows::<CurrentNFTMarketplaceListing>(groups, versions, updates, listings, listing_lookup());
    let b = reduce_rows::<CurrentNFTMarketplaceTokenOffer>(a.1, versions, updates, token_offers, token_offer_lookup());
    let c = reduce_rows::<CurrentNFTMarketplaceCollectionOffer>(
        b.1,
        versions,
        updates,
        collection_offers,
        collection_offer_lookup(),
    );
    (a.0, b.0, c.0, c.1)
}

/// `v` back to front.
fn reversed<T>(v: Vec<T>) -> (r: Vec<T>)
    ensures
        r@.len() == v@.len(),
        forall|i: int| 0 <= i < v@.len() ==> #[trigger] r@[i] == v@[v@.len() - 1 - i],
{
    let ghost all = v@;
    let mut v = v;
    let mut r: Vec<T> = Vec::new();
    while v.len() > 0
        invariant
            v@.len() + r@.len() == all.len(),
            forall|k: int| 0 <= k < v@.len() ==> v@[k] == all[k],
            forall|k: int| 0 <= k < r@.len() ==> #[trigger] r@[k] == all[all.len() - 1 - k],
        decreases v@.len(),
    {
        let x = v.pop().unwrap();
        r.push(x);
    }
    r
}

/// Merges the updates into each of `rows` in turn and keeps it in the
/// accumulator.
fn reduce_listings(
    acc: &mut NFTAccumulator,
    rows: Vec<CurrentNFTMarketplaceListing>,
    updates: &StrMap<StrMap<String>>,
    activities: &mut ActivityGroups,
    Ghost(before): Ghost<Seq<CurrentNFTMarketplaceListingView>>,
)
    requires
        old(acc).wf(),
        old(activities).wf(),
        updates_wf(*updates),
        holds_last(old(acc).listing_map(), before, |x: CurrentNFTMarketplaceListingView| listing_key(x)),
    ensures
        final(acc).wf(),
        final(activities).wf(),
        final(activities).versions() == old(activities).versions(),
        ({
            let red = reduce_rows::<CurrentNFTMarketplaceListing>(
                old(activities).group_views(),
                old(activities).versions(),
                updates_view(*updates),
                rows@.map_values(|x: CurrentNFTMarketplaceListing| x@),
                listing_lookup(),
            );
            &&& final(activities).group_views() == red.1
            &&& holds_last(final(acc).listing_map(), before + red.0, |x: CurrentNFTMarketplaceListingView| listing_key(x))
        }),
                final(acc).token_offer_map() == old(acc).token_offer_map(),
        final(acc).collection_offer_map() == old(acc).collection_offer_map(),
        final(acc).activity_seq() == old(acc).activity_seq(),
{
    let ghost all = rows@.map_values(|x: CurrentNFTMarketplaceListing| x@);
    let ghost g0 = activities.group_views();
    let ghost versions = activities.versions();
    let ghost u = updates_view(*updates);
    let ghost key = |x: CurrentNFTMarketplaceListingView| listing_key(x);
    let n = rows.len();
    let mut rev = reversed(rows);
    let mut i: usize = 0;
    let ghost mut done: Seq<CurrentNFTMarketplaceListingView> = Seq::empty();
    assert(all.take(0) =~= Seq::<CurrentNFTMarketplaceListingView>::empty());
    while i < n
        invariant
            n == all.len(),
            i <= n,
            rev@.len() == n - i,
            forall|k: int| 0 <= k < rev@.len() ==> (#[trigger] rev@[k])@ == all[n - 1 - k],
            acc.wf(),
            activities.wf(),
            activities.versions() == versions,
            updates_wf(*updates),
            u == updates_view(*updates),
            key == (|x: CurrentNFTMarketplaceListingView| listing_key(x)),
            (done, activities.group_views()) == reduce_rows::<CurrentNFTMarketplaceListing>(g0, versions, u, all.take(i as int), listing_lookup()),
            holds_last(acc.listing_map(), before + done, key),
                        acc.token_offer_map() == old(acc).token_offer_map(),
            acc.collection_offer_map() == old(acc).collection_offer_map(),
            acc.activity_seq() == old(acc).activity_seq(),
        decreases n - i,
    {
        let row = rev.pop().unwrap();
        let ghost rv = row@;
        proof {
            assert(rv == all[i as int]);
            assert(all.take(i + 1).drop_last() =~= all.take(i as int));
            assert(all.take(i + 1).last() == rv);
        }
        let ghost before_step = acc.listing_map();
        match updates.get(row.token_data_id.as_str()) {
            Some(up) => {
                let mut merged = row;
                merge_partial_update(&mut merged, up, activities);
                proof {
                    lemma_holds_last_insert(before_step, before + done, key, merged);
                    assert((before + done).push(merged@) =~= before + done.push(merged@));
                    done = done.push(merged@);
                }
                acc.fold_listing(merged);
            },
            None => {
                proof {
                    lemma_holds_last_insert(before_step, before + done, key, row);
                    assert((before + done).push(row@) =~= before + done.push(row@));
                    done = done.push(row@);
                }
                acc.fold_listing(row);
            },
        }
        i = i + 1;
    }
    assert(all.take(n as int) =~= all);
}

/// Merges the updates into each of `rows` in turn and keeps it in the
/// accumulator.
fn reduce_token_offers(
    acc: &mut NFTAccumulator,
    rows: Vec<CurrentNFTMarketplaceTokenOffer>,
    updates: &StrMap<StrMap<String>>,
    activities: &mut ActivityGroups,
    Ghost(before): Ghost<Seq<CurrentNFTMarketplaceTokenOfferView>>,
)
    requires
        old(acc).wf(),
        old(activities).wf(),
        updates_wf(*updates),
        holds_last(old(acc).token_offer_map(), before, |x: CurrentNFTMarketplaceTokenOfferView| token_offer_key(x)),
    ensures
        final(acc).wf(),
        final(activities).wf(),
        final(activities).versions() == old(activities).versions(),
        ({
            let red = reduce_rows::<CurrentNFTMarketplaceTokenOffer>(
                old(activities).group_views(),
                old(activities).versions(),
                updates_view(*updates),
                rows@.map_values(|x: CurrentNFTMarketplaceTokenOffer| x@),
                token_offer_lookup(),
            );
            &&& final(activities).group_views() == red.1
            &&& holds_last(final(acc).token_offer_map(), before + red.0, |x: CurrentNFTMarketplaceTokenOfferView| token_offer_key(x))
        }),
                final(acc).listing_map() == old(acc).listing_map(),
        final(acc).collection_offer_map() == old(acc).collection_offer_map(),
        final(acc).activity_seq() == old(acc).activity_seq(),
{
    let ghost all = rows@.map_values(|x: CurrentNFTMarketplaceTokenOffer| x@);
    let ghost g0 = activities.group_views();
    let ghost versions = activities.versions();
    let ghost u = updates_view(*updates);
    let ghost key = |x: CurrentNFTMarketplaceTokenOfferView| token_offer_key(x);
    let n = rows.len();
    let mut rev = reversed(rows);
    let mut i: usize = 0;
    let ghost mut done: Seq<CurrentNFTMarketplaceTokenOfferView> = Seq::empty();
    assert(all.take(0) =~= Seq::<CurrentNFTMarketplaceTokenOfferView>::empty());
    while i < n
        invariant
            n == all.len(),
            i <= n,
            rev@.len() == n - i,
            forall|k: int| 0 <= k < rev@.len() ==> (#[trigger] rev@[k])@ == all[n - 1 - k],
            acc.wf(),
            activities.wf(),
            activities.versions() == versions,
            updates_wf(*updates),
            u == updates_view(*updates),
            key == (|x: CurrentNFTMarketplaceTokenOfferView| token_offer_key(x)),
            (done, activities.group_views()) == reduce_rows::<CurrentNFTMarketplaceTokenOffer>(g0, versions, u, all.take(i as int), token_offer_lookup()),
            holds_last(acc.token_offer_map(), before + done, key),
                        acc.listing_map() == old(acc).listing_map(),
            acc.collection_offer_map() == old(acc).collection_offer_map(),
            acc.activity_seq() == old(acc).activity_seq(),
        decreases n - i,
    {
        let row = rev.pop().unwrap();
        let ghost rv = row@;
        proof {
            assert(rv == all[i as int]);
            assert(all.take(i + 1).drop_last() =~= all.take(i as int));
            assert(all.take(i + 1).last() == rv);
        }
        let ghost before_step = acc.token_offer_map();
        match updates.get(row.token_data_id.as_str()) {
            Some(up) => {
                let mut merged = row;
                merge_partial_update(&mut merged, up, activities);
                proof {
                    lemma_holds_last_insert(before_step, before + done, key, merged);
                    assert((before + done).push(merged@) =~= before + done.push(merged@));
                    done = done.push(merged@);
                }
                acc.fold_token_offer(merged);
            },
            None => {
                proof {
                    lemma_holds_last_insert(before_step, before + done, key, row);
                    assert((before + done).push(row@) =~= before + done.push(row@));
                    done = done.push(row@);
                }
                acc.fold_token_offer(row);
            },
        }
        i = i + 1;
    }
    assert(all.take(n as int) =~= all);
}

/// Merges the updates into each of `rows` in turn and keeps it in the
/// accumulator.
fn reduce_collection_offers(
    acc: &mut NFTAccumulator,
    rows: Vec<CurrentNFTMarketplaceCollectionOffer>,
    updates: &StrMap<StrMap<String>>,
    activities: &mut ActivityGroups,
    Ghost(before): Ghost<Seq<CurrentNFTMarketplaceCollectionOfferView>>,
)
    requires
        old(acc).wf(),
        old(activities).wf(),
        updates_wf(*updates),
        holds_last(old(acc).collection_offer_map(), before, |x: CurrentNFTMarketplaceCollectionOfferView| collection_offer_key(x)),
    ensures
        final(acc).wf(),
        final(activities).wf(),
        final(activities).versions() == old(activities).versions(),
        ({
            let red = reduce_rows::<CurrentNFTMarketplaceCollectionOffer>(
                old(activities).group_views(),
                old(activities).versions(),
                updates_view(*updates),
                rows@.map_values(|x: CurrentNFTMarketplaceCollectionOffer| x@),
                collection_offer_lookup(),
            );
            &&& final(activities).group_views() == red.1
            &&& holds_last(final(acc).collection_offer_map(), before + red.0, |x: CurrentNFTMarketplaceCollectionOfferView| collection_offer_key(x))
        }),
                final(acc).listing_map() == old(acc).listing_map(),
        final(acc).token_offer_map() == old(acc).token_offer_map(),
        final(acc).activity_seq() == old(acc).activity_seq(),
{
    let ghost all = rows@.map_values(|x: CurrentNFTMarketplaceCollectionOffer| x@);
    let ghost g0 = activities.group_views();
    let ghost versions = activities.versions();
    let ghost u = updates_view(*updates);
    let ghost key = |x: CurrentNFTMarketplaceCollectionOfferView| collection_offer_key(x);
    let n = rows.len();
    let mut rev = reversed(rows);
    let mut i: usize = 0;
    let ghost mut done: Seq<CurrentNFTMarketplaceCollectionOfferView> = Seq::empty();
    assert(all.take(0) =~= Seq::<CurrentNFTMarketplaceCollectionOfferView>::empty());
    while i < n
        invariant
            n == all.len(),
            i <= n,
            rev@.len() == n - i,
            forall|k: int| 0 <= k < rev@.len() ==> (#[trigger] rev@[k])@ == all[n - 1 - k],
            acc.wf(),
            activities.wf(),
            activities.versions() == versions,
            updates_wf(*updates),
            u == updates_view(*updates),
            key == (|x: CurrentNFTMarketplaceCollectionOfferView| collection_offer_key(x)),
            (done, activities.group_views()) == reduce_rows::<CurrentNFTMarketplaceCollectionOffer>(g0, versions, u, all.take(i as int), collection_offer_lookup()),
            holds_last(acc.collection_offer_map(), before + done, key),
                        acc.listing_map() == old(acc).listing_map(),
            acc.token_offer_map() == old(acc).token_offer_map(),
            acc.activity_seq() == old(acc).activity_seq(),
        decreases n - i,
    {
        let row = rev.pop().unwrap();
        let ghost rv = row@;
        proof {
            assert(rv == all[i as int]);
            assert(all.take(i + 1).drop_last() =~= all.take(i as int));
            assert(all.take(i + 1).last() == rv);
        }
        if row.collection_offer_id.unicode_len() > 0 {
            let lookup_key: &str = match &row.token_data_id {
                Some(t) => t.as_str(),
                None => row.collection_offer_id.as_str(),
            };
            let found = updates.get(lookup_key);
            let ghost before_step = acc.collection_offer_map();
            match found {
                Some(up) => {
                    let mut merged = row;
                    merge_partial_update(&mut merged, up, activities);
                    proof {
                        lemma_holds_last_insert(before_step, before + done, key, merged);
                        assert((before + done).push(merged@) =~= before + done.push(merged@));
                        done = done.push(merged@);
                    }
                    acc.fold_collection_offer(merged);
                },
                None => {
                    proof {
                        lemma_holds_last_insert(before_step, before + done, key, row);
                        assert((before + done).push(row@) =~= before + done.push(row@));
                        done = done.push(row@);
                    }
                    acc.fold_collection_offer(row);
                },
            }
        }
        i = i + 1;
    }
    assert(all.take(n as int) =~= all);
}

/// The reduction step. Its accumulator is empty between batches.
pub struct NFTReductionStep {
    accumulator: NFTAccumulator,
}

impl NFTReductionStep {
    #[verifier::type_invariant]
    spec fn inv(self) -> bool {
        self.accumulator.wf() && self.accumulator.is_empty()
    }

    /// The name of the step.
    pub fn name(&self) -> (r: String)
        ensures
            r@ == "NFTReductionStep"@,
    {
        str_to_string("NFTReductionStep")
    }

    /// A step with nothing gathered.
    pub fn new() -> (r: NFTReductionStep) {
        let accumulator = NFTAccumulator::new();
        proof {
            assert(accumulator.listing_map().dom() =~= Set::<Seq<char>>::empty());
            assert(accumulator.token_offer_map().dom() =~= Set::<Seq<char>>::empty());
            assert(accumulator.collection_offer_map().dom() =~= Set::<Seq<char>>::empty());
        }
        NFTReductionStep { accumulator }
    }

    /// Reduces one batch: the resource updates are merged into the listings,
    /// then the token offers, then the collection offers (and into the
    /// matching activities); the result holds every activity, group after
    /// group, and of each kind of current row one per key, the last.
    pub fn process(
        &mut self,
        input: (
            ActivityGroups,
            Vec<CurrentNFTMarketplaceListing>,
            Vec<CurrentNFTMarketplaceTokenOffer>,
            Vec<CurrentNFTMarketplaceCollectionOffer>,
            StrMap<StrMap<String>>,
        ),
    ) -> (r: (
        Vec<NftMarketplaceActivity>,
        Vec<CurrentNFTMarketplaceListing>,
        Vec<CurrentNFTMarketplaceTokenOffer>,
        Vec<CurrentNFTMarketplaceCollectionOffer>,
    ))
        requires
            input.0.wf(),
            updates_wf(input.4),
        ensures
            activity_views(r.0@) == flatten_groups(
                reduction_of(
                    input.0.group_views(),
                    input.0.versions(),
                    updates_view(input.4),
                    input.1@.map_values(|x: CurrentNFTMarketplaceListing| x@),
                    input.2@.map_values(|x: CurrentNFTMarketplaceTokenOffer| x@),
                    input.3@.map_values(|x: CurrentNFTMarketplaceCollectionOffer| x@),
                ).3,
            ),
            reduced_to_last(
                r.1@.map_values(|x: CurrentNFTMarketplaceListing| x@),
                reduction_of(
                    input.0.group_views(),
                    input.0.versions(),
                    updates_view(input.4),
                    input.1@.map_values(|x: CurrentNFTMarketplaceListing| x@),
                    input.2@.map_values(|x: CurrentNFTMarketplaceTokenOffer| x@),
                    input.3@.map_values(|x: CurrentNFTMarketplaceCollectionOffer| x@),
                ).0,
                |x: CurrentNFTMarketplaceListingView| listing_key(x),
            ),
            reduced_to_last(
                r.2@.map_values(|x: CurrentNFTMarketplaceTokenOffer| x@),
                reduction_of(
                    input.0.group_views(),
                    input.0.versions(),
                    updates_view(input.4),
                    input.1@.map_values(|x: CurrentNFTMarketplaceListing| x@),
                    input.2@.map_values(|x: CurrentNFTMarketplaceTokenOffer| x@),
                    input.3@.map_values(|x: CurrentNFTMarketplaceCollectionOffer| x@),
                ).1,
                |x: CurrentNFTMarketplaceTokenOfferView| token_offer_key(x),
            ),
            reduced_to_last(
                r.3@.map_values(|x: CurrentNFTMarketplaceCollectionOffer| x@),
                reduction_of(
                    input.0.group_views(),
                    input.0.versions(),
                    updates_view(input.4),
                    input.1@.map_values(|x: CurrentNFTMarketplaceListing| x@),
                    input.2@.map_values(|x: CurrentNFTMarketplaceTokenOffer| x@),
                    input.3@.map_values(|x: CurrentNFTMarketplaceCollectionOffer| x@),
                ).2,
                |x: CurrentNFTMarketplaceCollectionOfferView| collection_offer_key(x),
            ),
    {
        proof {
            use_type_invariant(&*self);
        }
        let (mut activities, listings, token_offers, collection_offers, updates) = input;
        let ghost red = reduction_of(
            activities.group_views(),
            activities.versions(),
            updates_view(updates),
            listings@.map_values(|x: CurrentNFTMarketplaceListing| x@),
            token_offers@.map_values(|x: CurrentNFTMarketplaceTokenOffer| x@),
            collection_offers@.map_values(|x: CurrentNFTMarketplaceCollectionOffer| x@),
        );
        let mut acc = NFTAccumulator::new();
        std::mem::swap(&mut acc, &mut self.accumulator);
        proof {
            assert(acc.listing_map().dom() =~= Seq::<CurrentNFTMarketplaceListingView>::empty().map_values(
                |x: CurrentNFTMarketplaceListingView| listing_key(x),
            ).to_set());
            assert(acc.token_offer_map().dom() =~= Seq::<CurrentNFTMarketplaceTokenOfferView>::empty().map_values(
                |x: CurrentNFTMarketplaceTokenOfferView| token_offer_key(x),
            ).to_set());
            assert(acc.collection_offer_map().dom() =~= Seq::<CurrentNFTMarketplaceCollectionOfferView>::empty().map_values(
                |x: CurrentNFTMarketplaceCollectionOfferView| collection_offer_key(x),
            ).to_set());
        }
        reduce_listings(&mut acc, listings, &updates, &mut activities, Ghost(Seq::empty()));
        reduce_token_offers(&mut acc, token_offers, &updates, &mut activities, Ghost(Seq::empty()));
        reduce_collection_offers(&mut acc, collection_offers, &updates, &mut activities, Ghost(Seq::empty()));
        proof {
            assert(Seq::<CurrentNFTMarketplaceListingView>::empty() + red.0 =~= red.0);
            assert(Seq::<CurrentNFTMarketplaceTokenOfferView>::empty() + red.1 =~= red.1);
            assert(Seq::<CurrentNFTMarketplaceCollectionOfferView>::empty() + red.2 =~= red.2);
        }
        let all = activities.into_activities();
        let ghost all_seq = all@;
        let n = all.len();
        let mut rev = reversed(all);
        let mut j: usize = 0;
        while j < n
            invariant
                acc.wf(),
                n == all_seq.len(),
                j <= n,
                rev@.len() == n - j,
                forall|k: int| 0 <= k < rev@.len() ==> #[trigger] rev@[k] == all_seq[n - 1 - k],
                acc.activity_seq() == all_seq.take(j as int),
                holds_last(acc.listing_map(), red.0, |x: CurrentNFTMarketplaceListingView| listing_key(x)),
                holds_last(acc.token_offer_map(), red.1, |x: CurrentNFTMarketplaceTokenOfferView| token_offer_key(x)),
                holds_last(acc.collection_offer_map(), red.2, |x: CurrentNFTMarketplaceCollectionOfferView| collection_offer_key(x)),
            decreases n - j,
        {
            let a = rev.pop().unwrap();
            assert(a == all_seq[j as int]);
            acc.add_activity(a);
            assert(all_seq.take(j + 1) =~= all_seq.take(j as int).push(all_seq[j as int]));
            j = j + 1;
        }
        proof {
            acc.lemma_keys();
        }
        let ghost lk = acc.listing_keys();
        let ghost tk = acc.token_offer_keys();
        let ghost ck = acc.collection_offer_keys();
        let ghost lm = acc.listing_map();
        let ghost tm = acc.token_offer_map();
        let ghost cm = acc.collection_offer_map();
        let out = acc.drain();
        proof {
            assert(out.0@ =~= all_seq);
            lemma_holds_last_values(lm, red.0, |x: CurrentNFTMarketplaceListingView| listing_key(x), lk, out.1@);
            lemma_holds_last_values(tm, red.1, |x: CurrentNFTMarketplaceTokenOfferView| token_offer_key(x), tk, out.2@);
            lemma_holds_last_values(cm, red.2, |x: CurrentNFTMarketplaceCollectionOfferView| collection_offer_key(x), ck, out.3@);
        }
        std::mem::swap(&mut acc, &mut self.accumulator);
        out
    }
}

/// Rows of one kind reduced without resource updates are the rows that
/// their lookup keeps, unchanged, and the activities are unchanged.
pub proof fn lemma_reduce_rows_without_updates<T: MarketplaceModel>(
    groups: Seq<Seq<NftMarketplaceActivityView>>,
    versions: Seq<i64>,
    rows: Seq<T::V>,
    lookup: spec_fn(T::V) -> Option<Seq<char>>,
)
    ensures
        reduce_rows::<T>(groups, versions, Map::empty(), rows, lookup) == (
            rows.filter(|r: T::V| lookup(r) is Some),
            groups,
        ),
    decreases rows.len(),
{
    reveal(Seq::filter);
    if rows.len() > 0 {
        lemma_reduce_rows_without_updates::<T>(groups, versions, rows.drop_last(), lookup);
    }
}

/// A batch without resource updates is reduced without change: the
/// listings, the token offers and the activities stay as they are, and of
/// the collection offers those with an id stay as they are.
pub proof fn lemma_reduction_without_updates(
    groups: Seq<Seq<NftMarketplaceActivityView>>,
    versions: Seq<i64>,
    listings: Seq<CurrentNFTMarketplaceListingView>,
    token_offers: Seq<CurrentNFTMarketplaceTokenOfferView>,
    collection_offers: Seq<CurrentNFTMarketplaceCollectionOfferView>,
)
    ensures
        reduction_of(groups, versions, Map::empty(), listings, token_offers, collection_offers) == (
            listings,
            token_offers,
            collection_offers.filter(|o: CurrentNFTMarketplaceCollectionOfferView| o.collection_offer_id.len() > 0),
            groups,
        ),
{
    lemma_reduce_rows_without_updates::<CurrentNFTMarketplaceListing>(groups, versions, listings, listing_lookup());
    lemma_reduce_rows_without_updates::<CurrentNFTMarketplaceTokenOffer>(
        groups,
        versions,
        token_offers,
        token_offer_lookup(),
    );
    lemma_reduce_rows_without_updates::<CurrentNFTMarketplaceCollectionOffer>(
        groups,
        versions,
        collection_offers,
        collection_offer_lookup(),
    );
    lemma_filter_all::<CurrentNFTMarketplaceListingView>(listings, |r: CurrentNFTMarketplaceListingView| listing_lookup()(r) is Some);
    lemma_filter_all::<CurrentNFTMarketplaceTokenOfferView>(
        token_offers,
        |r: CurrentNFTMarketplaceTokenOfferView| token_offer_lookup()(r) is Some,
    );
    lemma_filter_same::<CurrentNFTMarketplaceCollectionOfferView>(
        collection_offers,
        |r: CurrentNFTMarketplaceCollectionOfferView| collection_offer_lookup()(r) is Some,
        |o: CurrentNFTMarketplaceCollectionOfferView| o.collection_offer_id.len() > 0,
    );
}

/// Filtering by a predicate that holds of every item keeps the sequence.
proof fn lemma_filter_all<A>(s: Seq<A>, pred: spec_fn(A) -> bool)
    requires
        forall|a: A| #[trigger] pred(a),
    ensures
        s.filter(pred) == s,
    decreases s.len(),
{
    reveal(Seq::filter);
    if s.len() > 0 {
        lemma_filter_all(s.drop_last(), pred);
        assert(s.drop_last().push(s.last()) =~= s);
    }
}

/// Filtering by two predicates that agree gives the same sequence.
proof fn lemma_filter_same<A>(s: Seq<A>, p: spec_fn(A) -> bool, q: spec_fn(A) -> bool)
    requires
        forall|a: A| #[trigger] p(a) == q(a),
    ensures
        s.filter(p) == s.filter(q),
    decreases s.len(),
{
    reveal(Seq::filter);
    if s.len() > 0 {
        lemma_filter_same(s.drop_last(), p, q);
        assert(p(s.last()) == q(s.last()));
    }
}

/// Updates only to columns that a row has already filled change neither the
/// row nor any activity.
pub proof fn lemma_merge_keeps_filled<T: MarketplaceModel>(
    row: T::V,
    groups: Seq<Seq<NftMarketplaceActivityView>>,
    versions: Seq<i64>,
    updates: Seq<(Seq<char>, Seq<char>)>,
)
    requires
        forall|i: int| 0 <= i < updates.len() ==> !needs_column::<T>(row, #[trigger] updates[i].0),
    ensures
        merge_updates::<T>(row, groups, versions, updates) == (row, groups),
    decreases updates.len(),
{
    if updates.len() > 0 {
        let rest = updates.drop_last();
        assert forall|i: int| 0 <= i < rest.len() implies !needs_column::<T>(row, #[trigger] rest[i].0) by {
            assert(rest[i] == updates[i]);
        }
        lemma_merge_keeps_filled::<T>(row, groups, versions, rest);
        assert(updates.last() == updates[updates.len() - 1]);
    }
}

/// The first update of a column that a row still needs, with a non-empty
/// value, fills a text column of a listing with that value.
pub proof fn lemma_merge_fills_listing_column(
    row: CurrentNFTMarketplaceListingView,
    groups: Seq<Seq<NftMarketplaceActivityView>>,
    versions: Seq<i64>,
    column: Seq<char>,
    value: Seq<char>,
)
    requires
        column == "token_data_id"@ || column == "seller"@ || column == "listing_id"@ || column
            == "collection_id"@,
        needs_column::<CurrentNFTMarketplaceListing>(row, column),
    ensures
        CurrentNFTMarketplaceListing::column_text(
            merge_updates::<CurrentNFTMarketplaceListing>(
                row,
                groups,
                versions,
                seq![(column, value)],
            ).0,
            column,
        ) == Some(value),
{
    reveal_strlit("token_data_id");
    reveal_strlit("listing_id");
    reveal_strlit("collection_id");
    reveal_strlit("seller");
    assert("token_data_id"@.len() == 13);
    assert("listing_id"@.len() == 10);
    assert("collection_id"@.len() == 13);
    assert("seller"@.len() == 6);
    assert("token_data_id"@[0] != "collection_id"@[0]);
    let u = seq![(column, value)];
    assert(u.drop_last() =~= Seq::<(Seq<char>, Seq<char>)>::empty());
    assert(merge_updates::<CurrentNFTMarketplaceListing>(row, groups, versions, u.drop_last()) == (
        row,
        groups,
    ));
    assert(u.last() == (column, value));
    let r1 = CurrentNFTMarketplaceListing::with_column(row, column, value);
    assert(merge_updates::<CurrentNFTMarketplaceListing>(row, groups, versions, u).0 == r1);
}

/// Text followed by two different texts gives two different texts, and the
/// same text the same.
proof fn lemma_suffix_tells_apart(p: Seq<char>, x: Seq<char>, y: Seq<char>)
    ensures
        (p + x == p + y) <==> (x == y),
{
    if p + x == p + y {
        assert((p + x).skip(p.len() as int) =~= x);
        assert((p + y).skip(p.len() as int) =~= y);
    }
}

/// The reduction keeps current rows of one marketplace apart exactly by
/// their primary keys: two token offers of one marketplace and token share
/// a key just when they have the same buyer, two listings of one
/// marketplace just when they are for the same token, and two collection
/// offers of one marketplace just when they have the same offer id. So
/// folding one buyer's offer never replaces another buyer's.
pub proof fn lemma_reduction_keys_tell_rows_apart(
    l1: CurrentNFTMarketplaceListingView,
    l2: CurrentNFTMarketplaceListingView,
    t1: CurrentNFTMarketplaceTokenOfferView,
    t2: CurrentNFTMarketplaceTokenOfferView,
    c1: CurrentNFTMarketplaceCollectionOfferView,
    c2: CurrentNFTMarketplaceCollectionOfferView,
)
    ensures
        l1.marketplace == l2.marketplace ==> (listing_key(l1) == listing_key(l2) <==> l1.token_data_id
            == l2.token_data_id),
        t1.marketplace == t2.marketplace && t1.token_data_id == t2.token_data_id ==> (token_offer_key(t1)
            == token_offer_key(t2) <==> t1.buyer == t2.buyer),
        c1.marketplace == c2.marketplace ==> (collection_offer_key(c1) == collection_offer_key(c2)
            <==> c1.collection_offer_id == c2.collection_offer_id),
{
    lemma_suffix_tells_apart(l1.marketplace + "::"@, l1.token_data_id, l2.token_data_id);
    lemma_suffix_tells_apart(t1.marketplace + "::"@ + t1.token_data_id + "::"@, t1.buyer, t2.buyer);
    lemma_suffix_tells_apart(c1.marketplace + "::"@, c1.collection_offer_id, c2.collection_offer_id);
}

/// Whether a text holds no `:`.
pub open spec fn colon_free(s: Seq<char>) -> bool {
    forall|i: int| 0 <= i < s.len() ==> s[i] != ':'
}

/// A colon-free text followed by a text that starts with `:` is read back
/// as the two.
proof fn lemma_split_at_colon(m1: Seq<char>, r1: Seq<char>, m2: Seq<char>, r2: Seq<char>)
    requires
        colon_free(m1),
        colon_free(m2),
        r1.len() > 0 && r1[0] == ':',
        r2.len() > 0 && r2[0] == ':',
        m1 + r1 == m2 + r2,
    ensures
        m1 == m2,
        r1 == r2,
{
    let k = m1 + r1;
    if m1.len() < m2.len() {
        assert(k[m1.len() as int] == r1[0]);
        assert(k[m1.len() as int] == m2[m1.len() as int]);
    } else if m2.len() < m1.len() {
        assert(k[m2.len() as int] == r2[0]);
        assert(k[m2.len() as int] == m1[m2.len() as int]);
    }
    assert(k.take(m1.len() as int) =~= m1);
    assert((m2 + r2).take(m2.len() as int) =~= m2);
    assert(k.skip(m1.len() as int) =~= r1);
    assert((m2 + r2).skip(m2.len() as int) =~= r2);
}

/// Where marketplace names (and, for token offers, token ids) hold no `:`,
/// the reduction keys tell current rows apart exactly by marketplace and
/// primary key: a listing by marketplace and token, a token offer by
/// marketplace, token and buyer, a collection offer by marketplace and
/// offer id.
pub proof fn lemma_reduction_keys_identify_rows(
    l1: CurrentNFTMarketplaceListingView,
    l2: CurrentNFTMarketplaceListingView,
    t1: CurrentNFTMarketplaceTokenOfferView,
    t2: CurrentNFTMarketplaceTokenOfferView,
    c1: CurrentNFTMarketplaceCollectionOfferView,
    c2: CurrentNFTMarketplaceCollectionOfferView,
)
    ensures
        colon_free(l1.marketplace) && colon_free(l2.marketplace) ==> (listing_key(l1) == listing_key(l2) <==> (
        l1.marketplace == l2.marketplace && l1.token_data_id == l2.token_data_id)),
        colon_free(t1.marketplace) && colon_free(t2.marketplace) && colon_free(t1.token_data_id) && colon_free(
            t2.token_data_id,
        ) ==> (token_offer_key(t1) == token_offer_key(t2) <==> (t1.marketplace == t2.marketplace
            && t1.token_data_id == t2.token_data_id && t1.buyer == t2.buyer)),
        colon_free(c1.marketplace) && colon_free(c2.marketplace) ==> (collection_offer_key(c1)
            == collection_offer_key(c2) <==> (c1.marketplace == c2.marketplace && c1.collection_offer_id
            == c2.collection_offer_id)),
{
    reveal_strlit("::");
    let sep = "::"@;
    assert(sep.len() == 2 && sep[0] == ':' && sep[1] == ':');
    if colon_free(l1.marketplace) && colon_free(l2.marketplace) && listing_key(l1) == listing_key(l2) {
        assert(listing_key(l1) =~= l1.marketplace + (sep + l1.token_data_id));
        assert(listing_key(l2) =~= l2.marketplace + (sep + l2.token_data_id));
        lemma_split_at_colon(l1.marketplace, sep + l1.token_data_id, l2.marketplace, sep + l2.token_data_id);
        lemma_suffix_tells_apart(sep, l1.token_data_id, l2.token_data_id);
    }
    if colon_free(c1.marketplace) && colon_free(c2.marketplace) && collection_offer_key(c1) == collection_offer_key(
        c2,
    ) {
        assert(collection_offer_key(c1) =~= c1.marketplace + (sep + c1.collection_offer_id));
        assert(collection_offer_key(c2) =~= c2.marketplace + (sep + c2.collection_offer_id));
        lemma_split_at_colon(c1.marketplace, sep + c1.collection_offer_id, c2.marketplace, sep + c2.collection_offer_id);
        lemma_suffix_tells_apart(sep, c1.collection_offer_id, c2.collection_offer_id);
    }
    if colon_free(t1.marketplace) && colon_free(t2.marketplace) && colon_free(t1.token_data_id) && colon_free(
        t2.token_data_id,
    ) && token_offer_key(t1) == token_offer_key(t2) {
        let r1 = t1.token_data_id + (sep + t1.buyer);
        let r2 = t2.token_data_id + (sep + t2.buyer);
        assert(token_offer_key(t1) =~= t1.marketplace + (sep + r1));
        assert(token_offer_key(t2) =~= t2.marketplace + (sep + r2));
        lemma_split_at_colon(t1.marketplace, sep + r1, t2.marketplace, sep + r2);
        lemma_suffix_tells_apart(sep, r1, r2);
        lemma_split_at_colon(t1.token_data_id, sep + t1.buyer, t2.token_data_id, sep + t2.buyer);
        lemma_suffix_tells_apart(sep, t1.buyer, t2.buyer);
    }
}

} // verus!
