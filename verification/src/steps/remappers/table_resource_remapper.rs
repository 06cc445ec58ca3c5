//! Remapping of written resources by table mappings: a resource written at
//! the address that keys activities fills, in each of those activities, the
//! columns that the activity's marketplace reads from resources of its type.
use crate::config::marketplace_config::{event_type_name, MarketplaceEventType};
use crate::config::table_mappings::{column_entry_view, tables_view, tables_wf, ColumnEntry, ColumnEntryView, ALL_EVENTS};
use crate::convert::{standardize_address, standardized};
use crate::error::{IndexerError, IndexerErrorView};
use crate::json::{json_text, parse_json, JsonData, JsonValue};
use crate::models::nft_models::{MarketplaceModel, NftMarketplaceActivity, NftMarketplaceActivityView};
use crate::models::transaction::{Change, Transaction, TxnData, WriteSetChange};
use crate::steps::remappers::resource_remapper::{resource_data, WRITE_SET_CHANGES};
use crate::steps::{extract_string, paths_evaluable_in, paths_first};
use crate::str_map::StrMap;
use crate::text::str_eq;
use vstd::prelude::*;

verus! {

/// The table of current listings.
pub const CURRENT_NFT_MARKETPLACE_LISTINGS: &'static str = "current_nft_marketplace_listings";

/// The table of current token offers.
pub const CURRENT_NFT_MARKETPLACE_TOKEN_OFFERS: &'static str = "current_nft_marketplace_token_offers";

/// The table of current collection offers.
pub const CURRENT_NFT_MARKETPLACE_COLLECTION_OFFERS: &'static str = "current_nft_marketplace_collection_offers";

/// The table of current rows that an event type updates.
pub open spec fn table_of_event_type(t: MarketplaceEventType) -> Seq<char> {
    match t {
        MarketplaceEventType::PlaceListing
        | MarketplaceEventType::CancelListing
        | MarketplaceEventType::FillListing => CURRENT_NFT_MARKETPLACE_LISTINGS@,
        MarketplaceEventType::PlaceTokenOffer
        | MarketplaceEventType::CancelTokenOffer
        | MarketplaceEventType::FillTokenOffer => CURRENT_NFT_MARKETPLACE_TOKEN_OFFERS@,
        _ => CURRENT_NFT_MARKETPLACE_COLLECTION_OFFERS@,
    }
}

/// The table of current rows that an event type updates; an unknown event
/// type has none.
pub fn determine_table_from_event_type(event_type: &MarketplaceEventType) -> (r: &'static str)
    requires
        *event_type != MarketplaceEventType::Unknown,
    ensures
        r@ == table_of_event_type(*event_type),
{
    match event_type {
        MarketplaceEventType::PlaceListing
        | MarketplaceEventType::CancelListing
        | MarketplaceEventType::FillListing => CURRENT_NFT_MARKETPLACE_LISTINGS,
        MarketplaceEventType::PlaceTokenOffer
        | MarketplaceEventType::CancelTokenOffer
        | MarketplaceEventType::FillTokenOffer => CURRENT_NFT_MARKETPLACE_TOKEN_OFFERS,
        _ => CURRENT_NFT_MARKETPLACE_COLLECTION_OFFERS,
    }
}

/// The table mappings by content: marketplace, then table, then its column
/// entries.
pub type TableMappingsView = Map<Seq<char>, Map<Seq<char>, Seq<ColumnEntryView>>>;

/// Activities by content, under the address that keys them, each with its
/// event type.
pub type ActivityMapView = Map<Seq<char>, Seq<(MarketplaceEventType, NftMarketplaceActivityView)>>;

/// The string that the first of `paths` that finds a value finds in `data`,
/// if it is a string.
pub open spec fn column_value(paths: Seq<Seq<char>>, data: JsonData) -> Option<Seq<char>> {
    match paths_first(paths, json_text(data)) {
        Some(m) => m.str_value,
        None => None,
    }
}

/// Whether a column entry reads resources of type `rtype` for activities of
/// type `et`.
pub open spec fn column_applies(e: ColumnEntryView, et: MarketplaceEventType, rtype: Seq<char>) -> bool {
    &&& e.1 == WRITE_SET_CHANGES@
    &&& e.2 == Some(rtype)
    &&& (e.4 == ALL_EVENTS@ || e.4 == event_type_name(et))
}

/// An activity of type `et` after the columns `cols`, in order, read a
/// resource of type `rtype` with data `data`.
pub open spec fn apply_table_columns(
    a: NftMarketplaceActivityView,
    et: MarketplaceEventType,
    rtype: Seq<char>,
    data: JsonData,
    cols: Seq<ColumnEntryView>,
) -> NftMarketplaceActivityView
    decreases cols.len(),
{
    if cols.len() == 0 {
        a
    } else {
        let prev = apply_table_columns(a, et, rtype, data, cols.drop_last());
        let e = cols.last();
        if column_applies(e, et, rtype) {
            match column_value(e.3, data) {
                Some(v) => NftMarketplaceActivity::with_column(prev, e.0, v),
                None => prev,
            }
        } else {
            prev
        }
    }
}

/// An activity of type `et` after a resource of type `rtype` with data
/// `data` is written at its address: the columns of its table in its
/// marketplace's mappings, if there are any.
pub open spec fn resource_updated_activity(
    tm: TableMappingsView,
    et: MarketplaceEventType,
    a: NftMarketplaceActivityView,
    rtype: Seq<char>,
    data: JsonData,
) -> NftMarketplaceActivityView {
    if tm.contains_key(a.marketplace) && tm[a.marketplace].contains_key(table_of_event_type(et)) {
        apply_table_columns(a, et, rtype, data, tm[a.marketplace][table_of_event_type(et)])
    } else {
        a
    }
}

/// The activities of an address, by content.
pub open spec fn group_view(g: Seq<(MarketplaceEventType, NftMarketplaceActivity)>) -> Seq<
    (MarketplaceEventType, NftMarketplaceActivityView),
> {
    g.map_values(|p: (MarketplaceEventType, NftMarketplaceActivity)| (p.0, p.1@))
}

/// The activities of an address after a resource is written there.
pub open spec fn updated_group(
    tm: TableMappingsView,
    g: Seq<(MarketplaceEventType, NftMarketplaceActivityView)>,
    rtype: Seq<char>,
    data: JsonData,
) -> Seq<(MarketplaceEventType, NftMarketplaceActivityView)> {
    Seq::new(g.len(), |i: int| (g[i].0, resource_updated_activity(tm, g[i].0, g[i].1, rtype, data)))
}

/// An activity map by content.
pub open spec fn activity_map_view(m: StrMap<Vec<(MarketplaceEventType, NftMarketplaceActivity)>>) -> ActivityMapView {
    Map::new(|k: Seq<char>| m.view_map().contains_key(k), |k: Seq<char>| group_view(m.view_map()[k]@))
}

/// The activities after the write set `changes`, in order: each written
/// resource updates the activities of its standardized address.
pub open spec fn apply_resource_changes(
    tm: TableMappingsView,
    am: ActivityMapView,
    changes: Seq<WriteSetChange>,
) -> ActivityMapView
    decreases changes.len(),
{
    if changes.len() == 0 {
        am
    } else {
        let prev = apply_resource_changes(tm, am, changes.drop_last());
        match changes.last().change {
            Some(Change::WriteResource(w)) => {
                let addr = standardized(w.address@);
                if prev.contains_key(addr) {
                    prev.insert(addr, updated_group(tm, prev[addr], w.type_str@, resource_data(w.data@)))
                } else {
                    prev
                }
            },
            _ => prev,
        }
    }
}

/// What remapping the resources of `txn` does to the activities: an error
/// for a transaction without data or a user transaction without info.
pub open spec fn table_remap_result(tm: TableMappingsView, am: ActivityMapView, txn: Transaction) -> Result<
    ActivityMapView,
    IndexerErrorView,
> {
    match txn.txn_data {
        None => Err(IndexerErrorView::MissingTransactionData),
        Some(TxnData::User(_)) => match txn.info {
            None => Err(IndexerErrorView::MissingTransactionInfo),
            Some(info) => Ok(apply_resource_changes(tm, am, info.changes@)),
        },
        Some(TxnData::Other) => Ok(am),
    }
}

/// Whether no activity of the unknown event type, whose marketplace has
/// table mappings, is keyed by the address of the resource that `c` writes
/// (such an activity has no table).
pub open spec fn change_avoids_unknown(tm: TableMappingsView, am: ActivityMapView, c: WriteSetChange) -> bool {
    match c.change {
        Some(Change::WriteResource(w)) => {
            let addr = standardized(w.address@);
            am.contains_key(addr) ==> forall|j: int|
                0 <= j < am[addr].len() && am[addr][j].0 == MarketplaceEventType::Unknown ==> !tm.contains_key(
                    #[trigger] am[addr][j].1.marketplace,
                )
        },
        _ => true,
    }
}

/// Whether no resource that `txn` writes reaches an activity of the unknown
/// event type whose marketplace has table mappings.
pub open spec fn unknown_not_reached(tm: TableMappingsView, am: ActivityMapView, txn: Transaction) -> bool {
    match txn.info {
        Some(info) => forall|i: int|
            0 <= i < info.changes@.len() ==> change_avoids_unknown(tm, am, #[trigger] info.changes@[i]),
        None => true,
    }
}

/// Whether the evaluator can run every path that writing a resource of type
/// `rtype` with data `data` evaluates on activity `a` of type `et`: for each
/// column of its table that applies, the paths tried in order up to the
/// first that finds a value.
pub open spec fn activity_paths_evaluable(
    tm: TableMappingsView,
    et: MarketplaceEventType,
    a: NftMarketplaceActivityView,
    rtype: Seq<char>,
    data: JsonData,
) -> bool {
    tm.contains_key(a.marketplace) && tm[a.marketplace].contains_key(table_of_event_type(et)) ==> {
        let cols = tm[a.marketplace][table_of_event_type(et)];
        forall|k: int|
            0 <= k < cols.len() && column_applies(#[trigger] cols[k], et, rtype) ==> paths_evaluable_in(
                cols[k].3,
                json_text(data),
            )
    }
}

/// Whether the evaluator can run every path that the resource `c` writes
/// makes the remapper evaluate on the activities of its address.
pub open spec fn change_paths_evaluable(tm: TableMappingsView, am: ActivityMapView, c: WriteSetChange) -> bool {
    match c.change {
        Some(Change::WriteResource(w)) => {
            let addr = standardized(w.address@);
            am.contains_key(addr) ==> forall|j: int|
                0 <= j < am[addr].len() ==> activity_paths_evaluable(
                    tm,
                    am[addr][j].0,
                    #[trigger] am[addr][j].1,
                    w.type_str@,
                    resource_data(w.data@),
                )
        },
        _ => true,
    }
}

/// Whether the evaluator can run every path that remapping the resources
/// `txn` writes evaluates.
pub open spec fn paths_evaluable_for(tm: TableMappingsView, am: ActivityMapView, txn: Transaction) -> bool {
    match txn.info {
        Some(info) => forall|i: int|
            0 <= i < info.changes@.len() ==> change_paths_evaluable(tm, am, #[trigger] info.changes@[i]),
        None => true,
    }
}

/// Whether `cur` has the addresses of `init`, with activities of the same
/// event types and marketplaces.
pub open spec fn same_shape(cur: ActivityMapView, init: ActivityMapView) -> bool {
    &&& cur.dom() == init.dom()
    &&& forall|k: Seq<char>| #[trigger] init.contains_key(k) ==> cur[k].len() == init[k].len()
    &&& forall|k: Seq<char>, j: int|
        init.contains_key(k) && 0 <= j < init[k].len() ==> (#[trigger] cur[k][j]).0 == init[k][j].0
            && cur[k][j].1.marketplace == init[k][j].1.marketplace
}

/// Reading columns from a resource leaves an activity's marketplace alone.
proof fn lemma_columns_keep_marketplace(
    a: NftMarketplaceActivityView,
    et: MarketplaceEventType,
    rtype: Seq<char>,
    data: JsonData,
    cols: Seq<ColumnEntryView>,
)
    ensures
        apply_table_columns(a, et, rtype, data, cols).marketplace == a.marketplace,
    decreases cols.len(),
{
    if cols.len() > 0 {
        lemma_columns_keep_marketplace(a, et, rtype, data, cols.drop_last());
    }
}

/// Writes the columns `cols` that read resources of type `rtype` into the
/// activity `act` of type `et`.
fn apply_table_columns_to(
    act: &mut NftMarketplaceActivity,
    et: MarketplaceEventType,
    rtype: &str,
    data: &JsonValue,
    cols: &Vec<ColumnEntry>,
)
    requires
        forall|k: int|
            0 <= k < cols@.len() && column_applies(column_entry_view(#[trigger] cols@[k]), et, rtype@)
                ==> paths_evaluable_in(column_entry_view(cols@[k]).3, json_text(data@)),
    ensures
        final(act)@ == apply_table_columns(
            old(act)@,
            et,
            rtype@,
            data@,
            cols@.map_values(|e: ColumnEntry| column_entry_view(e)),
        ),
{
    let ghost cv = cols@.map_values(|e: ColumnEntry| column_entry_view(e));
    let mut k: usize = 0;
    assert(cv.take(0) =~= Seq::<ColumnEntryView>::empty());
    while k < cols.len()
        invariant
            k <= cols@.len(),
            cv == cols@.map_values(|e: ColumnEntry| column_entry_view(e)),
            forall|k: int|
                0 <= k < cols@.len() && column_applies(column_entry_view(#[trigger] cols@[k]), et, rtype@)
                    ==> paths_evaluable_in(column_entry_view(cols@[k]).3, json_text(data@)),
            act@ == apply_table_columns(old(act)@, et, rtype@, data@, cv.take(k as int)),
        decreases cols@.len() - k,
    {
        let e = &cols[k];
        proof {
            assert(cv.take(k + 1).drop_last() =~= cv.take(k as int));
            assert(cv.take(k + 1).last() == column_entry_view(*e));
        }
        let from_resource = str_eq(e.1.as_str(), WRITE_SET_CHANGES);
        let of_type = match &e.2 {
            Some(t) => str_eq(t.as_str(), rtype),
            None => false,
        };
        let for_event = str_eq(e.4.as_str(), ALL_EVENTS) || str_eq(e.4.as_str(), et.as_str());
        if from_resource && of_type && for_event {
            match extract_string(&e.3, data) {
                Some(v) => {
                    act.set_field(e.0.as_str(), v);
                },
                None => {},
            }
        }
        k = k + 1;
    }
    assert(cv.take(k as int) =~= cv);
}

/// Remaps written resources into activities by the table mappings of their
/// marketplaces.
pub struct ResourceMapper {
    table_mappings: StrMap<StrMap<Vec<ColumnEntry>>>,
}

impl ResourceMapper {
    #[verifier::type_invariant]
    spec fn inv(self) -> bool {
        tables_wf(self.table_mappings)
    }

    /// The table mappings, by content.
    pub closed spec fn mappings(&self) -> TableMappingsView {
        tables_view(self.table_mappings)
    }

    /// The mapper of the given table mappings.
    pub fn new(table_mappings: StrMap<StrMap<Vec<ColumnEntry>>>) -> (r: ResourceMapper)
        requires
            tables_wf(table_mappings),
        ensures
            r.mappings() == tables_view(table_mappings),
    {
        ResourceMapper { table_mappings }
    }

    /// Updates the activities of one address after a resource of type
    /// `rtype` with data `data` is written there.
    fn update_group(&self, group: &mut Vec<(MarketplaceEventType, NftMarketplaceActivity)>, rtype: &str, data: &JsonValue)
        requires
            forall|j: int|
                0 <= j < old(group)@.len() && old(group)@[j].0 == MarketplaceEventType::Unknown
                    ==> !self.mappings().contains_key(#[trigger] old(group)@[j].1@.marketplace),
            forall|j: int|
                0 <= j < old(group)@.len() ==> activity_paths_evaluable(
                    self.mappings(),
                    old(group)@[j].0,
                    #[trigger] old(group)@[j].1@,
                    rtype@,
                    data@,
                ),
        ensures
            group_view(final(group)@) == updated_group(self.mappings(), group_view(old(group)@), rtype@, data@),
    {
        proof {
            use_type_invariant(self);
        }
        let ghost tm = self.mappings();
        let ghost g0 = group_view(group@);
        let ghost target = updated_group(tm, g0, rtype@, data@);
        let mut items: Vec<(MarketplaceEventType, NftMarketplaceActivity)> = Vec::new();
        std::mem::swap(&mut items, group);
        let ghost all = items@;
        let n = items.len();
        let mut done: usize = 0;
        assert(group_view(group@) =~= target.take(0));
        while items.len() > 0
            invariant
                tables_wf(self.table_mappings),
                tm == tables_view(self.table_mappings),
                n == all.len(),
                g0 == group_view(all),
                target == updated_group(tm, g0, rtype@, data@),
                done + items@.len() == n,
                items@ == all.skip(done as int),
                group_view(group@) == target.take(done as int),
                forall|j: int|
                    0 <= j < all.len() && all[j].0 == MarketplaceEventType::Unknown ==> !tm.contains_key(
                        #[trigger] all[j].1@.marketplace,
                    ),
                forall|j: int|
                    0 <= j < all.len() ==> activity_paths_evaluable(tm, all[j].0, #[trigger] all[j].1@, rtype@, data@),
            decreases items@.len(),
        {
            let (et, mut act) = items.remove(0);
            assert(all[done as int] == (et, act));
            let ghost before = act@;
            match self.table_mappings.get(act.marketplace.as_str()) {
                Some(tables) => {
                    proof {
                        assert(tm.contains_key(act@.marketplace));
                        assert(tables_wf(self.table_mappings));
                    }
                    let table = determine_table_from_event_type(&et);
                    match tables.get(table) {
                        Some(cols) => {
                            proof {
                                assert(activity_paths_evaluable(tm, et, before, rtype@, data@));
                                assert(tm[act@.marketplace][table@] == cols@.map_values(
                                    |e: ColumnEntry| column_entry_view(e),
                                ));
                                assert forall|k: int|
                                    0 <= k < cols@.len() && column_applies(
                                        column_entry_view(#[trigger] cols@[k]),
                                        et,
                                        rtype@,
                                    ) implies paths_evaluable_in(column_entry_view(cols@[k]).3, json_text(data@)) by {
                                    assert(tm[act@.marketplace][table@][k] == column_entry_view(cols@[k]));
                                }
                            }
                            apply_table_columns_to(&mut act, et, rtype, data, cols);
                        },
                        None => {},
                    }
                },
                None => {},
            }
            assert(act@ == resource_updated_activity(tm, et, before, rtype@, data@));
            let ghost prev = group_view(group@);
            group.push((et, act));
            proof {
                assert(items@ =~= all.skip(done + 1));
                assert(group_view(group@) =~= prev.push((et, act@)));
                assert(target.take(done + 1) =~= target.take(done as int).push(target[done as int]));
            }
            done = done + 1;
        }
        assert(target.take(n as int) =~= target);
    }

    /// Remaps the resources that `txn` writes into the activities keyed by
    /// their standardized addresses; a transaction without data, or a user
    /// transaction without info, is an error and changes nothing.
    pub fn remap_resources(
        &self,
        txn: &Transaction,
        activity_map: &mut StrMap<Vec<(MarketplaceEventType, NftMarketplaceActivity)>>,
    ) -> (r: Result<(), IndexerError>)
        requires
            old(activity_map).wf(),
            unknown_not_reached(self.mappings(), activity_map_view(*old(activity_map)), *txn),
            paths_evaluable_for(self.mappings(), activity_map_view(*old(activity_map)), *txn),
        ensures
            final(activity_map).wf(),
            final(activity_map).key_seq() == old(activity_map).key_seq(),
            r is Ok ==> table_remap_result(self.mappings(), activity_map_view(*old(activity_map)), *txn) == Ok::<
                ActivityMapView,
                IndexerErrorView,
            >(activity_map_view(*final(activity_map))),
            r matches Err(e) ==> table_remap_result(self.mappings(), activity_map_view(*old(activity_map)), *txn)
                == Err::<ActivityMapView, IndexerErrorView>(e@) && *final(activity_map) == *old(activity_map),
    {
        proof {
            use_type_invariant(self);
        }
        let txn_data = match &txn.txn_data {
            Some(d) => d,
            None => return Err(IndexerError::MissingTransactionData),
        };
        match txn_data {
            TxnData::User(_) => {
                let info = match &txn.info {
                    Some(i) => i,
                    None => return Err(IndexerError::MissingTransactionInfo),
                };
                let ghost tm = self.mappings();
                let ghost am0 = activity_map_view(*activity_map);
                let ghost changes = info.changes@;
                let ghost keys0 = activity_map.key_seq();
                let mut i: usize = 0;
                assert(changes.take(0) =~= Seq::<WriteSetChange>::empty());
                while i < info.changes.len()
                    invariant
                        tables_wf(self.table_mappings),
                        tm == tables_view(self.table_mappings),
                        txn.info == Some(*info),
                        changes == info.changes@,
                        i <= changes.len(),
                        activity_map.wf(),
                        activity_map.key_seq() == keys0,
                        unknown_not_reached(tm, am0, *txn),
                        paths_evaluable_for(tm, am0, *txn),
                        activity_map_view(*activity_map) == apply_resource_changes(tm, am0, changes.take(i as int)),
                        same_shape(activity_map_view(*activity_map), am0),
                    decreases changes.len() - i,
                {
                    let ghost cur = activity_map_view(*activity_map);
                    proof {
                        assert(changes.take(i + 1).drop_last() =~= changes.take(i as int));
                        assert(changes.take(i + 1).last() == changes[i as int]);
                    }
                    match &info.changes[i].change {
                        Some(Change::WriteResource(w)) => {
                            let addr = standardize_address(w.address.as_str());
                            proof {
                                activity_map.lemma_wf_facts();
                            }
                            match activity_map.position(addr.as_str()) {
                                Some(p) => {
                                    let ghost m0 = *activity_map;
                                    let mut group = activity_map.replace_at(p, Vec::new());
                                    proof {
                                        m0.lemma_wf_facts();
                                        assert(group == m0.view_map()[addr@]);
                                        assert(cur.contains_key(addr@));
                                        assert(am0.contains_key(addr@));
                                        assert(txn.info->Some_0.changes@[i as int] == changes[i as int]);
                                        assert(change_avoids_unknown(tm, am0, changes[i as int]));
                                        assert(change_paths_evaluable(tm, am0, changes[i as int]));
                                        assert(changes[i as int].change == Some(Change::WriteResource(*w)));
                                        assert forall|j: int|
                                            0 <= j < group@.len() && group@[j].0 == MarketplaceEventType::Unknown
                                                implies !tm.contains_key(#[trigger] group@[j].1@.marketplace) by {
                                            assert(cur[addr@] == group_view(group@));
                                            assert(cur[addr@][j] == (group@[j].0, group@[j].1@));
                                            assert(am0[addr@][j].0 == cur[addr@][j].0);
                                            assert(am0[addr@][j].1.marketplace == cur[addr@][j].1.marketplace);
                                            assert(am0[addr@][j].0 == MarketplaceEventType::Unknown);
                                            assert(!tm.contains_key(am0[addr@][j].1.marketplace));
                                        }
                                        assert forall|j: int| 0 <= j < group@.len() implies activity_paths_evaluable(
                                            tm,
                                            group@[j].0,
                                            #[trigger] group@[j].1@,
                                            w.type_str@,
                                            resource_data(w.data@),
                                        ) by {
                                            assert(cur[addr@] == group_view(group@));
                                            assert(cur[addr@][j] == (group@[j].0, group@[j].1@));
                                            assert(am0[addr@][j].0 == cur[addr@][j].0);
                                            assert(am0[addr@][j].1.marketplace == cur[addr@][j].1.marketplace);
                                            assert(activity_paths_evaluable(
                                                tm,
                                                am0[addr@][j].0,
                                                am0[addr@][j].1,
                                                w.type_str@,
                                                resource_data(w.data@),
                                            ));
                                        }
                                    }
                                    let data = match parse_json(w.data.as_str()) {
                                        Some(d) => d,
                                        None => JsonValue::Null,
                                    };
                                    let ghost g_before = group_view(group@);
                                    self.update_group(&mut group, w.type_str.as_str(), &data);
                                    let ghost m1 = *activity_map;
                                    activity_map.set_at(p, group);
                                    proof {
                                        let upd = updated_group(tm, cur[addr@], w.type_str@, resource_data(w.data@));
                                        assert(g_before == cur[addr@]);
                                        assert(activity_map_view(*activity_map) =~= cur.insert(addr@, upd));
                                        assert(activity_map_view(*activity_map).dom() =~= am0.dom());
                                        assert forall|k: Seq<char>| #[trigger] am0.contains_key(k) implies activity_map_view(
                                            *activity_map,
                                        )[k].len() == am0[k].len() by {
                                        }
                                        assert forall|k: Seq<char>, j: int|
                                            am0.contains_key(k) && 0 <= j < am0[k].len() implies (#[trigger] activity_map_view(
                                                *activity_map,
                                            )[k][j]).0 == am0[k][j].0 && activity_map_view(*activity_map)[k][j].1.marketplace
                                                == am0[k][j].1.marketplace by {
                                            if k == addr@ {
                                                lemma_columns_keep_marketplace_updated(tm, cur[k][j].0, cur[k][j].1, w.type_str@, resource_data(w.data@));
                                            }
                                        }
                                    }
                                },
                                None => {
                                    assert(!cur.contains_key(addr@));
                                },
                            }
                        },
                        _ => {},
                    }
                    i = i + 1;
                }
                assert(changes.take(i as int) =~= changes);
                Ok(())
            },
            TxnData::Other => Ok(()),
        }
    }
}

/// Updating an activity for a written resource leaves its marketplace alone.
proof fn lemma_columns_keep_marketplace_updated(
    tm: TableMappingsView,
    et: MarketplaceEventType,
    a: NftMarketplaceActivityView,
    rtype: Seq<char>,
    data: JsonData,
)
    ensures
        resource_updated_activity(tm, et, a, rtype, data).marketplace == a.marketplace,
{
    if tm.contains_key(a.marketplace) && tm[a.marketplace].contains_key(table_of_event_type(et)) {
        lemma_columns_keep_marketplace(a, et, rtype, data, tm[a.marketplace][table_of_event_type(et)]);
    }
}

} // verus!
