//! Remapping of marketplace events: each event of a configured type becomes
//! an activity and a current listing or offer, filled column by column from
//! JSON paths into the event data.
use crate::config::marketplace_config::{
    event_type_text, parse_event_type, DbColumn, EventRemapping, EventType, EventTypeView,
    MarketplaceEventType, NFTMarketplaceConfig,
};
use crate::error::{IndexerError, IndexerErrorView};
use crate::json::{json_path_first, json_path_parses, json_text, JsonData, JsonValue};
use crate::path_syntax::path_evaluable;
use crate::models::nft_models::{
    CurrentNFTMarketplaceCollectionOffer, CurrentNFTMarketplaceCollectionOfferView,
    CurrentNFTMarketplaceListing, CurrentNFTMarketplaceListingView,
    CurrentNFTMarketplaceTokenOffer, CurrentNFTMarketplaceTokenOfferView, MarketplaceModel,
    NftMarketplaceActivity, NftMarketplaceActivityView,
};
use crate::models::transaction::{Transaction, TxnData};
use crate::models::{event_json, event_models_of, Event, EventModel, EventModelView};
use crate::steps::HashableJsonPath;
use crate::str_map::{assoc_get, assoc_insert, assoc_pos, lemma_assoc_pos, StrMap};
use crate::convert::{standardize_address, standardized};
use crate::models::nft_models::opt_view;
use crate::text::{concat_str, nat_to_decimal, str_eq, u64_to_string};
use crate::utils::{block_time_of, parse_timestamp, timestamp_parses, try_parse_timestamp, BlockTimestamp};
use sha3::Digest;
use vstd::prelude::*;

verus! {

/// A column as its table and column names.
pub open spec fn db_col(d: DbColumn) -> (Seq<char>, Seq<char>) {
    (d.table@, d.column@)
}

/// JSON paths of an event with the columns each fills.
pub open spec fn fields_view(r: EventRemapping) -> Seq<(Seq<char>, Seq<(Seq<char>, Seq<char>)>)> {
    Seq::new(
        r.event_fields.key_seq().len(),
        |j: int|
            (
                r.event_fields.key_seq()[j],
                r.event_fields.val_seq()[j]@.map_values(|d: DbColumn| db_col(d)),
            ),
    )
}

/// The remappings a configuration gives, event type by event type in the
/// order of the configuration (a later entry for the same type replaces an
/// earlier one); the first event type that does not parse, or JSON path
/// that does not, is the error.
pub open spec fn build_remappings(keys: Seq<Seq<char>>, vals: Seq<EventRemapping>) -> Result<
    Seq<(EventTypeView, Seq<(Seq<char>, Seq<(Seq<char>, Seq<char>)>)>)>,
    IndexerErrorView,
>
    decreases keys.len(),
{
    if keys.len() == 0 || vals.len() == 0 {
        Ok(Seq::empty())
    } else {
        match build_remappings(keys.drop_last(), vals.drop_last()) {
            Err(e) => Err(e),
            Ok(prev) => match parse_event_type(keys.last()) {
                None => Err(IndexerErrorView::UnsupportedEventType(keys.last())),
                Some(t) => match first_bad_path(fields_view(vals.last())) {
                    Some(p) => Err(IndexerErrorView::InvalidJsonPath(p)),
                    None => Ok(assoc_insert(prev, t, fields_view(vals.last()))),
                },
            },
        }
    }
}

/// The first JSON path of `fields` that does not parse.
pub open spec fn first_bad_path(fields: Seq<(Seq<char>, Seq<(Seq<char>, Seq<char>)>)>) -> Option<Seq<char>>
    decreases fields.len(),
{
    if fields.len() == 0 {
        None
    } else if !json_path_parses(fields[0].0) {
        Some(fields[0].0)
    } else {
        first_bad_path(fields.drop_first())
    }
}

/// The kind of current row an event makes.
#[derive(Clone, Copy)]
pub enum SecondaryKind {
    Listing,
    TokenOffer,
    CollectionOffer,
}

/// The kind of current row of an event struct; `None` for a struct that is
/// not a marketplace event.
pub open spec fn secondary_kind(struct_name: Seq<char>) -> Option<SecondaryKind> {
    if struct_name == "ListingPlacedEvent"@ || struct_name == "ListingCanceledEvent"@ || struct_name
        == "ListingFilledEvent"@ {
        Some(SecondaryKind::Listing)
    } else if struct_name == "TokenOfferPlacedEvent"@ || struct_name == "TokenOfferCanceledEvent"@
        || struct_name == "TokenOfferFilledEvent"@ {
        Some(SecondaryKind::TokenOffer)
    } else if struct_name == "CollectionOfferPlacedEvent"@ || struct_name
        == "CollectionOfferCanceledEvent"@ || struct_name == "CollectionOfferFilledEvent"@ {
        Some(SecondaryKind::CollectionOffer)
    } else {
        None
    }
}

/// The standard event type an activity of each kind is recorded with.
pub open spec fn standard_type_of(kind: SecondaryKind) -> MarketplaceEventType {
    match kind {
        SecondaryKind::Listing => MarketplaceEventType::PlaceListing,
        SecondaryKind::TokenOffer => MarketplaceEventType::PlaceTokenOffer,
        SecondaryKind::CollectionOffer => MarketplaceEventType::PlaceCollectionOffer,
    }
}

/// The activity of event `m` of marketplace `name` before any column is
/// filled.
pub open spec fn initial_activity(
    name: Seq<char>,
    m: EventModelView,
    ts: BlockTimestamp,
    kind: SecondaryKind,
) -> NftMarketplaceActivityView {
    NftMarketplaceActivityView {
        txn_version: m.transaction_version,
        index: m.event_index,
        listing_id: None,
        offer_id: None,
        raw_event_type: event_type_text(m.event_type),
        standard_event_type: standard_type_of(kind),
        creator_address: None,
        collection_id: None,
        collection_name: None,
        token_data_id: None,
        token_name: None,
        price: 0,
        token_amount: None,
        buyer: None,
        seller: None,
        expiration_time: None,
        json_data: event_json(m),
        marketplace: name,
        contract_address: m.account_address,
        block_timestamp: ts,
    }
}

/// The plain content of a `SecondaryModel`.
pub enum SecondaryView {
    Listing(CurrentNFTMarketplaceListingView),
    TokenOffer(CurrentNFTMarketplaceTokenOfferView),
    CollectionOffer(CurrentNFTMarketplaceCollectionOfferView),
}

/// The current row of event `m` of marketplace `name` before any column is
/// filled.
pub open spec fn initial_secondary(name: Seq<char>, m: EventModelView, kind: SecondaryKind) -> SecondaryView {
    match kind {
        SecondaryKind::Listing => SecondaryView::Listing(
            CurrentNFTMarketplaceListingView {
                token_data_id: Seq::empty(),
                listing_id: None,
                collection_id: None,
                seller: Seq::empty(),
                price: 0,
                token_amount: 0,
                is_deleted: false,
                marketplace: name,
                contract_address: m.account_address,
                last_transaction_version: m.transaction_version,
                last_transaction_timestamp: m.block_timestamp,
            },
        ),
        SecondaryKind::TokenOffer => SecondaryView::TokenOffer(
            CurrentNFTMarketplaceTokenOfferView {
                token_data_id: Seq::empty(),
                offer_id: None,
                buyer: Seq::empty(),
                collection_id: Seq::empty(),
                price: 0,
                token_amount: Some(0),
                token_name: None,
                is_deleted: false,
                marketplace: name,
                contract_address: m.account_address,
                last_transaction_version: m.transaction_version,
                last_transaction_timestamp: m.block_timestamp,
            },
        ),
        SecondaryKind::CollectionOffer => SecondaryView::CollectionOffer(
            CurrentNFTMarketplaceCollectionOfferView {
                collection_offer_id: Seq::empty(),
                collection_id: Seq::empty(),
                token_data_id: None,
                buyer: Seq::empty(),
                price: 0,
                remaining_token_amount: None,
                is_deleted: false,
                marketplace: name,
                contract_address: m.account_address,
                last_transaction_version: m.transaction_version,
                last_transaction_timestamp: m.block_timestamp,
            },
        ),
    }
}

/// A current row after `set_field(column, value)`.
pub open spec fn secondary_with_column(s: SecondaryView, column: Seq<char>, value: Seq<char>) -> SecondaryView {
    match s {
        SecondaryView::Listing(l) => SecondaryView::Listing(
            CurrentNFTMarketplaceListing::with_column(l, column, value),
        ),
        SecondaryView::TokenOffer(t) => SecondaryView::TokenOffer(
            CurrentNFTMarketplaceTokenOffer::with_column(t, column, value),
        ),
        SecondaryView::CollectionOffer(c) => SecondaryView::CollectionOffer(
            CurrentNFTMarketplaceCollectionOffer::with_column(c, column, value),
        ),
    }
}

/// Whether a current row may be written.
pub open spec fn secondary_valid(s: SecondaryView) -> bool {
    match s {
        SecondaryView::Listing(l) => CurrentNFTMarketplaceListing::row_valid(l),
        SecondaryView::TokenOffer(t) => CurrentNFTMarketplaceTokenOffer::row_valid(t),
        SecondaryView::CollectionOffer(c) => CurrentNFTMarketplaceCollectionOffer::row_valid(c),
    }
}

/// The marketplace tables.
#[derive(Debug, PartialEq, Eq)]
pub enum TableType {
    Activities,
    Listings,
    TokenOffers,
    CollectionOffers,
}

/// The table named `name`, if it is a marketplace table.
pub open spec fn table_type(name: Seq<char>) -> Option<TableType> {
    if name == "nft_marketplace_activities"@ {
        Some(TableType::Activities)
    } else if name == "current_nft_marketplace_listings"@ {
        Some(TableType::Listings)
    } else if name == "current_nft_marketplace_token_offers"@ {
        Some(TableType::TokenOffers)
    } else if name == "current_nft_marketplace_collection_offers"@ {
        Some(TableType::CollectionOffers)
    } else {
        None
    }
}

impl TableType {
    /// The table named `table_name`, if it is a marketplace table.
    pub fn from_str(table_name: &str) -> (r: Option<TableType>)
        ensures
            r == table_type(table_name@),
    {
        if str_eq(table_name, "nft_marketplace_activities") {
            Some(TableType::Activities)
        } else if str_eq(table_name, "current_nft_marketplace_listings") {
            Some(TableType::Listings)
        } else if str_eq(table_name, "current_nft_marketplace_token_offers") {
            Some(TableType::TokenOffers)
        } else if str_eq(table_name, "current_nft_marketplace_collection_offers") {
            Some(TableType::CollectionOffers)
        } else {
            None
        }
    }
}

/// The text a JSON path gives a column: the string it finds, else the
/// unsigned integer it finds, else empty; `None` when it finds nothing.
pub open spec fn extracted_text(path: Seq<char>, data: JsonData) -> Option<Seq<char>> {
    match json_path_first(path, json_text(data)) {
        None => None,
        Some(found) => Some(
            match found.str_value {
                Some(s) => s,
                None => match found.u64_value {
                    Some(u) => nat_to_decimal(u as nat),
                    None => Seq::empty(),
                },
            },
        ),
    }
}

/// The activity and current row after the value of `path` in `data` is
/// written to each of `columns` in turn.
pub open spec fn apply_columns(
    a: NftMarketplaceActivityView,
    s: SecondaryView,
    path: Seq<char>,
    data: JsonData,
    columns: Seq<(Seq<char>, Seq<char>)>,
) -> Result<(NftMarketplaceActivityView, SecondaryView), IndexerErrorView>
    decreases columns.len(),
{
    if columns.len() == 0 {
        Ok((a, s))
    } else {
        match apply_columns(a, s, path, data, columns.drop_last()) {
            Err(e) => Err(e),
            Ok(prev) => if !path_evaluable(path) {
                Err(IndexerErrorView::UnevaluableJsonPath(path))
            } else { match extracted_text(path, data) {
                None => Err(IndexerErrorView::NoJsonPathMatch(json_text(data))),
                Some(value) => match table_type(columns.last().0) {
                    None => Err(IndexerErrorView::UnknownTable(columns.last().0)),
                    Some(TableType::Activities) => Ok(
                        (
                            NftMarketplaceActivity::with_column(prev.0, columns.last().1, value),
                            prev.1,
                        ),
                    ),
                    Some(_) => Ok((prev.0, secondary_with_column(prev.1, columns.last().1, value))),
                },
            } },
        }
    }
}

/// The activity and current row after every remapping of `fields`, in
/// order.
pub open spec fn apply_fields(
    a: NftMarketplaceActivityView,
    s: SecondaryView,
    data: JsonData,
    fields: Seq<(Seq<char>, Seq<(Seq<char>, Seq<char>)>)>,
) -> Result<(NftMarketplaceActivityView, SecondaryView), IndexerErrorView>
    decreases fields.len(),
{
    if fields.len() == 0 {
        Ok((a, s))
    } else {
        match apply_fields(a, s, data, fields.drop_last()) {
            Err(e) => Err(e),
            Ok(prev) => apply_columns(prev.0, prev.1, fields.last().0, data, fields.last().1),
        }
    }
}

/// The rows remapped from the events of one transaction.
pub struct RemappedRows {
    pub activities: Seq<NftMarketplaceActivityView>,
    pub listings: Seq<CurrentNFTMarketplaceListingView>,
    pub token_offers: Seq<CurrentNFTMarketplaceTokenOfferView>,
    pub collection_offers: Seq<CurrentNFTMarketplaceCollectionOfferView>,
}

/// `rows` with a remapped activity and its current row added; the current
/// row only when it may be written.
pub open spec fn add_remapped(rows: RemappedRows, a: NftMarketplaceActivityView, s: SecondaryView) -> RemappedRows {
    let with_activity = RemappedRows { activities: rows.activities.push(a), ..rows };
    if !secondary_valid(s) {
        with_activity
    } else {
        match s {
            SecondaryView::Listing(l) => RemappedRows {
                listings: rows.listings.push(l),
                ..with_activity
            },
            SecondaryView::TokenOffer(t) => RemappedRows {
                token_offers: rows.token_offers.push(t),
                ..with_activity
            },
            SecondaryView::CollectionOffer(c) => RemappedRows {
                collection_offers: rows.collection_offers.push(c),
                ..with_activity
            },
        }
    }
}

/// What remapping the event models `models` of marketplace `name` with
/// `remappings` gives: an event of a type without remappings, or whose
/// struct is not a marketplace event, is skipped; the first failure of a
/// path or table is the error.
pub open spec fn remap_models(
    remappings: Seq<(EventTypeView, Seq<(Seq<char>, Seq<(Seq<char>, Seq<char>)>)>)>,
    name: Seq<char>,
    ts: BlockTimestamp,
    models: Seq<EventModelView>,
) -> Result<RemappedRows, IndexerErrorView>
    decreases models.len(),
{
    if models.len() == 0 {
        Ok(
            RemappedRows {
                activities: Seq::empty(),
                listings: Seq::empty(),
                token_offers: Seq::empty(),
                collection_offers: Seq::empty(),
            },
        )
    } else {
        let prev = remap_models(remappings, name, ts, models.drop_last());
        let m = models.last();
        match prev {
            Err(e) => Err(e),
            Ok(rows) => match assoc_get(remappings, m.event_type) {
                None => Ok(rows),
                Some(fields) => match secondary_kind(m.event_type.struct_name) {
                    None => Ok(rows),
                    Some(kind) => match apply_fields(
                        initial_activity(name, m, ts, kind),
                        initial_secondary(name, m, kind),
                        m.data,
                        fields,
                    ) {
                        Err(e) => Err(e),
                        Ok(done) => Ok(add_remapped(rows, done.0, done.1)),
                    },
                },
            },
        }
    }
}

/// Once writing a prefix of the columns fails, writing all of them fails
/// the same way.
pub proof fn lemma_columns_error_persists(
    a: NftMarketplaceActivityView,
    s: SecondaryView,
    path: Seq<char>,
    data: JsonData,
    columns: Seq<(Seq<char>, Seq<char>)>,
    k: int,
)
    requires
        0 <= k <= columns.len(),
        apply_columns(a, s, path, data, columns.take(k)) is Err,
    ensures
        apply_columns(a, s, path, data, columns) == apply_columns(a, s, path, data, columns.take(k)),
    decreases columns.len() - k,
{
    if k == columns.len() {
        assert(columns.take(k) =~= columns);
    } else {
        assert(columns.take(k + 1).drop_last() =~= columns.take(k));
        lemma_columns_error_persists(a, s, path, data, columns, k + 1);
    }
}

/// Once applying a prefix of the remappings fails, applying all of them
/// fails the same way.
pub proof fn lemma_fields_error_persists(
    a: NftMarketplaceActivityView,
    s: SecondaryView,
    data: JsonData,
    fields: Seq<(Seq<char>, Seq<(Seq<char>, Seq<char>)>)>,
    k: int,
)
    requires
        0 <= k <= fields.len(),
        apply_fields(a, s, data, fields.take(k)) is Err,
    ensures
        apply_fields(a, s, data, fields) == apply_fields(a, s, data, fields.take(k)),
    decreases fields.len() - k,
{
    if k == fields.len() {
        assert(fields.take(k) =~= fields);
    } else {
        assert(fields.take(k + 1).drop_last() =~= fields.take(k));
        lemma_fields_error_persists(a, s, data, fields, k + 1);
    }
}

/// The events of a transaction: those of a user transaction, else none.
pub open spec fn transaction_events(txn: Transaction) -> Seq<Event> {
    match txn.txn_data {
        Some(TxnData::User(u)) => u.events@,
        _ => Seq::empty(),
    }
}

/// What remapping a transaction gives: the remapping of the models of its
/// events (events that cannot be modelled are skipped).
pub open spec fn remap_transaction(
    remappings: Seq<(EventTypeView, Seq<(Seq<char>, Seq<(Seq<char>, Seq<char>)>)>)>,
    name: Seq<char>,
    txn: Transaction,
) -> Result<RemappedRows, IndexerErrorView> {
    remap_models(
        remappings,
        name,
        block_time_of(txn.timestamp.unwrap()),
        event_models_of(
            transaction_events(txn),
            txn.version as i64,
            txn.block_height as i64,
            block_time_of(txn.timestamp.unwrap()),
        ),
    )
}

/// Whether `txn` can be remapped: it has a timestamp that chrono accepts,
/// and no more events than an `i64` counts.
pub open spec fn remappable(txn: Transaction) -> bool {
    &&& txn.timestamp matches Some(ts) && timestamp_parses(ts)
    &&& transaction_events(txn).len() <= i64::MAX
}

/// Whether the remapper can read `txn`: its timestamp is there and chrono
/// accepts it, and its events can be numbered.
pub fn remappable_txn(txn: &Transaction) -> (r: bool)
    ensures
        r == remappable(*txn),
{
    let numbered = match &txn.txn_data {
        Some(TxnData::User(u)) => (u.events.len() as u64) <= (i64::MAX as u64),
        _ => true,
    };
    match &txn.timestamp {
        Some(ts) => numbered && try_parse_timestamp(ts).is_some(),
        None => false,
    }
}

/// A current row of one of the three kinds.
pub enum SecondaryModel {
    Listing(CurrentNFTMarketplaceListing),
    TokenOffer(CurrentNFTMarketplaceTokenOffer),
    CollectionOffer(CurrentNFTMarketplaceCollectionOffer),
}

impl View for SecondaryModel {
    type V = SecondaryView;

    open spec fn view(&self) -> SecondaryView {
        match self {
            SecondaryModel::Listing(l) => SecondaryView::Listing(l@),
            SecondaryModel::TokenOffer(t) => SecondaryView::TokenOffer(t@),
            SecondaryModel::CollectionOffer(c) => SecondaryView::CollectionOffer(c@),
        }
    }
}

impl SecondaryModel {
    /// Sets `column` of the row from `value`.
    pub fn set_field(&mut self, column: &str, value: String)
        ensures
            final(self)@ == secondary_with_column(old(self)@, column@, value@),
    {
        match self {
            SecondaryModel::Listing(l) => l.set_field(column, value),
            SecondaryModel::TokenOffer(t) => t.set_field(column, value),
            SecondaryModel::CollectionOffer(c) => c.set_field(column, value),
        }
    }

    /// Whether the row may be written.
    pub fn is_valid(&self) -> (r: bool)
        ensures
            r == secondary_valid(self@),
    {
        match self {
            SecondaryModel::Listing(l) => l.is_valid(),
            SecondaryModel::TokenOffer(t) => t.is_valid(),
            SecondaryModel::CollectionOffer(c) => c.is_valid(),
        }
    }

    /// The table of the row.
    pub fn table_name(&self) -> (r: &'static str)
        ensures
            r@ == match self@ {
                SecondaryView::Listing(_) => CurrentNFTMarketplaceListing::row_table(),
                SecondaryView::TokenOffer(_) => CurrentNFTMarketplaceTokenOffer::row_table(),
                SecondaryView::CollectionOffer(_) => CurrentNFTMarketplaceCollectionOffer::row_table(),
            },
    {
        match self {
            SecondaryModel::Listing(l) => l.table_name(),
            SecondaryModel::TokenOffer(t) => t.table_name(),
            SecondaryModel::CollectionOffer(c) => c.table_name(),
        }
    }
}

/// The text a path gives a column, from what it found.
fn found_text(found: &crate::json::PathMatch) -> (r: String)
    ensures
        r@ == (match found@.str_value {
            Some(s) => s,
            None => match found@.u64_value {
                Some(u) => nat_to_decimal(u as nat),
                None => Seq::empty(),
            },
        }),
{
    match &found.str_value {
        Some(s) => s.clone(),
        None => match found.u64_value {
            Some(u) => u64_to_string(u),
            None => String::new(),
        },
    }
}

/// Writes the value of `path` in `data` to each of `columns` in turn.
fn apply_column_list(
    activity: &mut NftMarketplaceActivity,
    secondary: &mut SecondaryModel,
    path: &HashableJsonPath,
    data: &JsonValue,
    columns: &Vec<DbColumn>,
) -> (r: Result<(), IndexerError>)
    ensures
        r is Ok ==> apply_columns(
            old(activity)@,
            old(secondary)@,
            path.path(),
            data@,
            columns@.map_values(|d: DbColumn| db_col(d)),
        ) == Ok::<(NftMarketplaceActivityView, SecondaryView), IndexerErrorView>((final(activity)@, final(secondary)@)),
        r matches Err(e) ==> apply_columns(
            old(activity)@,
            old(secondary)@,
            path.path(),
            data@,
            columns@.map_values(|d: DbColumn| db_col(d)),
        ) == Err::<(NftMarketplaceActivityView, SecondaryView), IndexerErrorView>(e@),
{
    let ghost cols = columns@.map_values(|d: DbColumn| db_col(d));
    let mut i: usize = 0;
    assert(cols.take(0) =~= Seq::<(Seq<char>, Seq<char>)>::empty());
    while i < columns.len()
        invariant
            cols == columns@.map_values(|d: DbColumn| db_col(d)),
            i <= columns@.len(),
            apply_columns(old(activity)@, old(secondary)@, path.path(), data@, cols.take(i as int))
                == Ok::<(NftMarketplaceActivityView, SecondaryView), IndexerErrorView>((activity@, secondary@)),
        decreases columns@.len() - i,
    {
        proof {
            assert(cols.take(i + 1).drop_last() =~= cols.take(i as int));
            assert(cols.take(i + 1).last() == db_col(columns@[i as int]));
        }
        let found = match path.extract_from(data) {
            Ok(f) => f,
            Err(e) => {
                proof {
                    lemma_columns_error_persists(old(activity)@, old(secondary)@, path.path(), data@, cols, i + 1);
                }
                return Err(e);
            },
        };
        let value = found_text(&found);
        let column = &columns[i];
        match TableType::from_str(column.table.as_str()) {
            Some(TableType::Activities) => {
                activity.set_field(column.column.as_str(), value);
            },
            Some(_) => {
                secondary.set_field(column.column.as_str(), value);
            },
            None => {
                proof {
                    lemma_columns_error_persists(old(activity)@, old(secondary)@, path.path(), data@, cols, i + 1);
                }
                return Err(IndexerError::UnknownTable(column.table.clone()));
            },
        }
        i = i + 1;
    }
    assert(cols.take(columns@.len() as int) =~= cols);
    Ok(())
}

/// The remappings of an event as plain values.
pub open spec fn remapping_fields_view(fields: Seq<(HashableJsonPath, Vec<DbColumn>)>) -> Seq<
    (Seq<char>, Seq<(Seq<char>, Seq<char>)>),
> {
    fields.map_values(
        |f: (HashableJsonPath, Vec<DbColumn>)|
            (f.0.path(), f.1@.map_values(|d: DbColumn| db_col(d))),
    )
}

/// Applies every remapping of `fields` in turn.
fn apply_field_list(
    activity: &mut NftMarketplaceActivity,
    secondary: &mut SecondaryModel,
    data: &JsonValue,
    fields: &Vec<(HashableJsonPath, Vec<DbColumn>)>,
) -> (r: Result<(), IndexerError>)
    ensures
        r is Ok ==> apply_fields(old(activity)@, old(secondary)@, data@, remapping_fields_view(fields@))
            == Ok::<(NftMarketplaceActivityView, SecondaryView), IndexerErrorView>((final(activity)@, final(secondary)@)),
        r matches Err(e) ==> apply_fields(
            old(activity)@,
            old(secondary)@,
            data@,
            remapping_fields_view(fields@),
        ) == Err::<(NftMarketplaceActivityView, SecondaryView), IndexerErrorView>(e@),
{
    let ghost fv = remapping_fields_view(fields@);
    let mut i: usize = 0;
    assert(fv.take(0) =~= Seq::<(Seq<char>, Seq<(Seq<char>, Seq<char>)>)>::empty());
    while i < fields.len()
        invariant
            fv == remapping_fields_view(fields@),
            i <= fields@.len(),
            apply_fields(old(activity)@, old(secondary)@, data@, fv.take(i as int))
                == Ok::<(NftMarketplaceActivityView, SecondaryView), IndexerErrorView>((activity@, secondary@)),
        decreases fields@.len() - i,
    {
        proof {
            assert(fv.take(i + 1).drop_last() =~= fv.take(i as int));
            assert(fv.take(i + 1).last() == fv[i as int]);
        }
        let r = apply_column_list(activity, secondary, &fields[i].0, data, &fields[i].1);
        if let Err(e) = r {
            proof {
                lemma_fields_error_persists(old(activity)@, old(secondary)@, data@, fv, i + 1);
            }
            return Err(e);
        }
        i = i + 1;
    }
    assert(fv.take(fields@.len() as int) =~= fv);
    Ok(())
}

/// Once remapping a prefix of the models fails, remapping all of them fails
/// the same way.
pub proof fn lemma_remap_error_persists(
    remappings: Seq<(EventTypeView, Seq<(Seq<char>, Seq<(Seq<char>, Seq<char>)>)>)>,
    name: Seq<char>,
    ts: BlockTimestamp,
    models: Seq<EventModelView>,
    k: int,
)
    requires
        0 <= k <= models.len(),
        remap_models(remappings, name, ts, models.take(k)) is Err,
    ensures
        remap_models(remappings, name, ts, models) == remap_models(remappings, name, ts, models.take(k)),
    decreases models.len() - k,
{
    if k == models.len() {
        assert(models.take(k) =~= models);
    } else {
        assert(models.take(k + 1).drop_last() =~= models.take(k));
        lemma_remap_error_persists(remappings, name, ts, models, k + 1);
    }
}

/// Once building the remappings of a prefix of the configuration fails,
/// building all of them fails the same way.
pub proof fn lemma_build_error_persists(keys: Seq<Seq<char>>, vals: Seq<EventRemapping>, k: int)
    requires
        keys.len() == vals.len(),
        0 <= k <= keys.len(),
        build_remappings(keys.take(k), vals.take(k)) is Err,
    ensures
        build_remappings(keys, vals) == build_remappings(keys.take(k), vals.take(k)),
    decreases keys.len() - k,
{
    if k == keys.len() {
        assert(keys.take(k) =~= keys);
        assert(vals.take(k) =~= vals);
    } else {
        assert(keys.take(k + 1).drop_last() =~= keys.take(k));
        assert(vals.take(k + 1).drop_last() =~= vals.take(k));
        lemma_build_error_persists(keys, vals, k + 1);
    }
}

/// The kind of current row of an event struct.
fn secondary_kind_of(struct_name: &str) -> (r: Option<SecondaryKind>)
    ensures
        r == secondary_kind(struct_name@),
{
    if str_eq(struct_name, "ListingPlacedEvent") || str_eq(struct_name, "ListingCanceledEvent")
        || str_eq(struct_name, "ListingFilledEvent") {
        Some(SecondaryKind::Listing)
    } else if str_eq(struct_name, "TokenOfferPlacedEvent") || str_eq(
        struct_name,
        "TokenOfferCanceledEvent",
    ) || str_eq(struct_name, "TokenOfferFilledEvent") {
        Some(SecondaryKind::TokenOffer)
    } else if str_eq(struct_name, "CollectionOfferPlacedEvent") || str_eq(
        struct_name,
        "CollectionOfferCanceledEvent",
    ) || str_eq(struct_name, "CollectionOfferFilledEvent") {
        Some(SecondaryKind::CollectionOffer)
    } else {
        None
    }
}

/// The activity and the current row of an event before any column is
/// filled.
fn initial_rows(name: &String, event: &EventModel, ts: BlockTimestamp, kind: SecondaryKind) -> (r: (
    NftMarketplaceActivity,
    SecondaryModel,
))
    ensures
        r.0@ == initial_activity(name@, event@, ts, kind),
        r.1@ == initial_secondary(name@, event@, kind),
{
    let standard_event_type = match kind {
        SecondaryKind::Listing => MarketplaceEventType::PlaceListing,
        SecondaryKind::TokenOffer => MarketplaceEventType::PlaceTokenOffer,
        SecondaryKind::CollectionOffer => MarketplaceEventType::PlaceCollectionOffer,
    };
    let activity = NftMarketplaceActivity {
        txn_version: event.transaction_version,
        index: event.event_index,
        listing_id: None,
        offer_id: None,
        raw_event_type: event.event_type.to_string(),
        standard_event_type,
        creator_address: None,
        collection_id: None,
        collection_name: None,
        token_data_id: None,
        token_name: None,
        price: 0,
        token_amount: None,
        buyer: None,
        seller: None,
        expiration_time: None,
        json_data: event.to_json_value(),
        marketplace: name.clone(),
        contract_address: event.account_address.clone(),
        block_timestamp: ts,
    };
    let secondary = match kind {
        SecondaryKind::Listing => SecondaryModel::Listing(
            CurrentNFTMarketplaceListing::build_default(name.clone(), event, false),
        ),
        SecondaryKind::TokenOffer => SecondaryModel::TokenOffer(
            CurrentNFTMarketplaceTokenOffer::build_default(name.clone(), event, false),
        ),
        SecondaryKind::CollectionOffer => SecondaryModel::CollectionOffer(
            CurrentNFTMarketplaceCollectionOffer::build_default(name.clone(), event, false),
        ),
    };
    (activity, secondary)
}

/// Copies of the columns of a remapping.
fn copy_columns(columns: &Vec<DbColumn>) -> (r: Vec<DbColumn>)
    ensures
        r@.map_values(|d: DbColumn| db_col(d)) == columns@.map_values(|d: DbColumn| db_col(d)),
{
    let mut out: Vec<DbColumn> = Vec::new();
    let mut i: usize = 0;
    while i < columns.len()
        invariant
            i <= columns@.len(),
            out@.len() == i,
            forall|k: int| 0 <= k < i ==> db_col(#[trigger] out@[k]) == db_col(columns@[k]),
        decreases columns@.len() - i,
    {
        out.push(columns[i].copy());
        i = i + 1;
    }
    assert(out@.map_values(|d: DbColumn| db_col(d)) =~= columns@.map_values(|d: DbColumn| db_col(d)));
    out
}

/// The first bad path of a prefix of good paths followed by a bad one is
/// that one; of good paths only, there is none.
pub proof fn lemma_first_bad_path(fields: Seq<(Seq<char>, Seq<(Seq<char>, Seq<char>)>)>, j: int)
    requires
        0 <= j <= fields.len(),
        forall|k: int| 0 <= k < j ==> json_path_parses(#[trigger] fields[k].0),
    ensures
        j == fields.len() ==> first_bad_path(fields) is None,
        j < fields.len() && !json_path_parses(fields[j].0) ==> first_bad_path(fields) == Some(
            fields[j].0,
        ),
    decreases j,
{
    if j > 0 {
        let rest = fields.drop_first();
        assert forall|k: int| 0 <= k < j - 1 implies json_path_parses(#[trigger] rest[k].0) by {
            assert(rest[k] == fields[k + 1]);
        }
        lemma_first_bad_path(rest, j - 1);
        assert(json_path_parses(fields[0].0));
        if j < fields.len() {
            assert(rest[j - 1] == fields[j]);
        }
    } else if fields.len() > 0 {
    }
}

/// Remaps the events of one marketplace: per event type, the JSON paths
/// into the event data and the columns their values go to.
pub struct EventRemapper {
    field_remappings: Vec<(EventType, Vec<(HashableJsonPath, Vec<DbColumn>)>)>,
    marketplace_name: String,
}

impl EventRemapper {
    /// The remappings, event type by event type.
    pub closed spec fn remappings(&self) -> Seq<(EventTypeView, Seq<(Seq<char>, Seq<(Seq<char>, Seq<char>)>)>)> {
        self.field_remappings@.map_values(
            |e: (EventType, Vec<(HashableJsonPath, Vec<DbColumn>)>)|
                (e.0@, remapping_fields_view(e.1@)),
        )
    }

    /// The marketplace name.
    pub closed spec fn name(&self) -> Seq<char> {
        self.marketplace_name@
    }

    /// The remapper of marketplace `config`: each configured event type is
    /// parsed and each of its JSON paths checked; the first that fails is
    /// the error.
    pub fn new(config: &NFTMarketplaceConfig) -> (r: Result<EventRemapper, IndexerError>)
        requires
            config.wf(),
        ensures
            r matches Ok(m) ==> m.name() == config.name@ && build_remappings(
                config.events.key_seq(),
                config.events.val_seq(),
            ) == Ok::<Seq<(EventTypeView, Seq<(Seq<char>, Seq<(Seq<char>, Seq<char>)>)>)>, IndexerErrorView>(m.remappings()),
            r matches Err(e) ==> build_remappings(config.events.key_seq(), config.events.val_seq())
                == Err::<Seq<(EventTypeView, Seq<(Seq<char>, Seq<(Seq<char>, Seq<char>)>)>)>, IndexerErrorView>(e@),
    {
        let ghost keys = config.events.key_seq();
        let ghost vals = config.events.val_seq();
        proof {
            config.events.lemma_wf_facts();
        }
        let n = config.events.len();
        let mut remapper = EventRemapper { field_remappings: Vec::new(), marketplace_name: config.name.clone() };
        let mut i: usize = 0;
        assert(keys.take(0) =~= Seq::<Seq<char>>::empty());
        assert(remapper.remappings() =~= Seq::<(EventTypeView, Seq<(Seq<char>, Seq<(Seq<char>, Seq<char>)>)>)>::empty());
        while i < n
            invariant
                config.wf(),
                keys == config.events.key_seq(),
                vals == config.events.val_seq(),
                keys.len() == vals.len(),
                n == keys.len(),
                i <= n,
                remapper.name() == config.name@,
                build_remappings(keys.take(i as int), vals.take(i as int)) == Ok::<
                    Seq<(EventTypeView, Seq<(Seq<char>, Seq<(Seq<char>, Seq<char>)>)>)>,
                    IndexerErrorView,
                >(remapper.remappings()),
            decreases n - i,
        {
            proof {
                assert(keys.take(i + 1).drop_last() =~= keys.take(i as int));
                assert(vals.take(i + 1).drop_last() =~= vals.take(i as int));
                assert(keys.take(i + 1).last() == keys[i as int]);
                assert(vals.take(i + 1).last() == vals[i as int]);
            }
            let key = config.events.key_at(i);
            let remapping = config.events.value_at(i);
            let event_type = match EventType::try_from(key.as_str()) {
                Ok(t) => t,
                Err(e) => {
                    proof {
                        lemma_build_error_persists(keys, vals, i + 1);
                    }
                    return Err(e);
                },
            };
            let fields_map = &remapping.event_fields;
            let ghost fv = fields_view(*remapping);
            proof {
                fields_map.lemma_wf_facts();
            }
            let mut fields: Vec<(HashableJsonPath, Vec<DbColumn>)> = Vec::new();
            let mut j: usize = 0;
            while j < fields_map.len()
                invariant
                    fields_map.wf(),
                    *fields_map == remapping.event_fields,
                    fv == fields_view(*remapping),
                    keys == config.events.key_seq(),
                    vals == config.events.val_seq(),
                    i < n,
                    n == keys.len(),
                    keys.len() == vals.len(),
                    *remapping == vals[i as int],
                    parse_event_type(keys[i as int]) is Some,
                    build_remappings(keys.take(i as int), vals.take(i as int)) is Ok,
                    keys.take(i + 1).drop_last() == keys.take(i as int),
                    vals.take(i + 1).drop_last() == vals.take(i as int),
                    keys.take(i + 1).last() == keys[i as int],
                    vals.take(i + 1).last() == vals[i as int],
                    fv.len() == fields_map.key_seq().len(),
                    j <= fv.len(),
                    forall|k: int| 0 <= k < j ==> json_path_parses(#[trigger] fv[k].0),
                    remapping_fields_view(fields@) == fv.take(j as int),
                    fields@.len() == j,
                decreases fv.len() - j,
            {
                let path_text = fields_map.key_at(j);
                let path = match HashableJsonPath::new(path_text.as_str()) {
                    Ok(p) => p,
                    Err(e) => {
                        proof {
                            assert(fv[j as int].0 == path_text@);
                            lemma_first_bad_path(fv, j as int);
                            assert(build_remappings(keys.take(i + 1), vals.take(i + 1)) is Err);
                            lemma_build_error_persists(keys, vals, i + 1);
                        }
                        return Err(e);
                    },
                };
                let columns = copy_columns(fields_map.value_at(j));
                let ghost prev = fields@;
                proof {
                    assert(fv[j as int] == (path.path(), columns@.map_values(|d: DbColumn| db_col(d))));
                }
                fields.push((path, columns));
                proof {
                    assert(remapping_fields_view(fields@) =~= remapping_fields_view(prev).push(fv[j as int]));
                    assert(fv.take(j + 1) =~= fv.take(j as int).push(fv[j as int]));
                }
                j = j + 1;
            }
            proof {
                lemma_first_bad_path(fv, fv.len() as int);
                assert(fv.take(fv.len() as int) =~= fv);
            }
            remapper.insert_remapping(event_type, fields);
            i = i + 1;
        }
        assert(keys.take(n as int) =~= keys);
        assert(vals.take(n as int) =~= vals);
        Ok(remapper)
    }

    /// The position of the remappings of `event_type`, if it has any.
    fn find_remapping(&self, event_type: &EventType) -> (r: Option<usize>)
        ensures
            r matches Some(j) ==> j == assoc_pos(self.remappings(), event_type@) && j < self.remappings().len(),
            r is None ==> assoc_pos(self.remappings(), event_type@) == self.remappings().len(),
    {
        let ghost rm = self.remappings();
        proof {
            lemma_assoc_pos(rm, event_type@);
        }
        let mut j: usize = 0;
        while j < self.field_remappings.len()
            invariant
                rm == self.remappings(),
                j <= self.field_remappings@.len(),
                j <= assoc_pos(rm, event_type@),
                0 <= assoc_pos(rm, event_type@) <= rm.len(),
                assoc_pos(rm, event_type@) < rm.len() ==> rm[assoc_pos(rm, event_type@)].0 == event_type@,
                forall|k: int| 0 <= k < assoc_pos(rm, event_type@) ==> (#[trigger] rm[k]).0 != event_type@,
            decreases self.field_remappings@.len() - j,
        {
            assert(rm[j as int].0 == self.field_remappings@[j as int].0@);
            if self.field_remappings[j].0.equals(event_type) {
                proof {
                    if (j as int) < assoc_pos(rm, event_type@) {
                        assert(rm[j as int].0 != event_type@);
                    }
                }
                return Some(j);
            }
            j = j + 1;
        }
        None
    }

    /// Sets the remappings of `event_type`, replacing earlier ones.
    fn insert_remapping(&mut self, event_type: EventType, fields: Vec<(HashableJsonPath, Vec<DbColumn>)>)
        ensures
            final(self).name() == old(self).name(),
            final(self).remappings() == assoc_insert(
                old(self).remappings(),
                event_type@,
                remapping_fields_view(fields@),
            ),
    {
        let ghost t = event_type@;
        let ghost fv = remapping_fields_view(fields@);
        match self.find_remapping(&event_type) {
            Some(j) => {
                self.field_remappings.set(j, (event_type, fields));
                assert(self.remappings() =~= old(self).remappings().update(j as int, (t, fv)));
            },
            None => {
                self.field_remappings.push((event_type, fields));
                assert(self.remappings() =~= old(self).remappings().push((t, fv)));
            },
        }
    }

    /// The event models of a transaction; none when it has no data. Events
    /// that cannot be modelled are skipped, so the call does not fail.
    fn get_events(&self, transaction: &Transaction) -> (r: Result<Vec<EventModel>, IndexerError>)
        requires
            remappable(*transaction),
        ensures
            r matches Ok(v) ==> v@.map_values(|m: EventModel| m@) == event_models_of(
                transaction_events(*transaction),
                transaction.version as i64,
                transaction.block_height as i64,
                block_time_of(transaction.timestamp.unwrap()),
            ),
            r is Ok,
    {
        let txn_version = #[verifier::truncate] (transaction.version as i64);
        let block_height = #[verifier::truncate] (transaction.block_height as i64);
        let txn_data = match &transaction.txn_data {
            Some(data) => data,
            None => {
                let v: Vec<EventModel> = Vec::new();
                assert(v@.map_values(|m: EventModel| m@) =~= event_models_of(
                    transaction_events(*transaction),
                    txn_version,
                    block_height,
                    block_time_of(transaction.timestamp.unwrap()),
                ));
                return Ok(v);
            },
        };
        let ts = match &transaction.timestamp {
            Some(t) => t,
            None => {
                assert(false);
                return Err(IndexerError::MissingTimestamp);
            },
        };
        let txn_timestamp = parse_timestamp(ts, txn_version);
        let default: Vec<crate::models::Event> = Vec::new();
        let raw_events = match txn_data {
            TxnData::User(tx_inner) => &tx_inner.events,
            _ => &default,
        };
        assert(raw_events@ == transaction_events(*transaction));
        EventModel::from_events(raw_events, txn_version, block_height, txn_timestamp)
    }

    /// Remaps the events of a transaction into activities and current
    /// listings and offers. The transaction must carry a timestamp that
    /// chrono accepts.
    pub fn remap_events(&self, txn: Transaction) -> (r: Result<
        (
            Vec<NftMarketplaceActivity>,
            Vec<CurrentNFTMarketplaceListing>,
            Vec<CurrentNFTMarketplaceTokenOffer>,
            Vec<CurrentNFTMarketplaceCollectionOffer>,
        ),
        IndexerError,
    >)
        requires
            remappable(txn),
        ensures
            r matches Ok(v) ==> remap_transaction(self.remappings(), self.name(), txn) == Ok::<
                RemappedRows,
                IndexerErrorView,
            >(
                RemappedRows {
                    activities: v.0@.map_values(|a: NftMarketplaceActivity| a@),
                    listings: v.1@.map_values(|l: CurrentNFTMarketplaceListing| l@),
                    token_offers: v.2@.map_values(|t: CurrentNFTMarketplaceTokenOffer| t@),
                    collection_offers: v.3@.map_values(|c: CurrentNFTMarketplaceCollectionOffer| c@),
                },
            ),
            r matches Err(e) ==> remap_transaction(self.remappings(), self.name(), txn) == Err::<
                RemappedRows,
                IndexerErrorView,
            >(e@),
    {
        let ts = match &txn.timestamp {
            Some(t) => t,
            None => {
                assert(false);
                return Err(IndexerError::MissingTimestamp);
            },
        };
        let txn_timestamp = parse_timestamp(ts, #[verifier::truncate] (txn.version as i64));
        let events = match self.get_events(&txn) {
            Ok(v) => v,
            Err(e) => {
                assert(false);
                return Err(e);
            },
        };
        self.remap_event_models(&events, txn_timestamp)
    }

    /// Remaps event models of one transaction with block time `ts`.
    pub fn remap_event_models(&self, events: &Vec<EventModel>, ts: BlockTimestamp) -> (r: Result<
        (
            Vec<NftMarketplaceActivity>,
            Vec<CurrentNFTMarketplaceListing>,
            Vec<CurrentNFTMarketplaceTokenOffer>,
            Vec<CurrentNFTMarketplaceCollectionOffer>,
        ),
        IndexerError,
    >)
        ensures
            r matches Ok(v) ==> remap_models(
                self.remappings(),
                self.name(),
                ts,
                events@.map_values(|m: EventModel| m@),
            ) == Ok::<RemappedRows, IndexerErrorView>(
                RemappedRows {
                    activities: v.0@.map_values(|a: NftMarketplaceActivity| a@),
                    listings: v.1@.map_values(|l: CurrentNFTMarketplaceListing| l@),
                    token_offers: v.2@.map_values(|t: CurrentNFTMarketplaceTokenOffer| t@),
                    collection_offers: v.3@.map_values(|c: CurrentNFTMarketplaceCollectionOffer| c@),
                },
            ),
            r matches Err(e) ==> remap_models(
                self.remappings(),
                self.name(),
                ts,
                events@.map_values(|m: EventModel| m@),
            ) == Err::<RemappedRows, IndexerErrorView>(e@),
    {
        let ghost models = events@.map_values(|m: EventModel| m@);
        let mut activities: Vec<NftMarketplaceActivity> = Vec::new();
        let mut listings: Vec<CurrentNFTMarketplaceListing> = Vec::new();
        let mut token_offers: Vec<CurrentNFTMarketplaceTokenOffer> = Vec::new();
        let mut collection_offers: Vec<CurrentNFTMarketplaceCollectionOffer> = Vec::new();
        let mut i: usize = 0;
        assert(models.take(0) =~= Seq::<EventModelView>::empty());
        assert(activities@.map_values(|a: NftMarketplaceActivity| a@) =~= Seq::<NftMarketplaceActivityView>::empty());
        assert(listings@.map_values(|l: CurrentNFTMarketplaceListing| l@) =~= Seq::<CurrentNFTMarketplaceListingView>::empty());
        assert(token_offers@.map_values(|t: CurrentNFTMarketplaceTokenOffer| t@) =~= Seq::<CurrentNFTMarketplaceTokenOfferView>::empty());
        assert(collection_offers@.map_values(|c: CurrentNFTMarketplaceCollectionOffer| c@) =~= Seq::<CurrentNFTMarketplaceCollectionOfferView>::empty());
        while i < events.len()
            invariant
                models == events@.map_values(|m: EventModel| m@),
                i <= events@.len(),
                remap_models(self.remappings(), self.name(), ts, models.take(i as int)) == Ok::<RemappedRows, IndexerErrorView>(
                    RemappedRows {
                        activities: activities@.map_values(|a: NftMarketplaceActivity| a@),
                        listings: listings@.map_values(|l: CurrentNFTMarketplaceListing| l@),
                        token_offers: token_offers@.map_values(|t: CurrentNFTMarketplaceTokenOffer| t@),
                        collection_offers: collection_offers@.map_values(|c: CurrentNFTMarketplaceCollectionOffer| c@),
                    },
                ),
            decreases events@.len() - i,
        {
            let event = &events[i];
            proof {
                assert(models.take(i + 1).drop_last() =~= models.take(i as int));
                assert(models.take(i + 1).last() == event@);
            }
            if let Some(j) = self.find_remapping(&event.event_type) {
                if let Some(kind) = secondary_kind_of(event.event_type.get_struct()) {
                    let (mut activity, mut secondary) = initial_rows(&self.marketplace_name, event, ts, kind);
                    let fields = &self.field_remappings[j].1;
                    assert(self.remappings()[j as int].1 == remapping_fields_view(fields@));
                    match apply_field_list(&mut activity, &mut secondary, &event.data, fields) {
                        Ok(()) => {},
                        Err(e) => {
                            proof {
                                lemma_remap_error_persists(self.remappings(), self.name(), ts, models, i + 1);
                            }
                            return Err(e);
                        },
                    }
                    let ghost av = activity@;
                    let ghost sv = secondary@;
                    let ghost pa = activities@.map_values(|a: NftMarketplaceActivity| a@);
                    let ghost pl = listings@.map_values(|l: CurrentNFTMarketplaceListing| l@);
                    let ghost pt = token_offers@.map_values(|t: CurrentNFTMarketplaceTokenOffer| t@);
                    let ghost pc = collection_offers@.map_values(|c: CurrentNFTMarketplaceCollectionOffer| c@);
                    let ghost before = RemappedRows { activities: pa, listings: pl, token_offers: pt, collection_offers: pc };
                    let valid = secondary.is_valid();
                    activities.push(activity);
                    if valid {
                        match secondary {
                            SecondaryModel::Listing(l) => listings.push(l),
                            SecondaryModel::TokenOffer(t) => token_offers.push(t),
                            SecondaryModel::CollectionOffer(c) => collection_offers.push(c),
                        }
                    }
                    proof {
                        let after = add_remapped(before, av, sv);
                        assert(activities@.map_values(|a: NftMarketplaceActivity| a@) =~= after.activities);
                        assert(listings@.map_values(|l: CurrentNFTMarketplaceListing| l@) =~= after.listings);
                        assert(token_offers@.map_values(|t: CurrentNFTMarketplaceTokenOffer| t@) =~= after.token_offers);
                        assert(collection_offers@.map_values(|c: CurrentNFTMarketplaceCollectionOffer| c@) =~= after.collection_offers);
                    }
                }
            }
            i = i + 1;
        }
        assert(models.take(events@.len() as int) =~= models);
        Ok((activities, listings, token_offers, collection_offers))
    }
}


/// The SHA3-256 digest of the UTF-8 bytes of `text`.
pub uninterp spec fn sha3_256_digest(text: Seq<char>) -> Seq<u8>;

/// Hashes the UTF-8 bytes of `text` with `sha3::Sha3_256` (`Digest::digest`).
/// The contract names the digest and states its fixed 32-byte length; the
/// hash function itself is not stated.
#[verifier::external_body]
fn sha3_256(text: &str) -> (r: Vec<u8>)
    ensures
        r@ == sha3_256_digest(text@),
        r@.len() == 32,
{
    sha3::Sha3_256::digest(text.as_bytes()).to_vec()
}

/// The lowercase hex digit of a value below 16.
pub open spec fn hex_digit(n: int) -> char {
    if n < 10 {
        (48 + n) as char
    } else {
        (87 + n) as char
    }
}

/// Bytes in lowercase hex, two digits per byte, high digit first.
pub open spec fn hex_text(bytes: Seq<u8>) -> Seq<char>
    decreases bytes.len(),
{
    if bytes.len() == 0 {
        Seq::empty()
    } else {
        hex_text(bytes.drop_last()) + seq![hex_digit(bytes.last() as int / 16), hex_digit(bytes.last() as int % 16)]
    }
}

/// `hex::encode`: the bytes in lowercase hex, two digits per byte, high
/// digit first.
#[verifier::external_body]
fn hex_encode(bytes: &[u8]) -> (r: String)
    ensures
        r@ == hex_text(bytes@),
{
    hex::encode(bytes)
}

/// The address that a name hashes to: the SHA3-256 digest of its text, in
/// hex, as a standard address.
pub open spec fn hashed_address(text: Seq<char>) -> Seq<char> {
    standardized(hex_text(sha3_256_digest(text)))
}

/// The token data id of a v1 token: the hash of
/// `creator::collection::token`, the creator standardized, when all three
/// are given and not empty.
pub open spec fn token_data_id_for(
    creator: Option<Seq<char>>,
    collection: Option<Seq<char>>,
    token: Option<Seq<char>>,
) -> Option<Seq<char>> {
    match (creator, collection, token) {
        (Some(c), Some(l), Some(t)) => if c.len() > 0 && l.len() > 0 && t.len() > 0 {
            Some(hashed_address(standardized(c) + "::"@ + l + "::"@ + t))
        } else {
            None
        },
        _ => None,
    }
}

/// The collection id of a v1 collection: the hash of `creator::collection`,
/// the creator standardized, when both are given and not empty.
pub open spec fn collection_id_for(creator: Option<Seq<char>>, collection: Option<Seq<char>>) -> Option<
    Seq<char>,
> {
    match (creator, collection) {
        (Some(c), Some(l)) => if c.len() > 0 && l.len() > 0 {
            Some(hashed_address(standardized(c) + "::"@ + l))
        } else {
            None
        },
        _ => None,
    }
}

/// The address that the text hashes to.
fn hash_to_address(text: &str) -> (r: String)
    ensures
        r@ == hashed_address(text@),
{
    let digest = sha3_256(text);
    let hex = hex_encode(digest.as_slice());
    standardize_address(hex.as_str())
}

/// The token data id of a v1 token from its creator, collection and name.
pub fn generate_token_data_id(
    creator_address: Option<String>,
    collection_name: Option<String>,
    token_name: Option<String>,
) -> (r: Option<String>)
    ensures
        r is None <==> token_data_id_for(opt_view(creator_address), opt_view(collection_name), opt_view(token_name)) is None,
        r matches Some(s) ==> token_data_id_for(opt_view(creator_address), opt_view(collection_name), opt_view(token_name)) == Some(s@),
{
    match (creator_address, collection_name, token_name) {
        (Some(creator), Some(collection), Some(token)) => {
            if creator.as_str().unicode_len() > 0 && collection.as_str().unicode_len() > 0
                && token.as_str().unicode_len() > 0 {
                let c = standardize_address(creator.as_str());
                let a = concat_str(c.as_str(), "::");
                let b = concat_str(a.as_str(), collection.as_str());
                let d = concat_str(b.as_str(), "::");
                let input = concat_str(d.as_str(), token.as_str());
                Some(hash_to_address(input.as_str()))
            } else {
                None
            }
        },
        _ => None,
    }
}

/// The collection id of a v1 collection from its creator and name.
pub fn generate_collection_id(creator_address: Option<String>, collection_name: Option<String>) -> (r: Option<String>)
    ensures
        r is None <==> collection_id_for(opt_view(creator_address), opt_view(collection_name)) is None,
        r matches Some(s) ==> collection_id_for(opt_view(creator_address), opt_view(collection_name)) == Some(s@),
{
    match (creator_address, collection_name) {
        (Some(creator), Some(collection)) => {
            if creator.as_str().unicode_len() > 0 && collection.as_str().unicode_len() > 0 {
                let c = standardize_address(creator.as_str());
                let a = concat_str(c.as_str(), "::");
                let input = concat_str(a.as_str(), collection.as_str());
                Some(hash_to_address(input.as_str()))
            } else {
                None
            }
        },
        _ => None,
    }
}

/// Whether `t` is the standard type that an activity of an event with
/// struct `s` is recorded with: a listing event (placed, canceled, filled)
/// as place_listing, a token offer event as place_token_offer, and a
/// collection offer event as place_collection_offer.
pub open spec fn recorded_as(s: Seq<char>, t: MarketplaceEventType) -> bool {
    &&& (s == "ListingPlacedEvent"@ || s == "ListingCanceledEvent"@ || s == "ListingFilledEvent"@) ==> t
        == MarketplaceEventType::PlaceListing
    &&& (s == "TokenOfferPlacedEvent"@ || s == "TokenOfferCanceledEvent"@ || s == "TokenOfferFilledEvent"@)
        ==> t == MarketplaceEventType::PlaceTokenOffer
    &&& (s == "CollectionOfferPlacedEvent"@ || s == "CollectionOfferCanceledEvent"@ || s
        == "CollectionOfferFilledEvent"@) ==> t == MarketplaceEventType::PlaceCollectionOffer
}

/// Writing columns leaves an activity's version, index, event type and
/// standard type alone.
proof fn lemma_columns_keep_activity_identity(
    a: NftMarketplaceActivityView,
    s: SecondaryView,
    path: Seq<char>,
    data: JsonData,
    columns: Seq<(Seq<char>, Seq<char>)>,
)
    ensures
        apply_columns(a, s, path, data, columns) matches Ok(r) ==> r.0.txn_version == a.txn_version
            && r.0.index == a.index && r.0.raw_event_type == a.raw_event_type && r.0.standard_event_type
            == a.standard_event_type,
    decreases columns.len(),
{
    if columns.len() > 0 {
        lemma_columns_keep_activity_identity(a, s, path, data, columns.drop_last());
    }
}

/// Remapping fields leaves an activity's version, index, event type and
/// standard type alone.
proof fn lemma_fields_keep_activity_identity(
    a: NftMarketplaceActivityView,
    s: SecondaryView,
    data: JsonData,
    fields: Seq<(Seq<char>, Seq<(Seq<char>, Seq<char>)>)>,
)
    ensures
        apply_fields(a, s, data, fields) matches Ok(r) ==> r.0.txn_version == a.txn_version && r.0.index
            == a.index && r.0.raw_event_type == a.raw_event_type && r.0.standard_event_type
            == a.standard_event_type,
    decreases fields.len(),
{
    if fields.len() > 0 {
        lemma_fields_keep_activity_identity(a, s, data, fields.drop_last());
        if let Ok(prev) = apply_fields(a, s, data, fields.drop_last()) {
            lemma_columns_keep_activity_identity(prev.0, prev.1, fields.last().0, data, fields.last().1);
        }
    }
}

/// The struct names of marketplace events are told apart.
proof fn lemma_event_struct_names()
    ensures
        "ListingPlacedEvent"@[0] == 'L' && "ListingCanceledEvent"@[0] == 'L' && "ListingFilledEvent"@[0] == 'L',
        "TokenOfferPlacedEvent"@[0] == 'T' && "TokenOfferCanceledEvent"@[0] == 'T' && "TokenOfferFilledEvent"@[0]
            == 'T',
        "CollectionOfferPlacedEvent"@[0] == 'C' && "CollectionOfferCanceledEvent"@[0] == 'C'
            && "CollectionOfferFilledEvent"@[0] == 'C',
        "ListingPlacedEvent"@.len() > 0 && "ListingCanceledEvent"@.len() > 0 && "ListingFilledEvent"@.len() > 0,
        "TokenOfferPlacedEvent"@.len() > 0 && "TokenOfferCanceledEvent"@.len() > 0
            && "TokenOfferFilledEvent"@.len() > 0,
        "CollectionOfferPlacedEvent"@.len() > 0 && "CollectionOfferCanceledEvent"@.len() > 0
            && "CollectionOfferFilledEvent"@.len() > 0,
{
    reveal_strlit("ListingPlacedEvent");
    reveal_strlit("ListingCanceledEvent");
    reveal_strlit("ListingFilledEvent");
    reveal_strlit("TokenOfferPlacedEvent");
    reveal_strlit("TokenOfferCanceledEvent");
    reveal_strlit("TokenOfferFilledEvent");
    reveal_strlit("CollectionOfferPlacedEvent");
    reveal_strlit("CollectionOfferCanceledEvent");
    reveal_strlit("CollectionOfferFilledEvent");
}

/// Every remapped activity comes from one of the events, with its version,
/// index and event type, and is recorded with the standard type of that
/// event's struct: place_listing for a listing event, place_token_offer for
/// a token offer event, place_collection_offer for a collection offer event.
pub proof fn lemma_remapped_standard_types(
    remappings: Seq<(EventTypeView, Seq<(Seq<char>, Seq<(Seq<char>, Seq<char>)>)>)>,
    name: Seq<char>,
    ts: BlockTimestamp,
    models: Seq<EventModelView>,
)
    requires
        remap_models(remappings, name, ts, models) is Ok,
    ensures
        ({
            let acts = remap_models(remappings, name, ts, models)->Ok_0.activities;
            forall|i: int|
                0 <= i < acts.len() ==> exists|j: int|
                    0 <= j < models.len() && (#[trigger] acts[i]).txn_version == models[j].transaction_version
                        && acts[i].index == models[j].event_index && acts[i].raw_event_type == event_type_text(
                        models[j].event_type,
                    ) && recorded_as(models[j].event_type.struct_name, acts[i].standard_event_type)
        }),
    decreases models.len(),
{
    if models.len() > 0 {
        let rest = models.drop_last();
        let m = models.last();
        lemma_remapped_standard_types(remappings, name, ts, rest);
        let prows = remap_models(remappings, name, ts, rest)->Ok_0;
        let acts = remap_models(remappings, name, ts, models)->Ok_0.activities;
        lemma_event_struct_names();
        if let Some(fields) = assoc_get(remappings, m.event_type) {
            if let Some(kind) = secondary_kind(m.event_type.struct_name) {
                let a0 = initial_activity(name, m, ts, kind);
                let s0 = initial_secondary(name, m, kind);
                lemma_fields_keep_activity_identity(a0, s0, m.data, fields);
                assert(recorded_as(m.event_type.struct_name, standard_type_of(kind)));
            }
        }
        assert forall|i: int| 0 <= i < acts.len() implies exists|j: int|
            0 <= j < models.len() && (#[trigger] acts[i]).txn_version == models[j].transaction_version
                && acts[i].index == models[j].event_index && acts[i].raw_event_type == event_type_text(
                models[j].event_type,
            ) && recorded_as(models[j].event_type.struct_name, acts[i].standard_event_type) by {
            if i < prows.activities.len() {
                assert(acts[i] == prows.activities[i]);
                let j = choose|j: int|
                    0 <= j < rest.len() && (#[trigger] prows.activities[i]).txn_version
                        == rest[j].transaction_version && prows.activities[i].index == rest[j].event_index
                        && prows.activities[i].raw_event_type == event_type_text(rest[j].event_type)
                        && recorded_as(rest[j].event_type.struct_name, prows.activities[i].standard_event_type);
                assert(rest[j] == models[j]);
            } else {
                assert(models[models.len() - 1] == m);
            }
        }
    }
}

} // verus!
