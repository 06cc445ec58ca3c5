//! The rows the indexer writes: marketplace activities and the current
//! listings, token offers and collection offers, each settable and readable
//! column by column.
use crate::config::marketplace_config::MarketplaceEventType;
use crate::json::{JsonData, JsonValue};
use crate::models::EventModel;
use crate::text::{i64_to_string, int_to_decimal, parse_i64, parse_i64_spec, str_eq};
use crate::utils::{naive_datetime_text, BlockTimestamp};
use vstd::prelude::*;

verus! {

/// The seller recorded when none is known.
pub const DEFAULT_SELLER: &'static str = "unknown";

/// The buyer recorded when none is known.
pub const DEFAULT_BUYER: &'static str = "unknown";

/// The content of an optional string.
pub open spec fn opt_view(o: Option<String>) -> Option<Seq<char>> {
    match o {
        Some(s) => Some(s@),
        None => None,
    }
}

/// The text of an optional string column, empty when unset.
pub open spec fn opt_text(o: Option<Seq<char>>) -> Seq<char> {
    match o {
        Some(s) => s,
        None => Seq::empty(),
    }
}

/// What `value.parse::<i64>().unwrap_or(0)` gives.
pub open spec fn parsed_or_zero(s: Seq<char>) -> i64 {
    match parse_i64_spec(s) {
        Some(v) => v,
        None => 0,
    }
}

/// The decimal text of an optional integer column, `0` when unset.
pub open spec fn opt_int_text(o: Option<i64>) -> Seq<char> {
    match o {
        Some(v) => int_to_decimal(v as int),
        None => int_to_decimal(0),
    }
}

/// Whether the optional id `id` is present and equal to `key`.
pub open spec fn same_id(id: Option<Seq<char>>, key: Seq<char>) -> bool {
    id matches Some(a) && a == key
}

/// A row that can be filled column by column from remapped values. The
/// spec functions describe a row by its plain content.
pub trait MarketplaceModel: View + Sized {
    /// What `get_field(column)` reads from a row.
    spec fn column_text(row: Self::V, column: Seq<char>) -> Option<Seq<char>>;

    /// A row after `set_field(column, value)`.
    spec fn with_column(row: Self::V, column: Seq<char>, value: Seq<char>) -> Self::V;

    /// Whether a row may be written.
    spec fn row_valid(row: Self::V) -> bool;

    /// The table the rows belong to.
    spec fn row_table() -> Seq<char>;

    /// The version of the transaction a row was last written by.
    spec fn row_txn_version(row: Self::V) -> i64;

    /// The block time of that transaction, in seconds.
    spec fn row_updated_secs(row: Self::V) -> i64;

    /// Whether `activity` is the activity a row was built with.
    spec fn row_matches(row: Self::V, activity: NftMarketplaceActivityView) -> bool;

    /// Sets `column` from `value`; numbers are parsed, unknown columns ignored.
    fn set_field(&mut self, column: &str, value: String)
        ensures
            final(self)@ == Self::with_column(old(self)@, column@, value@),
    ;

    /// The text of `column`; `None` for a column the row does not have.
    fn get_field(&self, column: &str) -> (r: Option<String>)
        ensures
            r matches Some(s) ==> Self::column_text(self@, column@) == Some(s@),
            r is None ==> Self::column_text(self@, column@) is None,
    ;

    /// Whether the row may be written.
    fn is_valid(&self) -> (r: bool)
        ensures
            r == Self::row_valid(self@),
    ;

    /// The table the row belongs to.
    fn table_name(&self) -> (r: &'static str)
        ensures
            r@ == Self::row_table(),
    ;

    /// The block time of the last write, in seconds.
    fn updated_at(&self) -> (r: i64)
        ensures
            r == Self::row_updated_secs(self@),
    ;

    /// The version of the transaction of the last write.
    fn get_txn_version(&self) -> (r: i64)
        ensures
            r == Self::row_txn_version(self@),
    ;

    /// Whether `activity` is the activity this row was built with.
    fn matches_activity(&self, activity: &NftMarketplaceActivity) -> (r: bool)
        ensures
            r == Self::row_matches(self@, activity@),
    ;
}

/// The text of an optional string column.
fn opt_string(o: &Option<String>) -> (r: String)
    ensures
        r@ == opt_text(opt_view(*o)),
{
    match o {
        Some(s) => s.clone(),
        None => String::new(),
    }
}

/// `value.parse::<i64>().unwrap_or(0)`.
fn parse_or_zero(s: &str) -> (r: i64)
    ensures
        r == parsed_or_zero(s@),
{
    match parse_i64(s) {
        Some(v) => v,
        None => 0,
    }
}

/// The decimal text of an optional integer column.
fn opt_int_string(o: Option<i64>) -> (r: String)
    ensures
        r@ == opt_int_text(o),
{
    match o {
        Some(v) => i64_to_string(v),
        None => i64_to_string(0),
    }
}

fn same_id_exec(id: &Option<String>, key: &str) -> (r: bool)
    ensures
        r == same_id(opt_view(*id), key@),
{
    match id {
        Some(a) => str_eq(a.as_str(), key),
        None => false,
    }
}

/// A marketplace activity: one indexed marketplace event.
pub struct NftMarketplaceActivity {
    pub txn_version: i64,
    pub index: i64,
    pub listing_id: Option<String>,
    pub offer_id: Option<String>,
    pub raw_event_type: String,
    pub standard_event_type: MarketplaceEventType,
    pub creator_address: Option<String>,
    pub collection_id: Option<String>,
    pub collection_name: Option<String>,
    pub token_data_id: Option<String>,
    pub token_name: Option<String>,
    pub price: i64,
    pub token_amount: Option<i64>,
    pub buyer: Option<String>,
    pub seller: Option<String>,
    pub expiration_time: Option<String>,
    pub json_data: JsonValue,
    pub marketplace: String,
    pub contract_address: String,
    pub block_timestamp: BlockTimestamp,
}

/// The plain content of a `NftMarketplaceActivity`.
pub struct NftMarketplaceActivityView {
    pub txn_version: i64,
    pub index: i64,
    pub listing_id: Option<Seq<char>>,
    pub offer_id: Option<Seq<char>>,
    pub raw_event_type: Seq<char>,
    pub standard_event_type: MarketplaceEventType,
    pub creator_address: Option<Seq<char>>,
    pub collection_id: Option<Seq<char>>,
    pub collection_name: Option<Seq<char>>,
    pub token_data_id: Option<Seq<char>>,
    pub token_name: Option<Seq<char>>,
    pub price: i64,
    pub token_amount: Option<i64>,
    pub buyer: Option<Seq<char>>,
    pub seller: Option<Seq<char>>,
    pub expiration_time: Option<Seq<char>>,
    pub json_data: JsonData,
    pub marketplace: Seq<char>,
    pub contract_address: Seq<char>,
    pub block_timestamp: BlockTimestamp,
}

impl View for NftMarketplaceActivity {
    type V = NftMarketplaceActivityView;

    open spec fn view(&self) -> NftMarketplaceActivityView {
        NftMarketplaceActivityView {
            txn_version: self.txn_version,
            index: self.index,
            listing_id: opt_view(self.listing_id),
            offer_id: opt_view(self.offer_id),
            raw_event_type: self.raw_event_type@,
            standard_event_type: self.standard_event_type,
            creator_address: opt_view(self.creator_address),
            collection_id: opt_view(self.collection_id),
            collection_name: opt_view(self.collection_name),
            token_data_id: opt_view(self.token_data_id),
            token_name: opt_view(self.token_name),
            price: self.price,
            token_amount: self.token_amount,
            buyer: opt_view(self.buyer),
            seller: opt_view(self.seller),
            expiration_time: opt_view(self.expiration_time),
            json_data: self.json_data@,
            marketplace: self.marketplace@,
            contract_address: self.contract_address@,
            block_timestamp: self.block_timestamp,
        }
    }
}

impl MarketplaceModel for NftMarketplaceActivity {
    open spec fn column_text(row: NftMarketplaceActivityView, column: Seq<char>) -> Option<Seq<char>> {
        if column == "collection_id"@ {
            Some(opt_text(row.collection_id))
        } else if column == "token_data_id"@ {
            Some(opt_text(row.token_data_id))
        } else if column == "token_name"@ {
            Some(opt_text(row.token_name))
        } else if column == "creator_address"@ {
            Some(opt_text(row.creator_address))
        } else if column == "collection_name"@ {
            Some(opt_text(row.collection_name))
        } else if column == "price"@ {
            Some(int_to_decimal(row.price as int))
        } else if column == "token_amount"@ {
            Some(opt_int_text(row.token_amount))
        } else if column == "buyer"@ {
            Some(opt_text(row.buyer))
        } else if column == "seller"@ {
            Some(opt_text(row.seller))
        } else if column == "expiration_time"@ {
            Some(opt_text(row.expiration_time))
        } else if column == "listing_id"@ {
            Some(opt_text(row.listing_id))
        } else if column == "offer_id"@ {
            Some(opt_text(row.offer_id))
        } else if column == "marketplace"@ {
            Some(row.marketplace)
        } else if column == "contract_address"@ {
            Some(row.contract_address)
        } else if column == "block_timestamp"@ {
            Some(naive_datetime_text(row.block_timestamp.secs(), row.block_timestamp.nsecs()))
        } else {
            None
        }
    }

    open spec fn with_column(row: NftMarketplaceActivityView, column: Seq<char>, value: Seq<char>) -> NftMarketplaceActivityView {
        if value.len() == 0 {
            row
        } else if column == "collection_id"@ {
            NftMarketplaceActivityView { collection_id: Some(value), ..row }
        } else if column == "token_data_id"@ {
            NftMarketplaceActivityView { token_data_id: Some(value), ..row }
        } else if column == "token_name"@ {
            NftMarketplaceActivityView { token_name: Some(value), ..row }
        } else if column == "creator_address"@ {
            NftMarketplaceActivityView { creator_address: Some(value), ..row }
        } else if column == "collection_name"@ {
            NftMarketplaceActivityView { collection_name: Some(value), ..row }
        } else if column == "price"@ {
            NftMarketplaceActivityView { price: parsed_or_zero(value), ..row }
        } else if column == "token_amount"@ {
            NftMarketplaceActivityView { token_amount: parse_i64_spec(value), ..row }
        } else if column == "buyer"@ {
            NftMarketplaceActivityView { buyer: Some(value), ..row }
        } else if column == "seller"@ {
            NftMarketplaceActivityView { seller: Some(value), ..row }
        } else if column == "expiration_time"@ {
            NftMarketplaceActivityView { expiration_time: Some(value), ..row }
        } else if column == "listing_id"@ {
            NftMarketplaceActivityView { listing_id: Some(value), ..row }
        } else if column == "offer_id"@ || column == "collection_offer_id"@ {
            NftMarketplaceActivityView { offer_id: Some(value), ..row }
        } else {
            row
        }
    }

    open spec fn row_valid(row: NftMarketplaceActivityView) -> bool {
        row.marketplace.len() > 0 && row.contract_address.len() > 0
    }

    open spec fn row_table() -> Seq<char> {
        "nft_marketplace_activities"@
    }

    open spec fn row_txn_version(row: NftMarketplaceActivityView) -> i64 {
        row.txn_version
    }

    open spec fn row_updated_secs(row: NftMarketplaceActivityView) -> i64 {
        row.block_timestamp.secs()
    }

    open spec fn row_matches(row: NftMarketplaceActivityView, activity: NftMarketplaceActivityView) -> bool {
        same_id(activity.token_data_id, opt_text(row.token_data_id))
    }

    fn set_field(&mut self, column: &str, value: String) {
        if value.unicode_len() == 0 {
            return ;
        }
        if str_eq(column, "collection_id") {
            self.collection_id = Some(value);
        } else if str_eq(column, "token_data_id") {
            self.token_data_id = Some(value);
        } else if str_eq(column, "token_name") {
            self.token_name = Some(value);
        } else if str_eq(column, "creator_address") {
            self.creator_address = Some(value);
        } else if str_eq(column, "collection_name") {
            self.collection_name = Some(value);
        } else if str_eq(column, "price") {
            self.price = parse_or_zero(value.as_str());
        } else if str_eq(column, "token_amount") {
            self.token_amount = parse_i64(value.as_str());
        } else if str_eq(column, "buyer") {
            self.buyer = Some(value);
        } else if str_eq(column, "seller") {
            self.seller = Some(value);
        } else if str_eq(column, "expiration_time") {
            self.expiration_time = Some(value);
        } else if str_eq(column, "listing_id") {
            self.listing_id = Some(value);
        } else if str_eq(column, "offer_id") || str_eq(column, "collection_offer_id") {
            self.offer_id = Some(value);
        }
    }

    fn get_field(&self, column: &str) -> (r: Option<String>) {
        if str_eq(column, "collection_id") {
            Some(opt_string(&self.collection_id))
        } else if str_eq(column, "token_data_id") {
            Some(opt_string(&self.token_data_id))
        } else if str_eq(column, "token_name") {
            Some(opt_string(&self.token_name))
        } else if str_eq(column, "creator_address") {
            Some(opt_string(&self.creator_address))
        } else if str_eq(column, "collection_name") {
            Some(opt_string(&self.collection_name))
        } else if str_eq(column, "price") {
            Some(i64_to_string(self.price))
        } else if str_eq(column, "token_amount") {
            Some(opt_int_string(self.token_amount))
        } else if str_eq(column, "buyer") {
            Some(opt_string(&self.buyer))
        } else if str_eq(column, "seller") {
            Some(opt_string(&self.seller))
        } else if str_eq(column, "expiration_time") {
            Some(opt_string(&self.expiration_time))
        } else if str_eq(column, "listing_id") {
            Some(opt_string(&self.listing_id))
        } else if str_eq(column, "offer_id") {
            Some(opt_string(&self.offer_id))
        } else if str_eq(column, "marketplace") {
            Some(self.marketplace.clone())
        } else if str_eq(column, "contract_address") {
            Some(self.contract_address.clone())
        } else if str_eq(column, "block_timestamp") {
            Some(self.block_timestamp.to_string())
        } else {
            None
        }
    }

    fn is_valid(&self) -> (r: bool) {
        self.marketplace.unicode_len() > 0 && self.contract_address.unicode_len() > 0
    }

    fn table_name(&self) -> (r: &'static str) {
        "nft_marketplace_activities"
    }

    fn updated_at(&self) -> (r: i64) {
        self.block_timestamp.seconds()
    }

    fn get_txn_version(&self) -> (r: i64) {
        self.txn_version
    }

    fn matches_activity(&self, activity: &NftMarketplaceActivity) -> (r: bool) {
        let key = opt_string(&self.token_data_id);
        same_id_exec(&activity.token_data_id, key.as_str())
    }
}

/// The current listing of a token on a marketplace.
pub struct CurrentNFTMarketplaceListing {
    pub token_data_id: String,
    pub listing_id: Option<String>,
    pub collection_id: Option<String>,
    pub seller: String,
    pub price: i64,
    pub token_amount: i64,
    pub is_deleted: bool,
    pub marketplace: String,
    pub contract_address: String,
    pub last_transaction_version: i64,
    pub last_transaction_timestamp: BlockTimestamp,
}

/// The plain content of a `CurrentNFTMarketplaceListing`.
pub struct CurrentNFTMarketplaceListingView {
    pub token_data_id: Seq<char>,
    pub listing_id: Option<Seq<char>>,
    pub collection_id: Option<Seq<char>>,
    pub seller: Seq<char>,
    pub price: i64,
    pub token_amount: i64,
    pub is_deleted: bool,
    pub marketplace: Seq<char>,
    pub contract_address: Seq<char>,
    pub last_transaction_version: i64,
    pub last_transaction_timestamp: BlockTimestamp,
}

impl View for CurrentNFTMarketplaceListing {
    type V = CurrentNFTMarketplaceListingView;

    open spec fn view(&self) -> CurrentNFTMarketplaceListingView {
        CurrentNFTMarketplaceListingView {
            token_data_id: self.token_data_id@,
            listing_id: opt_view(self.listing_id),
            collection_id: opt_view(self.collection_id),
            seller: self.seller@,
            price: self.price,
            token_amount: self.token_amount,
            is_deleted: self.is_deleted,
            marketplace: self.marketplace@,
            contract_address: self.contract_address@,
            last_transaction_version: self.last_transaction_version,
            last_transaction_timestamp: self.last_transaction_timestamp,
        }
    }
}

impl MarketplaceModel for CurrentNFTMarketplaceListing {
    open spec fn column_text(row: CurrentNFTMarketplaceListingView, column: Seq<char>) -> Option<Seq<char>> {
        if column == "token_data_id"@ {
            Some(row.token_data_id)
        } else if column == "listing_id"@ {
            Some(opt_text(row.listing_id))
        } else if column == "collection_id"@ {
            Some(opt_text(row.collection_id))
        } else if column == "seller"@ {
            Some(row.seller)
        } else if column == "price"@ {
            Some(int_to_decimal(row.price as int))
        } else if column == "token_amount"@ {
            Some(int_to_decimal(row.token_amount as int))
        } else {
            None
        }
    }

    open spec fn with_column(row: CurrentNFTMarketplaceListingView, column: Seq<char>, value: Seq<char>) -> CurrentNFTMarketplaceListingView {
        if column == "token_data_id"@ {
            CurrentNFTMarketplaceListingView { token_data_id: value, ..row }
        } else if column == "listing_id"@ {
            CurrentNFTMarketplaceListingView { listing_id: Some(value), ..row }
        } else if column == "collection_id"@ {
            CurrentNFTMarketplaceListingView { collection_id: Some(value), ..row }
        } else if column == "seller"@ {
            CurrentNFTMarketplaceListingView { seller: value, ..row }
        } else if column == "price"@ {
            CurrentNFTMarketplaceListingView { price: parsed_or_zero(value), ..row }
        } else if column == "token_amount"@ {
            CurrentNFTMarketplaceListingView { token_amount: parsed_or_zero(value), ..row }
        } else if column == "marketplace"@ {
            CurrentNFTMarketplaceListingView { marketplace: value, ..row }
        } else if column == "contract_address"@ {
            CurrentNFTMarketplaceListingView { contract_address: value, ..row }
        } else {
            row
        }
    }

    open spec fn row_valid(row: CurrentNFTMarketplaceListingView) -> bool {
        row.token_data_id.len() > 0
    }

    open spec fn row_table() -> Seq<char> {
        "current_nft_marketplace_listings"@
    }

    open spec fn row_txn_version(row: CurrentNFTMarketplaceListingView) -> i64 {
        row.last_transaction_version
    }

    open spec fn row_updated_secs(row: CurrentNFTMarketplaceListingView) -> i64 {
        row.last_transaction_timestamp.secs()
    }

    open spec fn row_matches(row: CurrentNFTMarketplaceListingView, activity: NftMarketplaceActivityView) -> bool {
        same_id(activity.token_data_id, row.token_data_id)
    }

    fn set_field(&mut self, column: &str, value: String) {
        if str_eq(column, "token_data_id") {
            self.token_data_id = value;
        } else if str_eq(column, "listing_id") {
            self.listing_id = Some(value);
        } else if str_eq(column, "collection_id") {
            self.collection_id = Some(value);
        } else if str_eq(column, "seller") {
            self.seller = value;
        } else if str_eq(column, "price") {
            self.price = parse_or_zero(value.as_str());
        } else if str_eq(column, "token_amount") {
            self.token_amount = parse_or_zero(value.as_str());
        } else if str_eq(column, "marketplace") {
            self.marketplace = value;
        } else if str_eq(column, "contract_address") {
            self.contract_address = value;
        }
    }

    fn get_field(&self, column: &str) -> (r: Option<String>) {
        if str_eq(column, "token_data_id") {
            Some(self.token_data_id.clone())
        } else if str_eq(column, "listing_id") {
            Some(opt_string(&self.listing_id))
        } else if str_eq(column, "collection_id") {
            Some(opt_string(&self.collection_id))
        } else if str_eq(column, "seller") {
            Some(self.seller.clone())
        } else if str_eq(column, "price") {
            Some(i64_to_string(self.price))
        } else if str_eq(column, "token_amount") {
            Some(i64_to_string(self.token_amount))
        } else {
            None
        }
    }

    fn is_valid(&self) -> (r: bool) {
        self.token_data_id.unicode_len() > 0
    }

    fn table_name(&self) -> (r: &'static str) {
        "current_nft_marketplace_listings"
    }

    fn updated_at(&self) -> (r: i64) {
        self.last_transaction_timestamp.seconds()
    }

    fn get_txn_version(&self) -> (r: i64) {
        self.last_transaction_version
    }

    fn matches_activity(&self, activity: &NftMarketplaceActivity) -> (r: bool) {
        same_id_exec(&activity.token_data_id, self.token_data_id.as_str())
    }
}

/// The current offer of a buyer for a token on a marketplace.
pub struct CurrentNFTMarketplaceTokenOffer {
    pub token_data_id: String,
    pub offer_id: Option<String>,
    pub buyer: String,
    pub collection_id: String,
    pub price: i64,
    pub token_amount: Option<i64>,
    pub token_name: Option<String>,
    pub is_deleted: bool,
    pub marketplace: String,
    pub contract_address: String,
    pub last_transaction_version: i64,
    pub last_transaction_timestamp: BlockTimestamp,
}

/// The plain content of a `CurrentNFTMarketplaceTokenOffer`.
pub struct CurrentNFTMarketplaceTokenOfferView {
    pub token_data_id: Seq<char>,
    pub offer_id: Option<Seq<char>>,
    pub buyer: Seq<char>,
    pub collection_id: Seq<char>,
    pub price: i64,
    pub token_amount: Option<i64>,
    pub token_name: Option<Seq<char>>,
    pub is_deleted: bool,
    pub marketplace: Seq<char>,
    pub contract_address: Seq<char>,
    pub last_transaction_version: i64,
    pub last_transaction_timestamp: BlockTimestamp,
}

impl View for CurrentNFTMarketplaceTokenOffer {
    type V = CurrentNFTMarketplaceTokenOfferView;

    open spec fn view(&self) -> CurrentNFTMarketplaceTokenOfferView {
        CurrentNFTMarketplaceTokenOfferView {
            token_data_id: self.token_data_id@,
            offer_id: opt_view(self.offer_id),
            buyer: self.buyer@,
            collection_id: self.collection_id@,
            price: self.price,
            token_amount: self.token_amount,
            token_name: opt_view(self.token_name),
            is_deleted: self.is_deleted,
            marketplace: self.marketplace@,
            contract_address: self.contract_address@,
            last_transaction_version: self.last_transaction_version,
            last_transaction_timestamp: self.last_transaction_timestamp,
        }
    }
}

impl MarketplaceModel for CurrentNFTMarketplaceTokenOffer {
    open spec fn column_text(row: CurrentNFTMarketplaceTokenOfferView, column: Seq<char>) -> Option<Seq<char>> {
        if column == "token_data_id"@ {
            Some(row.token_data_id)
        } else if column == "token_name"@ {
            Some(opt_text(row.token_name))
        } else if column == "buyer"@ {
            Some(row.buyer)
        } else if column == "collection_id"@ {
            Some(row.collection_id)
        } else if column == "price"@ {
            Some(int_to_decimal(row.price as int))
        } else if column == "token_amount"@ {
            Some(opt_int_text(row.token_amount))
        } else if column == "marketplace"@ {
            Some(row.marketplace)
        } else if column == "contract_address"@ {
            Some(row.contract_address)
        } else if column == "last_transaction_version"@ {
            Some(int_to_decimal(row.last_transaction_version as int))
        } else if column == "last_transaction_timestamp"@ {
            Some(naive_datetime_text(row.last_transaction_timestamp.secs(), row.last_transaction_timestamp.nsecs()))
        } else {
            None
        }
    }

    open spec fn with_column(row: CurrentNFTMarketplaceTokenOfferView, column: Seq<char>, value: Seq<char>) -> CurrentNFTMarketplaceTokenOfferView {
        if column == "token_data_id"@ {
            CurrentNFTMarketplaceTokenOfferView { token_data_id: value, ..row }
        } else if column == "offer_id"@ {
            CurrentNFTMarketplaceTokenOfferView { offer_id: Some(value), ..row }
        } else if column == "buyer"@ {
            CurrentNFTMarketplaceTokenOfferView { buyer: value, ..row }
        } else if column == "collection_id"@ {
            CurrentNFTMarketplaceTokenOfferView { collection_id: value, ..row }
        } else if column == "price"@ {
            CurrentNFTMarketplaceTokenOfferView { price: parsed_or_zero(value), ..row }
        } else if column == "token_amount"@ {
            CurrentNFTMarketplaceTokenOfferView { token_amount: parse_i64_spec(value), ..row }
        } else if column == "token_name"@ {
            CurrentNFTMarketplaceTokenOfferView { token_name: Some(value), ..row }
        } else if column == "marketplace"@ {
            CurrentNFTMarketplaceTokenOfferView { marketplace: value, ..row }
        } else if column == "contract_address"@ {
            CurrentNFTMarketplaceTokenOfferView { contract_address: value, ..row }
        } else {
            row
        }
    }

    open spec fn row_valid(row: CurrentNFTMarketplaceTokenOfferView) -> bool {
        row.token_data_id.len() > 0 && row.buyer.len() > 0
    }

    open spec fn row_table() -> Seq<char> {
        "current_nft_marketplace_token_offers"@
    }

    open spec fn row_txn_version(row: CurrentNFTMarketplaceTokenOfferView) -> i64 {
        row.last_transaction_version
    }

    open spec fn row_updated_secs(row: CurrentNFTMarketplaceTokenOfferView) -> i64 {
        row.last_transaction_timestamp.secs()
    }

    open spec fn row_matches(row: CurrentNFTMarketplaceTokenOfferView, activity: NftMarketplaceActivityView) -> bool {
        same_id(activity.token_data_id, row.token_data_id)
    }

    fn set_field(&mut self, column: &str, value: String) {
        if str_eq(column, "token_data_id") {
            self.token_data_id = value;
        } else if str_eq(column, "offer_id") {
            self.offer_id = Some(value);
        } else if str_eq(column, "buyer") {
            self.buyer = value;
        } else if str_eq(column, "collection_id") {
            self.collection_id = value;
        } else if str_eq(column, "price") {
            self.price = parse_or_zero(value.as_str());
        } else if str_eq(column, "token_amount") {
            self.token_amount = parse_i64(value.as_str());
        } else if str_eq(column, "token_name") {
            self.token_name = Some(value);
        } else if str_eq(column, "marketplace") {
            self.marketplace = value;
        } else if str_eq(column, "contract_address") {
            self.contract_address = value;
        }
    }

    fn get_field(&self, column: &str) -> (r: Option<String>) {
        if str_eq(column, "token_data_id") {
            Some(self.token_data_id.clone())
        } else if str_eq(column, "token_name") {
            Some(opt_string(&self.token_name))
        } else if str_eq(column, "buyer") {
            Some(self.buyer.clone())
        } else if str_eq(column, "collection_id") {
            Some(self.collection_id.clone())
        } else if str_eq(column, "price") {
            Some(i64_to_string(self.price))
        } else if str_eq(column, "token_amount") {
            Some(opt_int_string(self.token_amount))
        } else if str_eq(column, "marketplace") {
            Some(self.marketplace.clone())
        } else if str_eq(column, "contract_address") {
            Some(self.contract_address.clone())
        } else if str_eq(column, "last_transaction_version") {
            Some(i64_to_string(self.last_transaction_version))
        } else if str_eq(column, "last_transaction_timestamp") {
            Some(self.last_transaction_timestamp.to_string())
        } else {
            None
        }
    }

    fn is_valid(&self) -> (r: bool) {
        self.token_data_id.unicode_len() > 0 && self.buyer.unicode_len() > 0
    }

    fn table_name(&self) -> (r: &'static str) {
        "current_nft_marketplace_token_offers"
    }

    fn updated_at(&self) -> (r: i64) {
        self.last_transaction_timestamp.seconds()
    }

    fn get_txn_version(&self) -> (r: i64) {
        self.last_transaction_version
    }

    fn matches_activity(&self, activity: &NftMarketplaceActivity) -> (r: bool) {
        same_id_exec(&activity.token_data_id, self.token_data_id.as_str())
    }
}

/// The current offer of a buyer for any token of a collection.
pub struct CurrentNFTMarketplaceCollectionOffer {
    pub collection_offer_id: String,
    pub collection_id: String,
    pub token_data_id: Option<String>,
    pub buyer: String,
    pub price: i64,
    pub remaining_token_amount: Option<i64>,
    pub is_deleted: bool,
    pub marketplace: String,
    pub contract_address: String,
    pub last_transaction_version: i64,
    pub last_transaction_timestamp: BlockTimestamp,
}

/// The plain content of a `CurrentNFTMarketplaceCollectionOffer`.
pub struct CurrentNFTMarketplaceCollectionOfferView {
    pub collection_offer_id: Seq<char>,
    pub collection_id: Seq<char>,
    pub token_data_id: Option<Seq<char>>,
    pub buyer: Seq<char>,
    pub price: i64,
    pub remaining_token_amount: Option<i64>,
    pub is_deleted: bool,
    pub marketplace: Seq<char>,
    pub contract_address: Seq<char>,
    pub last_transaction_version: i64,
    pub last_transaction_timestamp: BlockTimestamp,
}

impl View for CurrentNFTMarketplaceCollectionOffer {
    type V = CurrentNFTMarketplaceCollectionOfferView;

    open spec fn view(&self) -> CurrentNFTMarketplaceCollectionOfferView {
        CurrentNFTMarketplaceCollectionOfferView {
            collection_offer_id: self.collection_offer_id@,
            collection_id: self.collection_id@,
            token_data_id: opt_view(self.token_data_id),
            buyer: self.buyer@,
            price: self.price,
            remaining_token_amount: self.remaining_token_amount,
            is_deleted: self.is_deleted,
            marketplace: self.marketplace@,
            contract_address: self.contract_address@,
            last_transaction_version: self.last_transaction_version,
            last_transaction_timestamp: self.last_transaction_timestamp,
        }
    }
}

impl MarketplaceModel for CurrentNFTMarketplaceCollectionOffer {
    open spec fn column_text(row: CurrentNFTMarketplaceCollectionOfferView, column: Seq<char>) -> Option<Seq<char>> {
        if column == "collection_offer_id"@ {
            Some(row.collection_offer_id)
        } else if column == "collection_id"@ {
            Some(row.collection_id)
        } else if column == "price"@ {
            Some(int_to_decimal(row.price as int))
        } else if column == "remaining_token_amount"@ {
            Some(opt_int_text(row.remaining_token_amount))
        } else if column == "marketplace"@ {
            Some(row.marketplace)
        } else if column == "contract_address"@ {
            Some(row.contract_address)
        } else if column == "buyer"@ {
            Some(row.buyer)
        } else if column == "token_data_id"@ {
            Some(opt_text(row.token_data_id))
        } else {
            None
        }
    }

    open spec fn with_column(row: CurrentNFTMarketplaceCollectionOfferView, column: Seq<char>, value: Seq<char>) -> CurrentNFTMarketplaceCollectionOfferView {
        if column == "collection_offer_id"@ {
            CurrentNFTMarketplaceCollectionOfferView { collection_offer_id: value, ..row }
        } else if column == "collection_id"@ {
            CurrentNFTMarketplaceCollectionOfferView { collection_id: value, ..row }
        } else if column == "token_data_id"@ {
            CurrentNFTMarketplaceCollectionOfferView { token_data_id: Some(value), ..row }
        } else if column == "buyer"@ {
            CurrentNFTMarketplaceCollectionOfferView { buyer: value, ..row }
        } else if column == "price"@ {
            CurrentNFTMarketplaceCollectionOfferView { price: parsed_or_zero(value), ..row }
        } else if column == "remaining_token_amount"@ {
            CurrentNFTMarketplaceCollectionOfferView { remaining_token_amount: parse_i64_spec(value), ..row }
        } else if column == "marketplace"@ {
            CurrentNFTMarketplaceCollectionOfferView { marketplace: value, ..row }
        } else if column == "contract_address"@ {
            CurrentNFTMarketplaceCollectionOfferView { contract_address: value, ..row }
        } else {
            row
        }
    }

    open spec fn row_valid(row: CurrentNFTMarketplaceCollectionOfferView) -> bool {
        row.collection_offer_id.len() > 0
    }

    open spec fn row_table() -> Seq<char> {
        "current_nft_marketplace_collection_offers"@
    }

    open spec fn row_txn_version(row: CurrentNFTMarketplaceCollectionOfferView) -> i64 {
        row.last_transaction_version
    }

    open spec fn row_updated_secs(row: CurrentNFTMarketplaceCollectionOfferView) -> i64 {
        row.last_transaction_timestamp.secs()
    }

    open spec fn row_matches(row: CurrentNFTMarketplaceCollectionOfferView, activity: NftMarketplaceActivityView) -> bool {
        same_id(activity.offer_id, row.collection_offer_id)
    }

    fn set_field(&mut self, column: &str, value: String) {
        if str_eq(column, "collection_offer_id") {
            self.collection_offer_id = value;
        } else if str_eq(column, "collection_id") {
            self.collection_id = value;
        } else if str_eq(column, "token_data_id") {
            self.token_data_id = Some(value);
        } else if str_eq(column, "buyer") {
            self.buyer = value;
        } else if str_eq(column, "price") {
            self.price = parse_or_zero(value.as_str());
        } else if str_eq(column, "remaining_token_amount") {
            self.remaining_token_amount = parse_i64(value.as_str());
        } else if str_eq(column, "marketplace") {
            self.marketplace = value;
        } else if str_eq(column, "contract_address") {
            self.contract_address = value;
        }
    }

    fn get_field(&self, column: &str) -> (r: Option<String>) {
        if str_eq(column, "collection_offer_id") {
            Some(self.collection_offer_id.clone())
        } else if str_eq(column, "collection_id") {
            Some(self.collection_id.clone())
        } else if str_eq(column, "price") {
            Some(i64_to_string(self.price))
        } else if str_eq(column, "remaining_token_amount") {
            Some(opt_int_string(self.remaining_token_amount))
        } else if str_eq(column, "marketplace") {
            Some(self.marketplace.clone())
        } else if str_eq(column, "contract_address") {
            Some(self.contract_address.clone())
        } else if str_eq(column, "buyer") {
            Some(self.buyer.clone())
        } else if str_eq(column, "token_data_id") {
            Some(opt_string(&self.token_data_id))
        } else {
            None
        }
    }

    fn is_valid(&self) -> (r: bool) {
        self.collection_offer_id.unicode_len() > 0
    }

    fn table_name(&self) -> (r: &'static str) {
        "current_nft_marketplace_collection_offers"
    }

    fn updated_at(&self) -> (r: i64) {
        self.last_transaction_timestamp.seconds()
    }

    fn get_txn_version(&self) -> (r: i64) {
        self.last_transaction_version
    }

    fn matches_activity(&self, activity: &NftMarketplaceActivity) -> (r: bool) {
        same_id_exec(&activity.offer_id, self.collection_offer_id.as_str())
    }
}

impl CurrentNFTMarketplaceListing {
    /// A listing of `marketplace_name` written by `event`, with every column
    /// that the event data fills left empty.
    pub fn build_default(marketplace_name: String, event: &EventModel, is_deleted: bool) -> (r: Self)
        ensures
            r@.token_data_id == Seq::<char>::empty(),
            r.listing_id is None,
            r.collection_id is None,
            r.seller@ == Seq::<char>::empty(),
            r.price == 0,
            r.token_amount == 0,
            r.is_deleted == is_deleted,
            r.marketplace == marketplace_name,
            r.contract_address@ == event.account_address@,
            r.last_transaction_version == event.transaction_version,
            r.last_transaction_timestamp == event.block_timestamp,
    {
        CurrentNFTMarketplaceListing {
            token_data_id: String::new(),
            listing_id: None,
            collection_id: None,
            seller: String::new(),
            price: 0,
            token_amount: 0,
            is_deleted,
            marketplace: marketplace_name,
            contract_address: event.account_address.clone(),
            last_transaction_version: event.transaction_version,
            last_transaction_timestamp: event.block_timestamp,
        }
    }
}

impl CurrentNFTMarketplaceTokenOffer {
    /// A token offer on `marketplace_name` written by `event`, with every
    /// column that the event data fills left empty.
    pub fn build_default(marketplace_name: String, event: &EventModel, is_deleted: bool) -> (r: Self)
        ensures
            r@.token_data_id == Seq::<char>::empty(),
            r.offer_id is None,
            r.buyer@ == Seq::<char>::empty(),
            r.collection_id@ == Seq::<char>::empty(),
            r.price == 0,
            r.token_amount == Some(0i64),
            r.token_name is None,
            r.is_deleted == is_deleted,
            r.marketplace == marketplace_name,
            r.contract_address@ == event.account_address@,
            r.last_transaction_version == event.transaction_version,
            r.last_transaction_timestamp == event.block_timestamp,
    {
        CurrentNFTMarketplaceTokenOffer {
            token_data_id: String::new(),
            offer_id: None,
            buyer: String::new(),
            collection_id: String::new(),
            price: 0,
            token_amount: Some(0),
            token_name: None,
            is_deleted,
            marketplace: marketplace_name,
            contract_address: event.account_address.clone(),
            last_transaction_version: event.transaction_version,
            last_transaction_timestamp: event.block_timestamp,
        }
    }
}

impl CurrentNFTMarketplaceCollectionOffer {
    /// A collection offer on `marketplace_name` written by `event`, with
    /// every column that the event data fills left empty; a deleted offer has
    /// no tokens left.
    pub fn build_default(marketplace_name: String, event: &EventModel, is_deleted: bool) -> (r: Self)
        ensures
            r.collection_offer_id@ == Seq::<char>::empty(),
            r.collection_id@ == Seq::<char>::empty(),
            r.token_data_id is None,
            r.buyer@ == Seq::<char>::empty(),
            r.price == 0,
            r.remaining_token_amount == (if is_deleted {
                Some(0i64)
            } else {
                None
            }),
            r.is_deleted == is_deleted,
            r.marketplace == marketplace_name,
            r.contract_address@ == event.account_address@,
            r.last_transaction_version == event.transaction_version,
            r.last_transaction_timestamp == event.block_timestamp,
    {
        CurrentNFTMarketplaceCollectionOffer {
            collection_offer_id: String::new(),
            collection_id: String::new(),
            token_data_id: None,
            buyer: String::new(),
            price: 0,
            remaining_token_amount: if is_deleted {
                Some(0)
            } else {
                None
            },
            is_deleted,
            marketplace: marketplace_name,
            contract_address: event.account_address.clone(),
            last_transaction_version: event.transaction_version,
            last_transaction_timestamp: event.block_timestamp,
        }
    }
}

/// The text columns of an activity that `set_field` fills from a value.
pub open spec fn activity_text_column(column: Seq<char>) -> bool {
    ||| column == "collection_id"@
    ||| column == "token_data_id"@
    ||| column == "token_name"@
    ||| column == "creator_address"@
    ||| column == "collection_name"@
    ||| column == "buyer"@
    ||| column == "seller"@
    ||| column == "expiration_time"@
    ||| column == "listing_id"@
    ||| column == "offer_id"@
}

/// A non-empty value written to a text column of an activity is what that
/// column then reads; an empty value changes nothing.
pub proof fn lemma_activity_set_get(a: NftMarketplaceActivityView, column: Seq<char>, value: Seq<char>)
    requires
        activity_text_column(column),
    ensures
        value.len() > 0 ==> NftMarketplaceActivity::column_text(
            NftMarketplaceActivity::with_column(a, column, value),
            column,
        ) == Some(value),
        value.len() == 0 ==> NftMarketplaceActivity::with_column(a, column, value) == a,
{
    reveal_strlit("collection_id");
    reveal_strlit("token_data_id");
    reveal_strlit("token_name");
    reveal_strlit("creator_address");
    reveal_strlit("collection_name");
    reveal_strlit("price");
    reveal_strlit("token_amount");
    reveal_strlit("buyer");
    reveal_strlit("seller");
    reveal_strlit("expiration_time");
    reveal_strlit("listing_id");
    reveal_strlit("offer_id");
    reveal_strlit("collection_offer_id");
    reveal_strlit("marketplace");
    reveal_strlit("contract_address");
    reveal_strlit("block_timestamp");
    assert("collection_id"@.len() == 13);
    assert("token_data_id"@.len() == 13);
    assert("token_name"@.len() == 10);
    assert("creator_address"@.len() == 15);
    assert("collection_name"@.len() == 15);
    assert("price"@.len() == 5);
    assert("token_amount"@.len() == 12);
    assert("buyer"@.len() == 5);
    assert("seller"@.len() == 6);
    assert("expiration_time"@.len() == 15);
    assert("listing_id"@.len() == 10);
    assert("offer_id"@.len() == 8);
    assert("collection_offer_id"@.len() == 19);
    assert("marketplace"@.len() == 11);
    assert("contract_address"@.len() == 16);
    assert("block_timestamp"@.len() == 15);
    assert("collection_id"@[0] != "token_data_id"@[0]);
    assert("token_name"@[0] != "listing_id"@[0]);
    assert("creator_address"@[1] != "collection_name"@[1]);
    assert("creator_address"@[0] != "expiration_time"@[0]);
    assert("creator_address"@[0] != "block_timestamp"@[0]);
    assert("collection_name"@[0] != "expiration_time"@[0]);
    assert("collection_name"@[0] != "block_timestamp"@[0]);
    assert("price"@[0] != "buyer"@[0]);
    assert("expiration_time"@[0] != "block_timestamp"@[0]);
}

/// Writing a text column of an activity leaves every other column reading as
/// before.
pub proof fn lemma_activity_set_frame(
    a: NftMarketplaceActivityView,
    column: Seq<char>,
    other: Seq<char>,
    value: Seq<char>,
)
    requires
        activity_text_column(column),
        other != column,
    ensures
        NftMarketplaceActivity::column_text(NftMarketplaceActivity::with_column(a, column, value), other)
            == NftMarketplaceActivity::column_text(a, other),
{
    reveal_strlit("collection_id");
    reveal_strlit("token_data_id");
    reveal_strlit("token_name");
    reveal_strlit("creator_address");
    reveal_strlit("collection_name");
    reveal_strlit("price");
    reveal_strlit("token_amount");
    reveal_strlit("buyer");
    reveal_strlit("seller");
    reveal_strlit("expiration_time");
    reveal_strlit("listing_id");
    reveal_strlit("offer_id");
    reveal_strlit("collection_offer_id");
    reveal_strlit("marketplace");
    reveal_strlit("contract_address");
    reveal_strlit("block_timestamp");
    assert("collection_id"@.len() == 13);
    assert("token_data_id"@.len() == 13);
    assert("token_name"@.len() == 10);
    assert("creator_address"@.len() == 15);
    assert("collection_name"@.len() == 15);
    assert("price"@.len() == 5);
    assert("token_amount"@.len() == 12);
    assert("buyer"@.len() == 5);
    assert("seller"@.len() == 6);
    assert("expiration_time"@.len() == 15);
    assert("listing_id"@.len() == 10);
    assert("offer_id"@.len() == 8);
    assert("collection_offer_id"@.len() == 19);
    assert("marketplace"@.len() == 11);
    assert("contract_address"@.len() == 16);
    assert("block_timestamp"@.len() == 15);
    assert("collection_id"@[0] != "token_data_id"@[0]);
    assert("token_name"@[0] != "listing_id"@[0]);
    assert("creator_address"@[1] != "collection_name"@[1]);
    assert("creator_address"@[0] != "expiration_time"@[0]);
    assert("creator_address"@[0] != "block_timestamp"@[0]);
    assert("collection_name"@[0] != "expiration_time"@[0]);
    assert("collection_name"@[0] != "block_timestamp"@[0]);
    assert("price"@[0] != "buyer"@[0]);
    assert("expiration_time"@[0] != "block_timestamp"@[0]);
}

/// Writing a column of an activity: an empty value changes nothing, whatever
/// the column; a price is written as its value when it is an `i64` and as 0
/// otherwise, every other field staying; a column the activity does not have
/// changes nothing.
pub proof fn lemma_activity_set_field(a: NftMarketplaceActivityView, column: Seq<char>, value: Seq<char>)
    ensures
        value.len() == 0 ==> NftMarketplaceActivity::with_column(a, column, value) == a,
        value.len() > 0 && column == "price"@ ==> NftMarketplaceActivity::with_column(a, column, value)
            == (NftMarketplaceActivityView {
            price: match parse_i64_spec(value) {
                Some(v) => v,
                None => 0,
            },
            ..a
        }),
        !activity_text_column(column) && column != "price"@ && column != "token_amount"@ && column
            != "collection_offer_id"@ ==> NftMarketplaceActivity::with_column(a, column, value) == a,
{
    reveal_strlit("collection_id");
    reveal_strlit("token_data_id");
    reveal_strlit("token_name");
    reveal_strlit("creator_address");
    reveal_strlit("collection_name");
    reveal_strlit("price");
    assert("collection_id"@.len() == 13);
    assert("token_data_id"@.len() == 13);
    assert("token_name"@.len() == 10);
    assert("creator_address"@.len() == 15);
    assert("collection_name"@.len() == 15);
    assert("price"@.len() == 5);
}

/// Writing a non-empty value to a text column of an activity: the column
/// then reads that value, every other text column reads as before, and
/// every other field keeps its value.
pub proof fn lemma_activity_set_text_column(a: NftMarketplaceActivityView, column: Seq<char>, value: Seq<char>)
    requires
        activity_text_column(column),
        value.len() > 0,
    ensures
        NftMarketplaceActivity::column_text(NftMarketplaceActivity::with_column(a, column, value), column)
            == Some(value),
        forall|other: Seq<char>|
            activity_text_column(other) && other != column ==> NftMarketplaceActivity::column_text(
                #[trigger] NftMarketplaceActivity::with_column(a, column, value),
                other,
            ) == NftMarketplaceActivity::column_text(a, other),
        ({
            let w = NftMarketplaceActivity::with_column(a, column, value);
            &&& w.txn_version == a.txn_version
            &&& w.index == a.index
            &&& w.raw_event_type == a.raw_event_type
            &&& w.standard_event_type == a.standard_event_type
            &&& w.price == a.price
            &&& w.token_amount == a.token_amount
            &&& w.json_data == a.json_data
            &&& w.marketplace == a.marketplace
            &&& w.contract_address == a.contract_address
            &&& w.block_timestamp == a.block_timestamp
        }),
{
    lemma_activity_set_get(a, column, value);
    assert forall|other: Seq<char>|
        activity_text_column(other) && other != column implies NftMarketplaceActivity::column_text(
        #[trigger] NftMarketplaceActivity::with_column(a, column, value),
        other,
    ) == NftMarketplaceActivity::column_text(a, other) by {
        lemma_activity_set_frame(a, column, other, value);
    }
    reveal_strlit("collection_id");
    reveal_strlit("token_data_id");
    reveal_strlit("token_name");
    reveal_strlit("creator_address");
    reveal_strlit("collection_name");
    reveal_strlit("price");
    reveal_strlit("token_amount");
    reveal_strlit("buyer");
    reveal_strlit("seller");
    reveal_strlit("expiration_time");
    reveal_strlit("listing_id");
    reveal_strlit("offer_id");
    assert("price"@.len() == 5);
    assert("token_amount"@.len() == 12);
    assert("collection_id"@.len() == 13);
    assert("token_data_id"@.len() == 13);
    assert("token_name"@.len() == 10);
    assert("creator_address"@.len() == 15);
    assert("collection_name"@.len() == 15);
    assert("buyer"@.len() == 5);
    assert("seller"@.len() == 6);
    assert("expiration_time"@.len() == 15);
    assert("listing_id"@.len() == 10);
    assert("offer_id"@.len() == 8);
    assert("price"@[0] != "buyer"@[0]);
    assert("token_amount"@[0] != "token_data_id"@[0] || "token_amount"@[6] != "token_data_id"@[6]);
}

} // verus!
