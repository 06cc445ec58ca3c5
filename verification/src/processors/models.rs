//! Marketplace activities read from events by the per-contract event
//! configurations.
use crate::convert::{standardize_address, standardized};
use crate::json::{json_get, json_parse, parse_json, JsonData, JsonValue};
use crate::models::Event;
use crate::processors::marketplace_config::{
    configs_view, contracts_view, event_type_name, mappings_view, MarketplaceEventConfig,
    MarketplaceEventConfigView,
};
use crate::processors::{
    opt_path_evaluable,
    decimal_text, extract_bigdecimal, extract_string, extracted_text,
};
use crate::str_map::StrMap;
use crate::text::{concat_str, str_to_string};
use crate::utils::BlockTimestamp;
use sha2::Digest;
use vstd::prelude::*;

verus! {

/// The lowercase hex text of the SHA-256 digest of the UTF-8 bytes of
/// `text`.
pub uninterp spec fn sha256_hex(text: Seq<char>) -> Seq<char>;

/// Hashes `text` with `sha2::Sha256` and writes the digest in lowercase hex
/// (`{:x}`). The contract names the result; SHA-256 itself is not stated
/// here, only that its 32-byte digest is written as 64 characters.
#[verifier::external_body]
fn sha256_hex_of(text: &str) -> (r: String)
    ensures
        r@ == sha256_hex(text@),
        r@.len() == 64,
{
    let mut hasher = sha2::Sha256::new();
    hasher.update(text.as_bytes());
    format!("{:x}", hasher.finalize())
}

/// A marketplace activity read from an event.
pub struct NftMarketplaceActivity {
    pub txn_version: i64,
    pub index: i64,
    pub raw_event_type: String,
    pub standard_event_type: String,
    pub creator_address: Option<String>,
    pub collection_id: Option<String>,
    pub collection_name: Option<String>,
    pub token_data_id: Option<String>,
    pub token_name: Option<String>,
    pub token_standard: Option<String>,
    /// The price, as decimal text.
    pub price: Option<String>,
    /// The token amount, as decimal text.
    pub token_amount: Option<String>,
    pub buyer: Option<String>,
    pub seller: Option<String>,
    pub deadline: Option<String>,
    pub json_data: JsonValue,
    pub marketplace: String,
    pub contract_address: String,
    pub entry_function_id_str: Option<String>,
    pub block_timestamp: BlockTimestamp,
}

/// An optional text by its content.
pub open spec fn opt_view(o: Option<String>) -> Option<Seq<char>> {
    match o {
        Some(s) => Some(s@),
        None => None,
    }
}

/// The plain content of a `NftMarketplaceActivity`.
pub struct NftMarketplaceActivityView {
    pub txn_version: i64,
    pub index: i64,
    pub raw_event_type: Seq<char>,
    pub standard_event_type: Seq<char>,
    pub creator_address: Option<Seq<char>>,
    pub collection_id: Option<Seq<char>>,
    pub collection_name: Option<Seq<char>>,
    pub token_data_id: Option<Seq<char>>,
    pub token_name: Option<Seq<char>>,
    pub token_standard: Option<Seq<char>>,
    pub price: Option<Seq<char>>,
    pub token_amount: Option<Seq<char>>,
    pub buyer: Option<Seq<char>>,
    pub seller: Option<Seq<char>>,
    pub deadline: Option<Seq<char>>,
    pub json_data: JsonData,
    pub marketplace: Seq<char>,
    pub contract_address: Seq<char>,
    pub entry_function_id_str: Option<Seq<char>>,
    pub block_timestamp: BlockTimestamp,
}

impl View for NftMarketplaceActivity {
    type V = NftMarketplaceActivityView;

    open spec fn view(&self) -> NftMarketplaceActivityView {
        NftMarketplaceActivityView {
            txn_version: self.txn_version,
            index: self.index,
            raw_event_type: self.raw_event_type@,
            standard_event_type: self.standard_event_type@,
            creator_address: opt_view(self.creator_address),
            collection_id: opt_view(self.collection_id),
            collection_name: opt_view(self.collection_name),
            token_data_id: opt_view(self.token_data_id),
            token_name: opt_view(self.token_name),
            token_standard: opt_view(self.token_standard),
            price: opt_view(self.price),
            token_amount: opt_view(self.token_amount),
            buyer: opt_view(self.buyer),
            seller: opt_view(self.seller),
            deadline: opt_view(self.deadline),
            json_data: self.json_data@,
            marketplace: self.marketplace@,
            contract_address: self.contract_address@,
            entry_function_id_str: opt_view(self.entry_function_id_str),
            block_timestamp: self.block_timestamp,
        }
    }
}

/// The id of a v1 token: the SHA-256 of `creator::collection::name` with
/// the creator standardized.
pub open spec fn v1_token_hash(creator: Seq<char>, collection: Seq<char>, name: Seq<char>) -> Seq<char> {
    sha256_hex(standardized(creator) + "::"@ + collection + "::"@ + name)
}

/// The id of a v1 collection: the SHA-256 of `creator::name` with the
/// creator standardized.
pub open spec fn v1_collection_hash(creator: Seq<char>, name: Seq<char>) -> Seq<char> {
    sha256_hex(standardized(creator) + "::"@ + name)
}

/// The token id of an event: the standardized inner token address for v2,
/// else the v1 hash when creator, collection and name are all known.
pub open spec fn token_data_id_of(
    config: MarketplaceEventConfigView,
    data: JsonData,
    creator: Option<Seq<char>>,
    collection: Option<Seq<char>>,
    name: Option<Seq<char>>,
) -> Option<Seq<char>> {
    match extracted_text(config.paths[9], data) {
        Some(inner) => Some(standardized(inner)),
        None => match (creator, collection, name) {
            (Some(c), Some(col), Some(n)) => Some(v1_token_hash(c, col, n)),
            _ => None,
        },
    }
}

/// The collection id of an event: the standardized inner collection address
/// for v2, else the v1 hash when creator and collection name are known.
pub open spec fn collection_id_of(
    config: MarketplaceEventConfigView,
    data: JsonData,
    creator: Option<Seq<char>>,
    collection: Option<Seq<char>>,
) -> Option<Seq<char>> {
    match extracted_text(config.paths[10], data) {
        Some(inner) => Some(standardized(inner)),
        None => match (creator, collection) {
            (Some(c), Some(col)) => Some(v1_collection_hash(c, col)),
            _ => None,
        },
    }
}

/// The token standard of event data: `v2` when it refers to token or
/// collection metadata or objects, else `v1`.
pub open spec fn token_standard_of(data: JsonData) -> Seq<char> {
    if json_get(data, "token_metadata"@) is Some || json_get(data, "collection_metadata"@) is Some
        || json_get(data, "collection"@) is Some || json_get(data, "token"@) is Some {
        "v2"@
    } else {
        "v1"@
    }
}

/// A standardized address, if there is one.
pub open spec fn standardized_opt(o: Option<Seq<char>>) -> Option<Seq<char>> {
    match o {
        Some(a) => Some(standardized(a)),
        None => None,
    }
}

/// The activity of an event read with `config`, its data `data`.
pub open spec fn activity_from(
    config: MarketplaceEventConfigView,
    data: JsonData,
    type_str: Seq<char>,
    txn_version: i64,
    event_index: i64,
    block_timestamp: BlockTimestamp,
    entry_function_id_str: Option<Seq<char>>,
) -> NftMarketplaceActivityView {
    let creator = extracted_text(config.paths[6], data);
    let collection_name = extracted_text(config.paths[5], data);
    let token_name = extracted_text(config.paths[0], data);
    NftMarketplaceActivityView {
        txn_version,
        index: event_index,
        raw_event_type: type_str,
        standard_event_type: event_type_name(config.event_type),
        creator_address: creator,
        collection_id: collection_id_of(config, data, creator, collection_name),
        collection_name,
        token_data_id: token_data_id_of(config, data, creator, collection_name, token_name),
        token_name,
        token_standard: Some(token_standard_of(data)),
        price: Some(decimal_text(config.paths[1], data)),
        token_amount: Some(decimal_text(config.paths[2], data)),
        buyer: standardized_opt(extracted_text(config.paths[4], data)),
        seller: standardized_opt(extracted_text(config.paths[3], data)),
        deadline: extracted_text(config.paths[8], data),
        json_data: data,
        marketplace: config.marketplace,
        contract_address: type_str,
        entry_function_id_str,
        block_timestamp,
    }
}

/// Whether the event's contract is a configured marketplace with event
/// mappings, so that its data is read.
pub open spec fn event_is_read(
    type_str: Seq<char>,
    mappings: Map<Seq<char>, Map<Seq<char>, MarketplaceEventConfigView>>,
    contracts: Map<Seq<char>, Seq<char>>,
) -> bool {
    contracts.contains_key(type_str) && mappings.contains_key(contracts[type_str])
}

/// Whether the evaluator can run every path that reading an event with
/// configuration `c` evaluates: every configured path but the collection
/// id's, which reading does not use.
pub open spec fn read_paths_evaluable(c: MarketplaceEventConfigView) -> bool {
    &&& opt_path_evaluable(c.paths[0])
    &&& opt_path_evaluable(c.paths[1])
    &&& opt_path_evaluable(c.paths[2])
    &&& opt_path_evaluable(c.paths[3])
    &&& opt_path_evaluable(c.paths[4])
    &&& opt_path_evaluable(c.paths[5])
    &&& opt_path_evaluable(c.paths[6])
    &&& opt_path_evaluable(c.paths[8])
    &&& opt_path_evaluable(c.paths[9])
    &&& opt_path_evaluable(c.paths[10])
}

/// Whether an event can be read: when its contract belongs to a configured
/// marketplace, its data is JSON, and when that marketplace configures its
/// type, the evaluator can run the paths that reading uses.
pub open spec fn event_readable(
    e: Event,
    mappings: Map<Seq<char>, Map<Seq<char>, MarketplaceEventConfigView>>,
    contracts: Map<Seq<char>, Seq<char>>,
) -> bool {
    let t = e.type_str@;
    event_is_read(t, mappings, contracts) ==> {
        &&& json_parse(e.data@) is Some
        &&& mappings[contracts[t]].contains_key(t) ==> read_paths_evaluable(mappings[contracts[t]][t])
    }
}

impl MarketplaceEventConfig {
    /// Whether the evaluator can run every path that reading an event with
    /// this configuration uses.
    pub fn can_read(&self) -> (r: bool)
        ensures
            r == read_paths_evaluable(self@),
    {
        self.token_name.is_evaluable() && self.price.is_evaluable() && self.token_amount.is_evaluable()
            && self.seller.is_evaluable() && self.buyer.is_evaluable() && self.collection_name.is_evaluable()
            && self.creator_address.is_evaluable() && self.deadline.is_evaluable()
            && self.token_inner.is_evaluable() && self.collection_inner.is_evaluable()
    }
}

/// The activity of an event, if its contract belongs to a marketplace and
/// that marketplace configures the event's type.
pub open spec fn activity_of(
    event: Event,
    txn_version: i64,
    event_index: i64,
    block_timestamp: BlockTimestamp,
    entry_function_id_str: Option<Seq<char>>,
    mappings: Map<Seq<char>, Map<Seq<char>, MarketplaceEventConfigView>>,
    contracts: Map<Seq<char>, Seq<char>>,
) -> Option<NftMarketplaceActivityView> {
    let t = event.type_str@;
    if !event_is_read(t, mappings, contracts) {
        None
    } else {
        let mapping = mappings[contracts[t]];
        if !mapping.contains_key(t) {
            None
        } else {
            Some(
                activity_from(
                    mapping[t],
                    json_parse(event.data@).unwrap(),
                    t,
                    txn_version,
                    event_index,
                    block_timestamp,
                    entry_function_id_str,
                ),
            )
        }
    }
}

/// A copy of an optional text.
fn copy_opt(o: &Option<String>) -> (r: Option<String>)
    ensures
        opt_view(r) == opt_view(*o),
{
    match o {
        Some(s) => Some(s.clone()),
        None => None,
    }
}

impl NftMarketplaceActivity {
    /// The activity of `event`, the `event_index`-th of transaction
    /// `txn_version`, if its contract (its type string) belongs to a
    /// marketplace whose mappings configure that type. The data of such an
    /// event must be JSON.
    pub fn from_event(
        event: &Event,
        txn_version: i64,
        event_index: i64,
        block_timestamp: BlockTimestamp,
        entry_function_id_str: &Option<String>,
        event_mappings: &StrMap<StrMap<MarketplaceEventConfig>>,
        contract_to_marketplace_map: &StrMap<String>,
    ) -> (r: Option<NftMarketplaceActivity>)
        requires
            event_mappings.wf(),
            forall|k: Seq<char>| #[trigger] event_mappings.view_map().contains_key(k) ==> event_mappings.view_map()[k].wf(),
            contract_to_marketplace_map.wf(),
            event_readable(*event, mappings_view(*event_mappings), contracts_view(*contract_to_marketplace_map)),
        ensures
            r matches Some(a) ==> activity_of(
                *event,
                txn_version,
                event_index,
                block_timestamp,
                opt_view(*entry_function_id_str),
                mappings_view(*event_mappings),
                contracts_view(*contract_to_marketplace_map),
            ) == Some(a@),
            r is None ==> activity_of(
                *event,
                txn_version,
                event_index,
                block_timestamp,
                opt_view(*entry_function_id_str),
                mappings_view(*event_mappings),
                contracts_view(*contract_to_marketplace_map),
            ) is None,
    {
        let contract_address = event.type_str.clone();
        let marketplace_name = match contract_to_marketplace_map.get(contract_address.as_str()) {
            Some(name) => name,
            None => return None,
        };
        let event_mapping = match event_mappings.get(marketplace_name.as_str()) {
            Some(m) => m,
            None => return None,
        };
        let event_data = match parse_json(event.data.as_str()) {
            Some(d) => d,
            None => {
                assert(false);
                return None;
            },
        };
        let config = match event_mapping.get(event.type_str.as_str()) {
            Some(c) => c,
            None => return None,
        };
        let ghost cv = config@;
        assert(read_paths_evaluable(cv));
        let creator_address = extract_string(&config.creator_address, &event_data);
        let price = extract_bigdecimal(&config.price, &event_data);
        let token_amount = extract_bigdecimal(&config.token_amount, &event_data);
        let collection_name = extract_string(&config.collection_name, &event_data);
        let token_name = extract_string(&config.token_name, &event_data);
        let deadline = extract_string(&config.deadline, &event_data);
        let token_data_id = Self::extract_token_data_id(
            config,
            &event_data,
            &creator_address,
            &collection_name,
            &token_name,
        );
        let collection_id = Self::extract_collection_id(
            config,
            &event_data,
            &creator_address,
            &collection_name,
            txn_version,
        );
        let buyer = match extract_string(&config.buyer, &event_data) {
            Some(b) => Some(standardize_address(b.as_str())),
            None => None,
        };
        let seller = match extract_string(&config.seller, &event_data) {
            Some(s) => Some(standardize_address(s.as_str())),
            None => None,
        };
        let token_standard = Some(Self::determine_token_standard(&event_data));
        let activity = NftMarketplaceActivity {
            txn_version,
            index: event_index,
            raw_event_type: event.type_str.clone(),
            standard_event_type: config.event_type.to_string(),
            creator_address,
            collection_id,
            collection_name,
            token_data_id,
            token_name,
            token_standard,
            price: Some(price),
            token_amount: Some(token_amount),
            buyer,
            seller,
            deadline,
            json_data: event_data,
            marketplace: config.marketplace.clone(),
            contract_address,
            entry_function_id_str: copy_opt(entry_function_id_str),
            block_timestamp,
        };
        Some(activity)
    }

    /// The token id of an event (see `token_data_id_of`).
    fn extract_token_data_id(
        config: &MarketplaceEventConfig,
        event_data: &JsonValue,
        creator_address: &Option<String>,
        collection_name: &Option<String>,
        token_name: &Option<String>,
    ) -> (r: Option<String>)
        requires
        opt_path_evaluable(config@.paths[9]),
    ensures
            opt_view(r) == token_data_id_of(
                config@,
                event_data@,
                opt_view(*creator_address),
                opt_view(*collection_name),
                opt_view(*token_name),
            ),
    {
        if let Some(inner) = extract_string(&config.token_inner, event_data) {
            return Some(standardize_address(inner.as_str()));
        }
        match (creator_address, collection_name, token_name) {
            (Some(c), Some(col), Some(n)) => {
                let creator = standardize_address(c.as_str());
                let a = concat_str(creator.as_str(), "::");
                let b = concat_str(a.as_str(), col.as_str());
                let d = concat_str(b.as_str(), "::");
                let e = concat_str(d.as_str(), n.as_str());
                Some(sha256_hex_of(e.as_str()))
            },
            _ => None,
        }
    }

    /// The collection id of an event (see `collection_id_of`).
    fn extract_collection_id(
        config: &MarketplaceEventConfig,
        event_data: &JsonValue,
        creator_address: &Option<String>,
        collection_name: &Option<String>,
        txn_version: i64,
    ) -> (r: Option<String>)
        requires
        opt_path_evaluable(config@.paths[10]),
    ensures
            opt_view(r) == collection_id_of(
                config@,
                event_data@,
                opt_view(*creator_address),
                opt_view(*collection_name),
            ),
    {
        if let Some(inner) = extract_string(&config.collection_inner, event_data) {
            return Some(standardize_address(inner.as_str()));
        }
        match (creator_address, collection_name) {
            (Some(c), Some(col)) => {
                let creator = standardize_address(c.as_str());
                let a = concat_str(creator.as_str(), "::");
                let b = concat_str(a.as_str(), col.as_str());
                Some(sha256_hex_of(b.as_str()))
            },
            _ => None,
        }
    }

    /// The token standard of event data (see `token_standard_of`).
    fn determine_token_standard(event_data: &JsonValue) -> (r: String)
        ensures
            r@ == token_standard_of(event_data@),
    {
        if event_data.get("token_metadata").is_some() || event_data.get("collection_metadata").is_some()
            || event_data.get("collection").is_some() || event_data.get("token").is_some() {
            str_to_string("v2")
        } else {
            str_to_string("v1")
        }
    }
}

/// An activity is of token standard v2 exactly when its event data has a
/// top-level `token_metadata`, `collection_metadata`, `collection` or
/// `token` member, and of v1 otherwise.
pub proof fn lemma_activity_token_standard(
    event: Event,
    txn_version: i64,
    event_index: i64,
    block_timestamp: BlockTimestamp,
    entry_function_id_str: Option<Seq<char>>,
    mappings: Map<Seq<char>, Map<Seq<char>, MarketplaceEventConfigView>>,
    contracts: Map<Seq<char>, Seq<char>>,
)
    requires
        activity_of(event, txn_version, event_index, block_timestamp, entry_function_id_str, mappings, contracts)
            is Some,
    ensures
        ({
            let a = activity_of(
                event,
                txn_version,
                event_index,
                block_timestamp,
                entry_function_id_str,
                mappings,
                contracts,
            )->Some_0;
            let data = json_parse(event.data@)->Some_0;
            &&& json_get(data, "token_metadata"@) is Some ==> a.token_standard == Some("v2"@)
            &&& json_get(data, "collection_metadata"@) is Some ==> a.token_standard == Some("v2"@)
            &&& json_get(data, "collection"@) is Some ==> a.token_standard == Some("v2"@)
            &&& json_get(data, "token"@) is Some ==> a.token_standard == Some("v2"@)
            &&& (json_get(data, "token_metadata"@) is None && json_get(data, "collection_metadata"@) is None
                && json_get(data, "collection"@) is None && json_get(data, "token"@) is None)
                ==> a.token_standard == Some("v1"@)
        }),
{
}

} // verus!
