use nft_aggregator::config::marketplace_config::{
    DbColumn, EventRemapping, MarketplaceEventType, NFTMarketplaceConfig, ResourceRemapping,
};
use nft_aggregator::error::IndexerError;
use nft_aggregator::models::transaction::{
    Change, Transaction, TransactionInfo, TxnData, UserTransaction, WriteResource, WriteSetChange,
};
use nft_aggregator::models::nft_models::{
    CurrentNFTMarketplaceCollectionOffer, CurrentNFTMarketplaceListing, CurrentNFTMarketplaceTokenOffer,
};
use nft_aggregator::models::{Event, EventKey};
use nft_aggregator::steps::db_writing_step::prepare_batch;
use nft_aggregator::steps::reduction_step::NFTReductionStep;
use nft_aggregator::steps::remapper_step::ProcessStep;
use nft_aggregator::str_map::StrMap;
use nft_aggregator::utils::{BlockTimestamp, Timestamp};

const LISTING_EVENT: &str = "0xabc::listing::ListingPlacedEvent";
const LISTING_RESOURCE: &str = "0xabc::listing::Listing";

fn token() -> String {
    format!("0x{}", "7".repeat(64))
}

fn col(table: &str, column: &str) -> DbColumn {
    DbColumn { table: table.to_string(), column: column.to_string() }
}

fn config(price_path: &str) -> NFTMarketplaceConfig {
    let mut fields: StrMap<Vec<DbColumn>> = StrMap::new();
    fields.insert(
        price_path.to_string(),
        vec![col("nft_marketplace_activities", "price"), col("current_nft_marketplace_listings", "price")],
    );
    fields.insert(
        "$.token".to_string(),
        vec![col("nft_marketplace_activities", "token_data_id"), col("current_nft_marketplace_listings", "token_data_id")],
    );
    let mut events: StrMap<EventRemapping> = StrMap::new();
    events.insert(LISTING_EVENT.to_string(), EventRemapping { event_fields: fields });
    let mut resource_fields: StrMap<Vec<DbColumn>> = StrMap::new();
    resource_fields.insert(
        "$.seller".to_string(),
        vec![col("current_nft_marketplace_listings", "seller"), col("nft_marketplace_activities", "seller")],
    );
    let mut resources: StrMap<ResourceRemapping> = StrMap::new();
    resources.insert(LISTING_RESOURCE.to_string(), ResourceRemapping { resource_fields });
    let mut mapping: StrMap<MarketplaceEventType> = StrMap::new();
    mapping.insert(LISTING_EVENT.to_string(), MarketplaceEventType::PlaceListing);
    NFTMarketplaceConfig { name: "tradeport".to_string(), event_model_mapping: mapping, events, resources }
}

fn listing_txn(version: u64, price: &str) -> Transaction {
    let data = format!("{{\"price\":\"{}\",\"token\":\"{}\"}}", price, token());
    Transaction {
        version,
        block_height: 10,
        timestamp: Some(Timestamp { seconds: 1_700_000_000, nanos: 0 }),
        txn_data: Some(TxnData::User(UserTransaction {
            request: None,
            events: vec![Event {
                key: Some(EventKey { creation_number: 0, account_address: "0xabc".to_string() }),
                sequence_number: 0,
                type_str: LISTING_EVENT.to_string(),
                data,
            }],
        })),
        info: Some(TransactionInfo {
            changes: vec![WriteSetChange {
                change: Some(Change::WriteResource(WriteResource {
                    address: token(),
                    type_str: LISTING_RESOURCE.to_string(),
                    data: "{\"seller\":\"0x8\"}".to_string(),
                })),
            }],
        }),
    }
}

#[test]
fn a_listing_goes_through_the_pipeline() {
    let mut step = ProcessStep::new(config("$.price")).ok().unwrap();
    let (groups, listings, token_offers, collection_offers, updates) =
        step.process(vec![listing_txn(100, "1000")]).ok().unwrap();
    assert_eq!(listings.len(), 1);
    assert_eq!(listings[0].token_data_id, token());
    assert_eq!(listings[0].price, 1000);
    assert_eq!(listings[0].marketplace, "tradeport");
    assert_eq!(listings[0].last_transaction_version, 100);
    assert_eq!(listings[0].seller, "");
    assert!(token_offers.is_empty());
    assert!(collection_offers.is_empty());
    assert_eq!(updates.len(), 1);

    let mut reduction = NFTReductionStep::new();
    let (activities, listings, token_offers, collection_offers) =
        reduction.process((groups, listings, token_offers, collection_offers, updates));
    assert_eq!(activities.len(), 1);
    assert_eq!(activities[0].txn_version, 100);
    assert_eq!(activities[0].price, 1000);
    assert_eq!(activities[0].standard_event_type, MarketplaceEventType::PlaceListing);
    assert_eq!(activities[0].raw_event_type, format!("0x{}abc::listing::ListingPlacedEvent", "0".repeat(61)));
    assert_eq!(activities[0].seller, Some("0x8".to_string()));
    assert_eq!(listings.len(), 1);
    assert_eq!(listings[0].seller, "0x8");

    let (activities, listings, _, _) = prepare_batch((activities, listings, token_offers, collection_offers));
    assert_eq!(activities.len(), 1);
    assert_eq!(listings.len(), 1);
}

#[test]
fn the_last_listing_of_a_token_is_kept() {
    let mut step = ProcessStep::new(config("$.price")).ok().unwrap();
    let (groups, listings, token_offers, collection_offers, updates) =
        step.process(vec![listing_txn(100, "1000"), listing_txn(101, "900")]).ok().unwrap();
    assert_eq!(listings.len(), 2);
    let mut reduction = NFTReductionStep::new();
    let (activities, listings, token_offers, collection_offers) =
        reduction.process((groups, listings, token_offers, collection_offers, updates));
    assert_eq!(activities.len(), 2);
    assert_eq!(activities[0].txn_version, 100);
    assert_eq!(activities[1].txn_version, 101);
    assert_eq!(listings.len(), 1);
    assert_eq!(listings[0].price, 900);
    assert_eq!(listings[0].last_transaction_version, 101);
    let (activities, listings, _, _) = prepare_batch((activities, listings, token_offers, collection_offers));
    assert_eq!(activities.len(), 2);
    assert_eq!(listings.len(), 1);
    assert_eq!(listings[0].price, 900);
}

#[test]
fn a_bad_path_refuses_the_step() {
    assert!(matches!(ProcessStep::new(config("$[")), Err(IndexerError::InvalidJsonPath(p)) if p == "$["));
}

#[test]
fn a_missing_path_fails_the_batch() {
    let mut step = ProcessStep::new(config("$.missing")).ok().unwrap();
    assert!(matches!(step.process(vec![listing_txn(100, "1000")]), Err(IndexerError::NoJsonPathMatch(_))));
}

#[test]
fn a_transaction_without_data_fails_the_batch() {
    let mut step = ProcessStep::new(config("$.price")).ok().unwrap();
    let mut txn = listing_txn(100, "1000");
    txn.txn_data = None;
    assert!(matches!(step.process(vec![txn]), Err(IndexerError::MissingTransactionData)));
}

#[test]
fn an_unknown_table_fails_the_batch() {
    let mut cfg = config("$.price");
    let mut fields: StrMap<Vec<DbColumn>> = StrMap::new();
    fields.insert("$.price".to_string(), vec![col("nowhere", "price")]);
    cfg.events.insert(LISTING_EVENT.to_string(), EventRemapping { event_fields: fields });
    let mut step = ProcessStep::new(cfg).ok().unwrap();
    assert!(matches!(step.process(vec![listing_txn(100, "1000")]), Err(IndexerError::UnknownTable(t)) if t == "nowhere"));
}

#[test]
fn an_event_key_that_is_not_a_struct_type_refuses_the_step() {
    let mut cfg = config("$.price");
    let fields: StrMap<Vec<DbColumn>> = StrMap::new();
    cfg.events.insert("0xabc".to_string(), EventRemapping { event_fields: fields });
    assert!(matches!(ProcessStep::new(cfg), Err(IndexerError::UnsupportedEventType(t)) if t == "0xabc"));
}

#[test]
fn a_user_transaction_without_info_fails_the_batch() {
    let mut step = ProcessStep::new(config("$.price")).ok().unwrap();
    let mut txn = listing_txn(100, "1000");
    txn.info = None;
    assert!(matches!(step.process(vec![txn]), Err(IndexerError::MissingTransactionInfo)));
}

#[test]
fn a_batch_with_an_unreadable_timestamp_is_not_remapped() {
    let mut step = ProcessStep::new(config("$.price")).ok().unwrap();
    let mut txn = listing_txn(100, "1000");
    txn.timestamp = Some(Timestamp { seconds: 1, nanos: 2_000_000_000 });
    assert!(step.process_checked(vec![listing_txn(99, "1"), txn]).is_none());
    let mut untimed = listing_txn(100, "1000");
    untimed.timestamp = None;
    assert!(step.process_checked(vec![untimed]).is_none());
    let ok = step.process_checked(vec![listing_txn(100, "1000")]).unwrap().ok().unwrap();
    assert_eq!(ok.1.len(), 1);
}

#[test]
fn events_without_remappings_are_skipped() {
    let mut step = ProcessStep::new(config("$.price")).ok().unwrap();
    let mut txn = listing_txn(100, "1000");
    if let Some(TxnData::User(u)) = &mut txn.txn_data {
        u.events[0].type_str = "0xabc::listing::Unrelated".to_string();
    }
    let (groups, listings, _, _, updates) = step.process(vec![txn]).ok().unwrap();
    assert!(listings.is_empty());
    assert!(groups.into_activities().is_empty());
    assert_eq!(updates.len(), 1);
}

#[test]
fn prepared_rows_are_prepared_again_unchanged() {
    let mut step = ProcessStep::new(config("$.price")).ok().unwrap();
    let (groups, listings, token_offers, collection_offers, updates) = step
        .process(vec![listing_txn(101, "900"), listing_txn(100, "1000"), listing_txn(101, "800")])
        .ok()
        .unwrap();
    let mut reduction = NFTReductionStep::new();
    let reduced = reduction.process((groups, listings, token_offers, collection_offers, updates));
    let once = prepare_batch(reduced);
    let keys: Vec<(i64, i64, i64)> = once.0.iter().map(|a| (a.txn_version, a.index, a.price)).collect();
    assert_eq!(keys, vec![(100, 0, 1000), (101, 0, 800)]);
    let listing_prices: Vec<i64> = once.1.iter().map(|l| l.price).collect();
    let twice = prepare_batch(once);
    let again: Vec<(i64, i64, i64)> = twice.0.iter().map(|a| (a.txn_version, a.index, a.price)).collect();
    assert_eq!(again, keys);
    assert_eq!(twice.1.iter().map(|l| l.price).collect::<Vec<i64>>(), listing_prices);
}

#[test]
fn a_path_the_evaluator_cannot_run_fails_the_batch_that_reaches_it() {
    let mut step = ProcessStep::new(config("$.a[::0]")).ok().unwrap();
    assert!(matches!(step.process(vec![listing_txn(100, "1000")]), Err(IndexerError::UnevaluableJsonPath(p)) if p == "$.a[::0]"));
    let mut other = ProcessStep::new(config("$.a[-1,2]")).ok().unwrap();
    let mut txn = listing_txn(100, "1000");
    if let Some(TxnData::User(u)) = &mut txn.txn_data {
        u.events[0].type_str = "0xabc::listing::Unrelated".to_string();
    }
    assert!(other.process(vec![txn]).is_ok());
}

#[test]
fn an_event_without_a_key_is_skipped() {
    let mut step = ProcessStep::new(config("$.price")).ok().unwrap();
    let mut txn = listing_txn(100, "1000");
    if let Some(TxnData::User(u)) = &mut txn.txn_data {
        let broken = Event { key: None, sequence_number: 1, type_str: LISTING_EVENT.to_string(), data: "{}".to_string() };
        let garbled = Event {
            key: Some(EventKey { creation_number: 0, account_address: "0xabc".to_string() }),
            sequence_number: 2,
            type_str: LISTING_EVENT.to_string(),
            data: "{oops".to_string(),
        };
        u.events.insert(0, broken);
        u.events.push(garbled);
    }
    let (groups, listings, _, _, _) = step.process(vec![txn]).ok().unwrap();
    let activities = groups.into_activities();
    assert_eq!(activities.len(), 1);
    assert_eq!(activities[0].index, 1);
    assert_eq!(listings.len(), 1);
    assert_eq!(listings[0].price, 1000);
}

#[test]
fn the_last_row_per_key_is_written_in_key_order() {
    let t = BlockTimestamp::new(1_700_000_000, 0).unwrap();
    let listing = |token: &str, price: i64| CurrentNFTMarketplaceListing {
        token_data_id: token.to_string(),
        listing_id: None,
        collection_id: None,
        seller: "0x1".to_string(),
        price,
        token_amount: 1,
        is_deleted: false,
        marketplace: "m".to_string(),
        contract_address: "0x2".to_string(),
        last_transaction_version: price,
        last_transaction_timestamp: t.clone(),
    };
    let offer = |id: &str, price: i64| CurrentNFTMarketplaceCollectionOffer {
        collection_offer_id: id.to_string(),
        collection_id: "c".to_string(),
        token_data_id: None,
        buyer: "0x3".to_string(),
        price,
        remaining_token_amount: Some(1),
        is_deleted: false,
        marketplace: "m".to_string(),
        contract_address: "0x2".to_string(),
        last_transaction_version: price,
        last_transaction_timestamp: t.clone(),
    };
    let token_offer = |token: &str, buyer: &str, price: i64| CurrentNFTMarketplaceTokenOffer {
        token_data_id: token.to_string(),
        offer_id: None,
        buyer: buyer.to_string(),
        collection_id: "c".to_string(),
        price,
        token_amount: Some(1),
        token_name: None,
        is_deleted: false,
        marketplace: "m".to_string(),
        contract_address: "0x2".to_string(),
        last_transaction_version: price,
        last_transaction_timestamp: t.clone(),
    };
    let (_, listings, token_offers, offers) = prepare_batch((
        vec![],
        vec![listing("0xb", 1), listing("0xa", 2), listing("0xb", 3), listing("0xc", 4), listing("0xa", 5)],
        vec![
            token_offer("0xb", "0x9", 1),
            token_offer("0xa", "0x9", 2),
            token_offer("0xb", "0x8", 3),
            token_offer("0xb", "0x9", 4),
        ],
        vec![offer("o2", 10), offer("o1", 20), offer("o2", 30)],
    ));
    let kept_token_offers: Vec<(String, String, i64)> =
        token_offers.iter().map(|o| (o.token_data_id.clone(), o.buyer.clone(), o.price)).collect();
    assert_eq!(
        kept_token_offers,
        vec![
            ("0xa".to_string(), "0x9".to_string(), 2),
            ("0xb".to_string(), "0x8".to_string(), 3),
            ("0xb".to_string(), "0x9".to_string(), 4)
        ]
    );
    let kept: Vec<(String, i64)> = listings.iter().map(|l| (l.token_data_id.clone(), l.price)).collect();
    assert_eq!(kept, vec![("0xa".to_string(), 5), ("0xb".to_string(), 3), ("0xc".to_string(), 4)]);
    let kept_offers: Vec<(String, i64)> = offers.iter().map(|o| (o.collection_offer_id.clone(), o.price)).collect();
    assert_eq!(kept_offers, vec![("o1".to_string(), 20), ("o2".to_string(), 30)]);
}
