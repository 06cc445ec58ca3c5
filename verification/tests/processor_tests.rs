use nft_aggregator::error::IndexerError;
use nft_aggregator::json::{JsonNumber, JsonValue};
use nft_aggregator::models::transaction::{Transaction, TransactionInfo, TxnData, UserTransaction, UserTransactionRequest};
use nft_aggregator::models::{Event, EventKey};
use nft_aggregator::processors::marketplace_config::{
    CollectionEventParams, CollectionOfferConfig, EventConfig, ListingConfig, MarketplaceConfig,
    MarketplaceEventType, NFTMarketplaceConfigs, OfferConfig,
};
use nft_aggregator::processors::processor::{processable_txn, ProcessStep};
use nft_aggregator::processors::{extract_bigdecimal, extract_string, HashableJsonPath};
use nft_aggregator::utils::Timestamp;

fn p(x: &str) -> Option<String> {
    Some(x.to_string())
}

fn params(event_type: &str) -> CollectionEventParams {
    CollectionEventParams { event_type: event_type.to_string(), collection_name: None, creator_address: None }
}

fn configs(price_path: &str) -> NFTMarketplaceConfigs {
    NFTMarketplaceConfigs {
        marketplace_configs: vec![MarketplaceConfig {
            marketplace_name: "topaz".to_string(),
            event_config: EventConfig {
                creator_address: p("$.creator"),
                collection_id: None,
                token_data_id: None,
                token_name: p("$.name"),
                price: p(price_path),
                token_amount: None,
                buyer: None,
                seller: p("$.seller"),
                collection_name: p("$.collection_name"),
                deadline: None,
                token_inner: p("$.token.inner"),
                collection_inner: None,
            },
            listing_config: ListingConfig {
                cancel_event: "0xabc::m::ListingCanceled".to_string(),
                fill_event: "0xabc::m::ListingFilled".to_string(),
                place_event: "0xabc::m::ListingPlaced".to_string(),
                collection_name: None,
                buyer: None,
                seller: None,
            },
            offer_config: OfferConfig {
                cancel_event: "0xabc::m::OfferCanceled".to_string(),
                fill_event: "0xabc::m::OfferFilled".to_string(),
                place_event: "0xabc::m::OfferPlaced".to_string(),
                buyer: p("$.buyer"),
                seller: None,
            },
            collection_offer_config: CollectionOfferConfig {
                cancel_event: params("0xabc::m::CollectionOfferCanceled"),
                fill_event: params("0xabc::m::CollectionOfferFilled"),
                place_event: params("0xabc::m::CollectionOfferPlaced"),
                deadline: None,
            },
        }],
    }
}

fn txn(version: u64, events: Vec<(&str, &str)>) -> Transaction {
    Transaction {
        version,
        block_height: 1,
        timestamp: Some(Timestamp { seconds: 1_700_000_000, nanos: 5 }),
        txn_data: Some(TxnData::User(UserTransaction {
            request: Some(UserTransactionRequest { entry_function_id_str: p("0xabc::m::list"), payload: None }),
            events: events
                .into_iter()
                .map(|(t, d)| Event {
                    key: Some(EventKey { creation_number: 1, account_address: "0xabc".to_string() }),
                    sequence_number: 0,
                    type_str: t.to_string(),
                    data: d.to_string(),
                })
                .collect(),
        })),
        info: Some(TransactionInfo { changes: vec![] }),
    }
}

#[test]
fn event_mappings_of_a_marketplace() {
    let (mappings, contracts) = configs("$.price").get_event_mappings().ok().unwrap();
    assert_eq!(contracts.len(), 9);
    assert_eq!(contracts.get("0xabc::m::OfferFilled").unwrap(), "topaz");
    let topaz = mappings.get("topaz").unwrap();
    assert_eq!(topaz.len(), 9);
    let fill = topaz.get("0xabc::m::OfferFilled").unwrap();
    assert_eq!(fill.event_type.as_str(), "fill_offer");
    assert_eq!(fill.buyer.raw(), Some("$.buyer"));
    assert_eq!(topaz.get("0xabc::m::ListingPlaced").unwrap().buyer.raw(), None);
    assert_eq!(MarketplaceEventType::from_str("place_collection_offer").map(|t| t.as_str()), Ok("place_collection_offer"));
    assert!(MarketplaceEventType::from_str("place_token_offer").is_err());
}

#[test]
fn event_mappings_refuse_a_bad_path() {
    assert!(matches!(configs("$[").get_event_mappings(), Err(IndexerError::InvalidJsonPath(x)) if x == "$["));
}

#[test]
fn activities_of_a_batch() {
    let (mappings, contracts) = configs("$.price").get_event_mappings().ok().unwrap();
    let step = ProcessStep::new(mappings, contracts, ());
    let batch = vec![
        txn(
            7,
            vec![
                ("0xabc::m::ListingPlaced", "{\"price\":\"1500\",\"seller\":\"0x5\",\"token\":{\"inner\":\"0x6\"}}"),
                ("0x1::coin::Withdraw", "not json"),
                ("0xabc::m::ListingFilled", "{\"price\":\"10\",\"creator\":\"0x1\",\"collection_name\":\"col\",\"name\":\"tok\"}"),
            ],
        ),
        txn(3, vec![("0xabc::m::OfferPlaced", "{\"price\":\"2\",\"buyer\":\"0x9\",\"token\":{\"inner\":\"0x6\"}}")]),
    ];
    assert!(batch.iter().all(processable_txn));
    let acts = step.process_checked(batch).unwrap();
    assert_eq!(acts.len(), 3);
    assert_eq!((acts[0].txn_version, acts[0].index), (3, 0));
    assert_eq!(acts[0].standard_event_type, "place_offer");
    assert_eq!(acts[0].buyer, Some(format!("0x{}9", "0".repeat(63))));
    assert_eq!((acts[1].txn_version, acts[1].index), (7, 0));
    assert_eq!(acts[1].price, p("1500"));
    assert_eq!(acts[1].seller, Some(format!("0x{}5", "0".repeat(63))));
    assert_eq!(acts[1].token_data_id, Some(format!("0x{}6", "0".repeat(63))));
    assert_eq!(acts[1].token_standard, p("v2"));
    assert_eq!(acts[1].marketplace, "topaz");
    assert_eq!(acts[1].contract_address, "0xabc::m::ListingPlaced");
    assert_eq!(acts[1].entry_function_id_str, p("0xabc::m::list"));
    assert_eq!((acts[2].txn_version, acts[2].index), (7, 2));
    assert_eq!(acts[2].standard_event_type, "fill_listing");
    assert_eq!(
        acts[2].token_data_id,
        p("a45a61020fbbad4ab2fdbcccb4d3d3c88cf5d2137b5ab9074c7e0e69600b7b98")
    );
    assert_eq!(
        acts[2].collection_id,
        p("a96b3f15defd5ddb3039e638f07c534682c4efaf100f669ffb3959411868e76c")
    );
    assert_eq!(acts[2].token_standard, p("v1"));
    assert_eq!(acts[2].token_amount, p("0"));
}

#[test]
fn a_batch_with_unreadable_data_is_refused() {
    let (mappings, contracts) = configs("$.price").get_event_mappings().ok().unwrap();
    let step = ProcessStep::new(mappings, contracts, ());
    let batch = vec![txn(1, vec![("0xabc::m::ListingPlaced", "{not json")])];
    assert!(step.process_checked(batch).is_none());
    let mut no_request = txn(2, vec![]);
    if let Some(TxnData::User(u)) = &mut no_request.txn_data {
        u.request = None;
    }
    assert!(!processable_txn(&no_request));
    assert!(step.process_checked(vec![no_request]).is_none());
}

#[test]
fn single_path_extraction() {
    let data = JsonValue::Object(vec![
        ("price".to_string(), JsonValue::Str("12.5".to_string())),
        ("count".to_string(), JsonValue::Number(JsonNumber::PosInt(3))),
        ("bad".to_string(), JsonValue::Str("x1".to_string())),
    ]);
    let price = HashableJsonPath::new(p("$.price")).ok().unwrap();
    assert_eq!(extract_string(&price, &data), p("12.5"));
    assert_eq!(extract_bigdecimal(&price, &data), "12.5");
    let count = HashableJsonPath::new(p("$.count")).ok().unwrap();
    assert_eq!(extract_string(&count, &data), None);
    let bad = HashableJsonPath::new(p("$.bad")).ok().unwrap();
    assert_eq!(extract_bigdecimal(&bad, &data), "0");
    let none = HashableJsonPath::new(None).ok().unwrap();
    assert_eq!(none.raw(), None);
    assert_eq!(extract_string(&none, &data), None);
    assert_eq!(extract_bigdecimal(&none, &data), "0");
    assert!(matches!(HashableJsonPath::new(p("$[")), Err(IndexerError::InvalidJsonPath(x)) if x == "$["));
}

#[test]
fn processor_event_type_names_round_trip() {
    let all = [
        MarketplaceEventType::PlaceListing,
        MarketplaceEventType::CancelListing,
        MarketplaceEventType::FillListing,
        MarketplaceEventType::PlaceOffer,
        MarketplaceEventType::CancelOffer,
        MarketplaceEventType::FillOffer,
        MarketplaceEventType::PlaceCollectionOffer,
        MarketplaceEventType::CancelCollectionOffer,
        MarketplaceEventType::FillCollectionOffer,
    ];
    for t in all {
        assert_eq!(MarketplaceEventType::from_str(t.as_str()).map(|u| u.as_str()), Ok(t.as_str()));
        assert_eq!(t.to_string(), t.as_str());
    }
    assert!(MarketplaceEventType::from_str("unknown").is_err());
}

#[test]
fn a_path_the_evaluator_cannot_run_is_built_but_not_read() {
    let (mappings, contracts) = configs("$.prices[::0]").get_event_mappings().ok().unwrap();
    assert!(HashableJsonPath::new(None).is_ok());
    assert!(HashableJsonPath::new(p("$[-2,1]")).is_ok());
    let step = ProcessStep::new(mappings, contracts, ());
    let quiet = vec![txn(5, vec![("0x1::coin::Withdraw", "{}")])];
    assert_eq!(step.process_checked(quiet).unwrap().len(), 0);
    let read = vec![txn(6, vec![("0xabc::m::ListingPlaced", "{\"price\":\"1\"}")])];
    assert!(step.process_checked(read).is_none());
}
