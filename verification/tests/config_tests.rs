use nft_aggregator::config::marketplace_config::{EventType, MarketplaceEventType};
use nft_aggregator::config::table_mappings::{
    ColumnConfig, EventType as KindEvents, MarketplaceConfig, NFTMarketplaceConfigs, TableConfig,
};
use nft_aggregator::convert::standardize_address;
use nft_aggregator::error::IndexerError;
use nft_aggregator::json::JsonValue;
use nft_aggregator::models::nft_models::NftMarketplaceActivity;
use nft_aggregator::models::transaction::{
    Change, Transaction, TransactionInfo, TxnData, UserTransaction, WriteResource, WriteSetChange,
};
use nft_aggregator::steps::remappers::table_resource_remapper::ResourceMapper;
use nft_aggregator::str_map::StrMap;
use nft_aggregator::utils::BlockTimestamp;
use nft_aggregator::steps::remappers::table_resource_remapper::determine_table_from_event_type;

#[test]
fn event_type_names_round_trip() {
    let all = [
        MarketplaceEventType::PlaceListing,
        MarketplaceEventType::CancelListing,
        MarketplaceEventType::FillListing,
        MarketplaceEventType::PlaceTokenOffer,
        MarketplaceEventType::CancelTokenOffer,
        MarketplaceEventType::FillTokenOffer,
        MarketplaceEventType::PlaceCollectionOffer,
        MarketplaceEventType::CancelCollectionOffer,
        MarketplaceEventType::FillCollectionOffer,
        MarketplaceEventType::Unknown,
    ];
    for t in all {
        assert_eq!(MarketplaceEventType::from_str(t.as_str()), Ok(t));
    }
    assert_eq!(MarketplaceEventType::PlaceListing.to_string(), "place_listing");
    assert_eq!(MarketplaceEventType::from_str("fill_collection_offer"), Ok(MarketplaceEventType::FillCollectionOffer));
    assert_eq!(MarketplaceEventType::from_str("PlaceListing"), Err(()));
    assert_eq!(MarketplaceEventType::default(), MarketplaceEventType::Unknown);
}

#[test]
fn event_type_parses_address_module_struct() {
    let e = EventType::try_from("0x1::coin::DepositEvent").unwrap();
    assert_eq!(
        e.get_address(),
        "0x0000000000000000000000000000000000000000000000000000000000000001"
    );
    assert_eq!(e.get_module(), "coin");
    assert_eq!(e.get_struct(), "DepositEvent");
    assert!(e.is_framework_event());
    let nested = EventType::try_from("0xabc::market::Listed<0x1::aptos_coin::AptosCoin>").unwrap();
    assert_eq!(nested.get_module(), "market");
    assert_eq!(nested.get_struct(), "Listed<0x1::aptos_coin::AptosCoin>");
    let other = EventType::try_from("0xabc::market::Listed").unwrap();
    assert!(!other.is_framework_event());
}

#[test]
fn event_type_refuses_plain_values() {
    assert_eq!(
        EventType::try_from("address"),
        Err(IndexerError::UnsupportedEventType("address".to_string()))
    );
    assert!(EventType::try_from("0x1::coin").is_err());
}

#[test]
fn event_types_map_to_their_tables() {
    assert_eq!(
        determine_table_from_event_type(&MarketplaceEventType::FillListing),
        "current_nft_marketplace_listings"
    );
    assert_eq!(
        determine_table_from_event_type(&MarketplaceEventType::CancelTokenOffer),
        "current_nft_marketplace_token_offers"
    );
    assert_eq!(
        determine_table_from_event_type(&MarketplaceEventType::PlaceCollectionOffer),
        "current_nft_marketplace_collection_offers"
    );
}

fn column(path: &str, source: Option<&str>, event_type: Option<&str>) -> ColumnConfig {
    ColumnConfig {
        source: source.map(|s| s.to_string()),
        resource_type: None,
        path: vec![path.to_string()],
        event_type: event_type.map(|s| s.to_string()),
    }
}

fn sample_configs(path: &str) -> NFTMarketplaceConfigs {
    NFTMarketplaceConfigs {
        marketplaces: vec![MarketplaceConfig {
            name: "tradeport".to_string(),
            event_types: vec![KindEvents {
                kind: "listing".to_string(),
                cancel: "0x1::m::Cancel".to_string(),
                fill: "0x1::m::Fill".to_string(),
                place: "0x1::m::Place".to_string(),
            }],
            tables: vec![(
                "nft_marketplace_activities".to_string(),
                TableConfig {
                    columns: vec![
                        ("price".to_string(), column("$.price", None, None)),
                        ("seller".to_string(), column(path, Some("write_set_changes"), Some("place_listing"))),
                    ],
                },
            )],
        }],
    }
}

#[test]
fn mappings_of_a_marketplace() {
    let (events, tables) = sample_configs("$.seller").get_mappings().unwrap();
    let place = events.get("0x1::m::Place").unwrap();
    assert_eq!(place.0, "tradeport");
    assert_eq!(place.1, MarketplaceEventType::PlaceListing);
    assert_eq!(events.get("0x1::m::Cancel").unwrap().1, MarketplaceEventType::CancelListing);
    assert_eq!(events.get("0x1::m::Fill").unwrap().1, MarketplaceEventType::FillListing);
    let table = tables.get("tradeport").unwrap().get("nft_marketplace_activities").unwrap();
    assert_eq!(table.len(), 2);
    assert_eq!(table[0].0, "price");
    assert_eq!(table[0].1, "events");
    assert_eq!(table[0].4, "all_events");
    assert_eq!(table[1].1, "write_set_changes");
    assert_eq!(table[1].4, "place_listing");
}

#[test]
fn mappings_refuse_a_bad_path() {
    let r = sample_configs("$[").get_mappings();
    assert!(matches!(r, Err(IndexerError::InvalidJsonPath(p)) if p == "$["));
}

fn activity(marketplace: &str) -> NftMarketplaceActivity {
    NftMarketplaceActivity {
        txn_version: 5,
        index: 0,
        listing_id: None,
        offer_id: None,
        raw_event_type: "0x1::m::Place".to_string(),
        standard_event_type: MarketplaceEventType::PlaceListing,
        creator_address: None,
        collection_id: None,
        collection_name: None,
        token_data_id: None,
        token_name: None,
        price: 0,
        token_amount: None,
        buyer: None,
        seller: None,
        expiration_time: None,
        json_data: JsonValue::Null,
        marketplace: marketplace.to_string(),
        contract_address: "0x1".to_string(),
        block_timestamp: BlockTimestamp::new(1, 0).unwrap(),
    }
}

fn resource_txn(info: bool) -> Transaction {
    Transaction {
        version: 5,
        block_height: 1,
        timestamp: None,
        txn_data: Some(TxnData::User(UserTransaction { request: None, events: vec![] })),
        info: if info {
            Some(TransactionInfo {
                changes: vec![WriteSetChange {
                    change: Some(Change::WriteResource(WriteResource {
                        address: "0x7".to_string(),
                        type_str: "0x1::m::Listing".to_string(),
                        data: "{\"seller\":\"0x9\",\"price\":\"12\"}".to_string(),
                    })),
                }],
            })
        } else {
            None
        },
    }
}

fn resource_configs() -> NFTMarketplaceConfigs {
    let seller = ColumnConfig {
        source: Some("write_set_changes".to_string()),
        resource_type: Some("0x1::m::Listing".to_string()),
        path: vec!["$.seller".to_string()],
        event_type: None,
    };
    let price_for_fills = ColumnConfig {
        source: Some("write_set_changes".to_string()),
        resource_type: Some("0x1::m::Listing".to_string()),
        path: vec!["$.price".to_string()],
        event_type: Some("fill_listing".to_string()),
    };
    NFTMarketplaceConfigs {
        marketplaces: vec![MarketplaceConfig {
            name: "tradeport".to_string(),
            event_types: vec![],
            tables: vec![(
                "current_nft_marketplace_listings".to_string(),
                TableConfig { columns: vec![("seller".to_string(), seller), ("price".to_string(), price_for_fills)] },
            )],
        }],
    }
}

#[test]
fn written_resources_fill_activity_columns() {
    let (_, tables) = resource_configs().get_mappings().unwrap();
    let mapper = ResourceMapper::new(tables);
    let mut activities: StrMap<Vec<(MarketplaceEventType, NftMarketplaceActivity)>> = StrMap::new();
    activities.insert(
        standardize_address("0x7"),
        vec![(MarketplaceEventType::PlaceListing, activity("tradeport")), (MarketplaceEventType::FillListing, activity("other"))],
    );
    assert!(mapper.remap_resources(&resource_txn(true), &mut activities).is_ok());
    let group = activities.get(&standardize_address("0x7")).unwrap();
    assert_eq!(group[0].1.seller, Some("0x9".to_string()));
    assert_eq!(group[0].1.price, 0);
    assert_eq!(group[1].1.seller, None);
    assert!(matches!(
        mapper.remap_resources(&resource_txn(false), &mut activities),
        Err(IndexerError::MissingTransactionInfo)
    ));
}

#[test]
fn event_type_text_parses_back() {
    for text in ["0x1::coin::DepositEvent", "abc::m:x::S<0x1::a::B>", "0x::m::", "0x00ff::market:::Listed"] {
        let e = EventType::try_from(text).unwrap();
        let again = EventType::try_from(e.to_string().as_str()).unwrap();
        assert!(again.equals(&e));
        assert_eq!(again, e);
    }
}
