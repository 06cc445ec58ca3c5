use nft_aggregator::config::marketplace_config::{EventType, MarketplaceEventType};
use nft_aggregator::error::IndexerError;
use nft_aggregator::json::JsonValue;
use nft_aggregator::models::nft_models::{
    CurrentNFTMarketplaceCollectionOffer, CurrentNFTMarketplaceListing, CurrentNFTMarketplaceTokenOffer,
    MarketplaceModel, NftMarketplaceActivity,
};
use nft_aggregator::models::{Event, EventKey, EventModel};
use nft_aggregator::steps::reduction_step::{merge_partial_update, NFTAccumulator, NFTReductionStep};
use nft_aggregator::steps::remapper_step::ActivityGroups;
use nft_aggregator::steps::remappers::event_remapper::{SecondaryModel, TableType};
use nft_aggregator::str_map::StrMap;
use nft_aggregator::text::{i64_to_string, parse_i64, u64_to_string};
use nft_aggregator::utils::BlockTimestamp;

fn ts() -> BlockTimestamp {
    BlockTimestamp::new(1_700_000_000, 0).unwrap()
}

fn event(key: bool, type_str: &str, data: &str) -> Event {
    Event {
        key: if key { Some(EventKey { creation_number: 4, account_address: "0x1".to_string() }) } else { None },
        sequence_number: 9,
        type_str: type_str.to_string(),
        data: data.to_string(),
    }
}

fn model() -> EventModel {
    EventModel::from_event(&event(true, "0x1::m::ListingPlacedEvent", "{\"a\":1}"), 50, 5, 0, ts())
        .ok()
        .unwrap()
        .unwrap()
}

fn activity() -> NftMarketplaceActivity {
    NftMarketplaceActivity {
        txn_version: 50,
        index: 0,
        listing_id: None,
        offer_id: None,
        raw_event_type: "0x1::m::ListingPlacedEvent".to_string(),
        standard_event_type: MarketplaceEventType::PlaceListing,
        creator_address: None,
        collection_id: None,
        collection_name: None,
        token_data_id: Some("0xt".to_string()),
        token_name: None,
        price: 0,
        token_amount: None,
        buyer: None,
        seller: None,
        expiration_time: None,
        json_data: JsonValue::Null,
        marketplace: "m".to_string(),
        contract_address: "0x1".to_string(),
        block_timestamp: ts(),
    }
}

#[test]
fn event_models_of_events() {
    let m = model();
    assert_eq!(m.sequence_number, 9);
    assert_eq!(m.creation_number, 4);
    assert_eq!(m.account_address, format!("0x{}1", "0".repeat(63)));
    assert_eq!(m.transaction_version, 50);
    assert_eq!(m.transaction_block_height, 5);
    assert_eq!(m.event_index, 0);
    assert_eq!(m.event_type.get_struct(), "ListingPlacedEvent");
    assert_eq!(m.data.get("a").and_then(|v| v.as_u64()), Some(1));
    assert!(matches!(EventModel::from_event(&event(true, "address", "\"0x1\""), 1, 1, 0, ts()), Ok(None)));
    assert!(matches!(
        EventModel::from_event(&event(false, "0x1::m::E", "{}"), 1, 1, 0, ts()),
        Err(IndexerError::MissingEventKey)
    ));
    assert!(matches!(
        EventModel::from_event(&event(true, "0x1::m::E", "{oops"), 1, 1, 0, ts()),
        Err(IndexerError::InvalidEventData(t)) if t == "0x1::m::E"
    ));
    let all = vec![event(true, "address", "1"), event(true, "0x1::m::A", "{}"), event(true, "0x1::m::B", "[]")];
    let models = EventModel::from_events(&all, 7, 2, ts()).ok().unwrap();
    assert_eq!(models.len(), 2);
    assert_eq!(models[0].event_index, 1);
    assert_eq!(models[1].event_index, 2);
    assert_eq!(models[1].event_type.get_struct(), "B");
    let broken = vec![event(true, "0x1::m::A", "{}"), event(false, "0x1::m::B", "{}"), event(true, "0x1::m::C", "{x")];
    let kept = EventModel::from_events(&broken, 7, 2, ts()).ok().unwrap();
    assert_eq!(kept.len(), 1);
    assert_eq!(kept[0].event_index, 0);
    assert_eq!(kept[0].event_type.get_struct(), "A");
    let late = vec![event(false, "0x1::m::A", "{}"), event(true, "0x1::m::B", "{x"), event(true, "0x1::m::C", "{}")];
    let last_only = EventModel::from_events(&late, 7, 2, ts()).ok().unwrap();
    assert_eq!(last_only.len(), 1);
    assert_eq!(last_only[0].event_index, 2);
    assert_eq!(last_only[0].event_type.get_struct(), "C");
}

#[test]
fn event_model_json() {
    let text = model().to_json_value().to_json_text();
    assert!(text.starts_with("{\"sequence_number\":9,\"creation_number\":4,"));
    assert!(text.contains("\"event_type\":{\"address\":\"0x"));
    assert!(text.contains("\"data\":{\"a\":1}"));
}

#[test]
fn activity_columns_read_back_what_was_written() {
    let mut a = activity();
    a.set_field("seller", "0x5".to_string());
    assert_eq!(a.get_field("seller"), Some("0x5".to_string()));
    a.set_field("seller", String::new());
    assert_eq!(a.get_field("seller"), Some("0x5".to_string()));
    a.set_field("price", "+250".to_string());
    assert_eq!(a.price, 250);
    a.set_field("price", "12x".to_string());
    assert_eq!(a.price, 0);
    a.set_field("token_amount", "3".to_string());
    assert_eq!(a.get_field("token_amount"), Some("3".to_string()));
    a.set_field("collection_offer_id", "co1".to_string());
    assert_eq!(a.get_field("offer_id"), Some("co1".to_string()));
    assert_eq!(a.get_field("buyer"), Some(String::new()));
    assert_eq!(a.get_field("nonsense"), None);
    a.set_field("nonsense", "x".to_string());
    assert_eq!(a.get_field("seller"), Some("0x5".to_string()));
    assert!(a.is_valid());
    assert_eq!(a.table_name(), "nft_marketplace_activities");
    assert_eq!(a.updated_at(), 1_700_000_000);
    assert_eq!(a.get_txn_version(), 50);
}

#[test]
fn current_rows_start_empty() {
    let m = model();
    let l = CurrentNFTMarketplaceListing::build_default("tp".to_string(), &m, false);
    assert_eq!(l.token_data_id, "");
    assert!(!l.is_valid());
    assert_eq!(l.marketplace, "tp");
    assert_eq!(l.last_transaction_version, 50);
    let t = CurrentNFTMarketplaceTokenOffer::build_default("tp".to_string(), &m, true);
    assert!(t.is_deleted);
    assert_eq!(t.table_name(), "current_nft_marketplace_token_offers");
    let c = CurrentNFTMarketplaceCollectionOffer::build_default("tp".to_string(), &m, false);
    assert_eq!(c.table_name(), "current_nft_marketplace_collection_offers");
    let mut s = SecondaryModel::Listing(l);
    assert!(!s.is_valid());
    s.set_field("token_data_id", "0xt".to_string());
    assert!(s.is_valid());
    assert_eq!(s.table_name(), "current_nft_marketplace_listings");
    assert_eq!(TableType::from_str("current_nft_marketplace_listings"), Some(TableType::Listings));
    assert_eq!(TableType::from_str("nft_marketplace_activities"), Some(TableType::Activities));
    assert_eq!(TableType::from_str("other"), None);
}

#[test]
fn partial_updates_fill_only_empty_columns() {
    let m = model();
    let mut listing = CurrentNFTMarketplaceListing::build_default("tp".to_string(), &m, false);
    listing.set_field("token_data_id", "0xt".to_string());
    listing.set_field("price", "7".to_string());
    let mut groups = ActivityGroups::new();
    groups.push(activity());
    let mut update: StrMap<String> = StrMap::new();
    update.insert("seller".to_string(), "0x9".to_string());
    update.insert("price".to_string(), "99".to_string());
    merge_partial_update(&mut listing, &update, &mut groups);
    assert_eq!(listing.seller, "0x9");
    assert_eq!(listing.price, 7);
    let acts = groups.into_activities();
    assert_eq!(acts[0].seller, Some("0x9".to_string()));
    assert_eq!(acts[0].price, 0);
}

#[test]
fn the_accumulator_keeps_the_last_row_per_key() {
    let m = model();
    let mut acc = NFTAccumulator::new();
    let mut first = CurrentNFTMarketplaceListing::build_default("tp".to_string(), &m, false);
    first.set_field("token_data_id", "0xt".to_string());
    first.set_field("price", "1".to_string());
    let mut second = CurrentNFTMarketplaceListing::build_default("tp".to_string(), &m, true);
    second.set_field("token_data_id", "0xt".to_string());
    second.set_field("price", "2".to_string());
    let mut other = CurrentNFTMarketplaceListing::build_default("tp".to_string(), &m, false);
    other.set_field("token_data_id", "0xu".to_string());
    acc.fold_listing(first);
    acc.fold_listing(other);
    acc.fold_listing(second);
    acc.add_activity(activity());
    let (acts, listings, offers, collection_offers) = acc.drain();
    assert_eq!(acts.len(), 1);
    assert_eq!(listings.len(), 2);
    assert_eq!(listings[0].price, 2);
    assert!(listings[0].is_deleted);
    assert_eq!(listings[1].token_data_id, "0xu");
    assert!(offers.is_empty() && collection_offers.is_empty());
    let (acts, listings, _, _) = acc.drain();
    assert!(acts.is_empty() && listings.is_empty());
}

#[test]
fn numbers_as_text() {
    assert_eq!(u64_to_string(0), "0");
    assert_eq!(u64_to_string(u64::MAX), "18446744073709551615");
    assert_eq!(i64_to_string(i64::MIN), "-9223372036854775808");
    assert_eq!(parse_i64("-9223372036854775808"), Some(i64::MIN));
    assert_eq!(parse_i64("9223372036854775808"), None);
    assert_eq!(parse_i64("+7"), Some(7));
    assert_eq!(parse_i64("-"), None);
    assert_eq!(parse_i64(""), None);
    assert_eq!(parse_i64("1 "), None);
}

#[test]
fn event_types_compare_by_parts() {
    let a = EventType::try_from("0x1::m::E").unwrap();
    let b = EventType::try_from("0x0001::m::E").unwrap();
    assert!(a.equals(&b));
    assert!(!a.equals(&EventType::try_from("0x1::m::F").unwrap()));
    assert_eq!(a.copy().to_string(), a.to_string());
}

#[test]
fn a_batch_without_updates_is_reduced_unchanged() {
    let m = model();
    let mut listing = CurrentNFTMarketplaceListing::build_default("tp".to_string(), &m, false);
    listing.set_field("token_data_id", "0xt".to_string());
    listing.set_field("price", "5".to_string());
    let mut with_id = CurrentNFTMarketplaceCollectionOffer::build_default("tp".to_string(), &m, false);
    with_id.set_field("collection_offer_id", "co".to_string());
    let without_id = CurrentNFTMarketplaceCollectionOffer::build_default("tp".to_string(), &m, false);
    let mut groups = ActivityGroups::new();
    groups.push(activity());
    let mut step = NFTReductionStep::new();
    let (acts, listings, offers, collection_offers) =
        step.process((groups, vec![listing], vec![], vec![with_id, without_id], StrMap::new()));
    assert_eq!(acts.len(), 1);
    assert_eq!(acts[0].seller, None);
    assert_eq!(listings.len(), 1);
    assert_eq!(listings[0].price, 5);
    assert!(offers.is_empty());
    assert_eq!(collection_offers.len(), 1);
    assert_eq!(collection_offers[0].collection_offer_id, "co");
}
