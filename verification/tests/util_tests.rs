use nft_aggregator::convert::standardize_address;
use nft_aggregator::json::{JsonNumber, JsonValue};
use nft_aggregator::models::transaction::{
    EntryFunctionPayload, MoveStructTag as MoveStructTagPB, MoveType, MoveTypeContent, MultisigPayload,
    MultisigTransactionPayload, PayloadType, TransactionPayload, UserTransactionRequest,
};
use nft_aggregator::processors::util::{
    convert_move_struct_tag, extract_type_arguments, get_collection_offer_metadata, get_collection_offer_v1,
    get_collection_offer_v2, get_fixed_priced_listing, get_listing_metadata, get_move_type_str, get_object_core,
    get_token_offer_metadata, get_token_offer_v1, get_token_offer_v2, truncate_str, CollectionDataIdType,
    TokenDataIdType, TokenStandard,
};
use nft_aggregator::steps::remappers::event_remapper::{generate_collection_id, generate_token_data_id};
use nft_aggregator::utils::marketplace_resource_utils::{
    CollectionOffer, CollectionOfferV2, TokenOffer, TokenOfferV2, TokenStandard as ResourceTokenStandard,
};

fn s(x: &str) -> JsonValue {
    JsonValue::Str(x.to_string())
}

fn obj(members: Vec<(&str, JsonValue)>) -> JsonValue {
    JsonValue::Object(members.into_iter().map(|(k, v)| (k.to_string(), v)).collect())
}

fn inner(x: &str) -> JsonValue {
    obj(vec![("inner", s(x))])
}

fn zeros(n: usize) -> String {
    "0".repeat(n)
}

#[test]
fn standardize_pads_and_keeps_long_addresses() {
    assert_eq!(standardize_address("0x1"), format!("0x{}1", zeros(63)));
    assert_eq!(standardize_address("abc"), format!("0x{}abc", zeros(61)));
    let long = format!("0x{}", "f".repeat(70));
    assert_eq!(standardize_address(&long), long);
    let once = standardize_address("0x2a");
    assert_eq!(standardize_address(&once), once);
}

#[test]
fn truncate_cuts_at_byte_length() {
    assert_eq!(truncate_str("hello", 3), "hel");
    assert_eq!(truncate_str("hi", 5), "hi");
    assert_eq!(truncate_str("hello", 5), "hello");
    assert_eq!(truncate_str("h\u{e9}llo", 3), "h\u{e9}");
    assert_eq!(truncate_str("", 0), "");
}

#[test]
fn token_ids_are_built_from_standard_creator() {
    let t = TokenDataIdType::new("0x1".to_string(), "col".to_string(), "tok".to_string());
    assert_eq!(t.to_hash(), format!("0x{}1::col::tok", zeros(63)));
    assert_eq!(t.get_collection_data_id_hash(), format!("0x{}1::col", zeros(63)));
    assert_eq!(t.get_creator(), format!("0x{}1", zeros(63)));
    assert_eq!(t.get_collection_trunc(), "col");
    assert_eq!(t.get_name_trunc(), "tok");
    let c = CollectionDataIdType::new("0x1".to_string(), "col".to_string());
    assert_eq!(c.to_hash(), t.get_collection_data_id_hash());
    assert_eq!(c.get_name_trunc(), "col");
    assert_eq!(c.get_creator(), t.get_creator());
}

#[test]
fn hashed_v1_ids() {
    assert_eq!(
        generate_token_data_id(Some("0x1".to_string()), Some("col".to_string()), Some("tok".to_string())),
        Some("0x3c5cc2b44edc36a2a2ef59f2559336023a3127688ac98df1a5f31a26b4442c5c".to_string())
    );
    assert_eq!(
        generate_collection_id(Some("0x1".to_string()), Some("col".to_string())),
        Some("0x4cd6cdbca8cad0ab35b5c34d77c18766cb49003844bacbed02f090b9c1682c06".to_string())
    );
    assert_eq!(generate_token_data_id(Some("0x1".to_string()), Some("".to_string()), Some("tok".to_string())), None);
    assert_eq!(generate_token_data_id(None, Some("col".to_string()), Some("tok".to_string())), None);
    assert_eq!(generate_collection_id(Some("".to_string()), Some("col".to_string())), None);
}

#[test]
fn token_offer_metadata_reads_the_offer() {
    let data = obj(vec![
        ("expiration_time", JsonValue::Number(JsonNumber::PosInt(1700))),
        ("item_price", s("250")),
        ("fee_schedule", inner("0x5")),
    ]);
    let m = get_token_offer_metadata("0xabc::token_offer::TokenOffer", &data, "0xabc").unwrap();
    assert_eq!(m.expiration_time, 1700);
    assert_eq!(m.price, "250");
    assert_eq!(m.fee_schedule_id, format!("0x{}5", zeros(63)));
    assert!(get_token_offer_metadata("0xabc::token_offer::Other", &data, "0xabc").is_none());
    let bad_price = obj(vec![
        ("expiration_time", JsonValue::Number(JsonNumber::PosInt(1700))),
        ("item_price", s("12x")),
        ("fee_schedule", inner("0x5")),
    ]);
    assert!(get_token_offer_metadata("0xabc::token_offer::TokenOffer", &bad_price, "0xabc").is_none());
}

#[test]
fn token_offers_by_standard() {
    let data = obj(vec![
        ("creator_address", s("0x1")),
        ("collection_name", s("col")),
        ("token_name", s("tok")),
        ("property_version", JsonValue::Number(JsonNumber::PosInt(3))),
        ("token", inner("0x77")),
    ]);
    let v1 = get_token_offer_v1("0xabc::token_offer::TokenOfferTokenV1", &data, "0xabc").unwrap();
    assert_eq!(v1.token_metadata.token_data_id, format!("0x{}1::col::tok", zeros(63)));
    assert_eq!(v1.token_metadata.collection_id, format!("0x{}1::col", zeros(63)));
    assert_eq!(v1.token_metadata.property_version, Some(3));
    assert_eq!(v1.token_metadata.token_standard, "V1");
    assert_eq!(v1.token_metadata.token_name, "tok");
    let v2 = get_token_offer_v2("0xabc::token_offer::TokenOfferTokenV2", &data, "0xabc").unwrap();
    assert_eq!(v2.token_address, format!("0x{}77", zeros(62)));
    assert!(get_token_offer_v2("0xabc::token_offer::TokenOfferTokenV1", &data, "0xabc").is_none());
    assert_eq!(TokenStandard::V2.to_string(), "V2");
}

#[test]
fn collection_offer_metadata_errors() {
    let data = obj(vec![
        ("expiration_time", JsonValue::Number(JsonNumber::NegInt(-5))),
        ("item_price", s("1.5")),
    ]);
    let m = get_collection_offer_metadata("0xabc::collection_offer::CollectionOffer", &data, "0xabc").unwrap();
    assert_eq!(m.expiration_time, -5);
    assert_eq!(m.item_price, "1.5");
    assert_eq!(
        get_collection_offer_metadata("0xabc::other::CollectionOffer", &data, "0xabc").err(),
        Some("Move resource type does not match".to_string())
    );
    let no_time = obj(vec![("item_price", s("1.5"))]);
    assert_eq!(
        get_collection_offer_metadata("0xabc::collection_offer::CollectionOffer", &no_time, "0xabc").err(),
        Some("Failed to get or parse expiration_time".to_string())
    );
    let no_price = obj(vec![("expiration_time", JsonValue::Number(JsonNumber::PosInt(1)))]);
    assert_eq!(
        get_collection_offer_metadata("0xabc::collection_offer::CollectionOffer", &no_price, "0xabc").err(),
        Some("Failed to get item_price as string".to_string())
    );
    let bad_price = obj(vec![("expiration_time", JsonValue::Number(JsonNumber::PosInt(1))), ("item_price", s("abc"))]);
    assert_eq!(
        get_collection_offer_metadata("0xabc::collection_offer::CollectionOffer", &bad_price, "0xabc").err(),
        Some("Failed to parse item_price as BigDecimal".to_string())
    );
}

#[test]
fn collection_offers_by_standard() {
    let data = obj(vec![("creator_address", s("0x1")), ("collection_name", s("col")), ("collection", inner("0x9"))]);
    let v1 = get_collection_offer_v1("0xabc::collection_offer::CollectionOfferTokenV1", &data, "0xabc").unwrap();
    assert_eq!(v1.collection_metadata.collection_id, format!("0x{}1::col", zeros(63)));
    assert_eq!(v1.collection_metadata.creator_address, format!("0x{}1", zeros(63)));
    assert_eq!(v1.collection_metadata.collection_name, "col");
    assert_eq!(v1.collection_metadata.token_standard, "V1");
    let v2 = get_collection_offer_v2("0xabc::collection_offer::CollectionOfferTokenV2", &data, "0xabc").unwrap();
    assert_eq!(v2.collection_address, format!("0x{}9", zeros(63)));
    assert!(get_collection_offer_v1("0xabc::collection_offer::CollectionOfferTokenV2", &data, "0xabc").is_none());
}

#[test]
fn listings_and_objects() {
    let priced = obj(vec![("price", JsonValue::Number(JsonNumber::PosInt(42)))]);
    let l = get_fixed_priced_listing("0xabc::coin_listing::FixedPriceListing<0x1::aptos_coin::AptosCoin>", &priced, "0xabc")
        .unwrap();
    assert_eq!(l.price, 42);
    assert!(get_fixed_priced_listing("0xabc::listing::Listing", &priced, "0xabc").is_none());
    let listing = obj(vec![("seller", s("0x3")), ("object", inner("0x4"))]);
    let m = get_listing_metadata("0xabc::listing::Listing", &listing, "0xabc").unwrap();
    assert_eq!(m.seller, format!("0x{}3", zeros(63)));
    assert_eq!(m.token_address, format!("0x{}4", zeros(63)));
    let core = obj(vec![
        ("allow_ungated_transfer", JsonValue::Bool(true)),
        ("guid_creation_num", s("1125899906842625")),
        ("owner", s("0x6")),
    ]);
    let o = get_object_core("0x1::object::ObjectCore", &core).unwrap();
    assert!(o.allow_ungated_transfer);
    assert_eq!(o.guid_creation_num, "1125899906842625");
    assert_eq!(o.owner, format!("0x{}6", zeros(63)));
    assert!(get_object_core("0x1::object::Other", &core).is_none());
}

fn struct_type(address: &str, module: &str, name: &str) -> MoveType {
    MoveType {
        content: Some(MoveTypeContent::Struct(MoveStructTagPB {
            address: address.to_string(),
            module: module.to_string(),
            name: name.to_string(),
            generic_type_params: vec![],
        })),
    }
}

#[test]
fn move_types_and_type_arguments() {
    assert_eq!(get_move_type_str(struct_type("0x1", "aptos_coin", "AptosCoin")), Some("0x1::aptos_coin::AptosCoin".to_string()));
    assert_eq!(get_move_type_str(MoveType { content: Some(MoveTypeContent::Other) }), None);
    let direct = UserTransactionRequest {
        entry_function_id_str: None,
        payload: Some(TransactionPayload {
            payload: Some(PayloadType::EntryFunctionPayload(EntryFunctionPayload {
                type_arguments: vec![struct_type("0x1", "aptos_coin", "AptosCoin")],
            })),
        }),
    };
    let args = extract_type_arguments(&direct).unwrap();
    assert_eq!(args.len(), 1);
    assert_eq!(get_move_type_str(args.into_iter().next().unwrap()), Some("0x1::aptos_coin::AptosCoin".to_string()));
    let multisig = UserTransactionRequest {
        entry_function_id_str: None,
        payload: Some(TransactionPayload {
            payload: Some(PayloadType::MultisigPayload(MultisigPayload {
                transaction_payload: Some(MultisigTransactionPayload {
                    payload: Some(EntryFunctionPayload { type_arguments: vec![] }),
                }),
            })),
        }),
    };
    assert_eq!(extract_type_arguments(&multisig).map(|v| v.len()), Some(0));
    let empty_multisig = UserTransactionRequest {
        entry_function_id_str: None,
        payload: Some(TransactionPayload {
            payload: Some(PayloadType::MultisigPayload(MultisigPayload { transaction_payload: None })),
        }),
    };
    assert!(extract_type_arguments(&empty_multisig).is_none());
    let none = UserTransactionRequest { entry_function_id_str: None, payload: None };
    assert!(extract_type_arguments(&none).is_none());
}

#[test]
fn struct_tags_as_stored() {
    let tag = MoveStructTagPB {
        address: "0x1".to_string(),
        module: "coin".to_string(),
        name: "CoinStore".to_string(),
        generic_type_params: vec!["{\"a\":1}".to_string(), "{\"b\":2}".to_string()],
    };
    let t = convert_move_struct_tag(&tag);
    assert_eq!(t.resource_address, format!("0x{}1", zeros(63)));
    assert_eq!(t.module, "coin");
    assert_eq!(t.fun, "CoinStore");
    assert_eq!(t.generic_type_params, Some("{\"a\":1}{\"b\":2}".to_string()));
}

#[test]
fn resource_token_standards() {
    assert_eq!(ResourceTokenStandard::V1.as_str(), "v1");
    assert_eq!(ResourceTokenStandard::V2.to_string(), "v2");
    assert_eq!(ResourceTokenStandard::from_str("V2"), Ok(ResourceTokenStandard::V2));
    assert_eq!(ResourceTokenStandard::from_str("v1"), Ok(ResourceTokenStandard::V1));
    assert_eq!(ResourceTokenStandard::from_str("v3"), Err(()));
    let offer = TokenOffer::V2(TokenOfferV2 { token_address: "0x1".to_string() });
    assert!(offer.as_v1().is_none());
    assert_eq!(offer.as_v2().unwrap().token_address, "0x1");
    let c = CollectionOffer::V2(CollectionOfferV2 { collection_address: "0x2".to_string() });
    assert!(c.as_v1().is_none());
    assert_eq!(c.as_v2().unwrap().collection_address, "0x2");
}

#[test]
fn truncating_twice_changes_nothing() {
    for (s, n) in [("h\u{e9}llo w\u{f6}rld", 6usize), ("short", 128), ("abcdef", 0)] {
        let once = truncate_str(s, n);
        assert!(once.len() <= n || once == s);
        assert!(s.starts_with(once.as_str()));
        assert_eq!(truncate_str(&once, n), once);
    }
}
