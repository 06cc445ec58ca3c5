//! Token and collection identifiers, and readers of the marketplace
//! resources (offers, listings, object cores) that a contract writes.
use crate::convert::{standardize_address, standardized};
use crate::json::{json_as_bool, json_as_i64, json_as_str, json_get, JsonData, JsonValue};
use crate::processors::{decimal_parses, is_decimal};
use crate::models::transaction::{
    copy_move_types, move_types_view, MoveStructTag as MoveStructTagPB, MoveType, MoveTypeContent, MoveTypeContentView,
    PayloadType, UserTransactionRequest,
};
use crate::text::{concat_str, str_eq, str_to_string};
use vstd::prelude::*;

verus! {

/// Maximum length, in bytes, of a collection or token name.
pub const MAX_NAME_LENGTH: usize = 128;

/// The number of bytes of a character in UTF-8.
pub open spec fn utf8_width(c: char) -> nat {
    if (c as u32) < 0x80 {
        1
    } else if (c as u32) < 0x800 {
        2
    } else if (c as u32) < 0x10000 {
        3
    } else {
        4
    }
}

/// The number of bytes of a text in UTF-8.
pub open spec fn utf8_len(s: Seq<char>) -> nat
    decreases s.len(),
{
    if s.len() == 0 {
        0
    } else {
        utf8_len(s.drop_last()) + utf8_width(s.last())
    }
}

/// Whether byte position `n` of `s` starts a character (or is its end).
pub open spec fn is_char_boundary(s: Seq<char>, n: nat) -> bool {
    exists|k: int| 0 <= k <= s.len() && utf8_len(#[trigger] s.take(k)) == n
}

/// The first `n` bytes of `s`, when `n` is a character boundary; all of `s`
/// when it has no more than `n` bytes.
pub open spec fn truncated(s: Seq<char>, n: nat) -> Seq<char> {
    if utf8_len(s) > n {
        s.take(choose|k: int| 0 <= k <= s.len() && utf8_len(#[trigger] s.take(k)) == n)
    } else {
        s
    }
}

/// The byte length of a prefix grows with it.
pub proof fn lemma_utf8_len_prefix(s: Seq<char>, k: int)
    requires
        0 <= k < s.len(),
    ensures
        utf8_len(s.take(k + 1)) == utf8_len(s.take(k)) + utf8_width(s[k]),
{
    assert(s.take(k + 1).drop_last() =~= s.take(k));
}

/// Prefixes with the same byte length have the same length.
pub proof fn lemma_utf8_len_strict(s: Seq<char>, a: int, b: int)
    requires
        0 <= a < b <= s.len(),
    ensures
        utf8_len(s.take(a)) < utf8_len(s.take(b)),
    decreases b - a,
{
    lemma_utf8_len_prefix(s, b - 1);
    if a < b - 1 {
        lemma_utf8_len_strict(s, a, b - 1);
    }
}

/// A text cut to `n` bytes (where `n` falls on a character boundary, if the
/// text is longer) is a prefix of the text of at most `n` bytes, and cutting
/// it again to `n` bytes changes nothing.
pub proof fn lemma_truncated_fits(s: Seq<char>, n: nat)
    requires
        utf8_len(s) <= n || is_char_boundary(s, n),
    ensures
        utf8_len(truncated(s, n)) <= n,
        truncated(s, n).len() <= s.len(),
        truncated(s, n) == s.take(truncated(s, n).len() as int),
        truncated(truncated(s, n), n) == truncated(s, n),
{
    if utf8_len(s) > n {
        let k = choose|k: int| 0 <= k <= s.len() && utf8_len(#[trigger] s.take(k)) == n;
        assert(s.take(k).take(k) =~= s.take(k));
    } else {
        assert(s.take(s.len() as int) =~= s);
    }
}

/// `s` cut to its first `max_len` bytes, which must fall on a character
/// boundary when `s` is longer.
pub fn truncate_str(s: &str, max_len: usize) -> (r: String)
    requires
        utf8_len(s@) <= max_len || is_char_boundary(s@, max_len as nat),
    ensures
        r@ == truncated(s@, max_len as nat),
{
    let n: usize = s.unicode_len();
    let mut bytes: usize = 0;
    let mut k: usize = 0;
    let mut over = false;
    assert(s@.take(0) =~= Seq::<char>::empty());
    while k < n && bytes < max_len && !over
        invariant
            n == s@.len(),
            k <= n,
            bytes == utf8_len(s@.take(k as int)),
            bytes <= max_len,
            over ==> k < n && utf8_len(s@.take(k + 1)) > max_len && bytes < max_len,
        decreases n - k + (if over { 0int } else { 1int }),
    {
        let c = s.get_char(k);
        let w: usize = if (c as u32) < 0x80 {
            1
        } else if (c as u32) < 0x800 {
            2
        } else if (c as u32) < 0x10000 {
            3
        } else {
            4
        };
        proof {
            lemma_utf8_len_prefix(s@, k as int);
        }
        if w > max_len - bytes {
            over = true;
        } else {
            bytes = bytes + w;
            k = k + 1;
        }
    }
    proof {
        assert(s@.take(n as int) =~= s@);
        if k < n {
            lemma_utf8_len_strict(s@, k as int, n as int);
        }
        if over {
            if k + 1 < n {
                lemma_utf8_len_strict(s@, k + 1, n as int);
            }
            assert(utf8_len(s@) > max_len);
            assert(is_char_boundary(s@, max_len as nat));
            let j = choose|j: int| 0 <= j <= s@.len() && utf8_len(#[trigger] s@.take(j)) == max_len as nat;
            if j < k {
                lemma_utf8_len_strict(s@, j, k as int);
            } else if j > k + 1 {
                lemma_utf8_len_strict(s@, k + 1, j);
            }
            assert(false);
        }
    }
    if bytes == max_len && k < n {
        proof {
            let j = choose|j: int| 0 <= j <= s@.len() && utf8_len(#[trigger] s@.take(j)) == max_len as nat;
            assert(utf8_len(s@.take(k as int)) == max_len as nat);
            if j < k {
                lemma_utf8_len_strict(s@, j, k as int);
            } else if j > k {
                lemma_utf8_len_strict(s@, k as int, j);
            }
            assert(j == k);
        }
        str_to_string(s.substring_char(0, k))
    } else {
        str_to_string(s)
    }
}

/// A token identified by creator, collection and name.
pub struct TokenDataIdType {
    creator: String,
    collection: String,
    name: String,
}

/// A collection identified by creator and name.
pub struct CollectionDataIdType {
    creator: String,
    name: String,
}

/// The id of token `creator`/`collection`/`name`: the standardized text
/// `creator::collection::name` with the creator standardized.
pub open spec fn token_data_id_text(creator: Seq<char>, collection: Seq<char>, name: Seq<char>) -> Seq<char> {
    standardized(standardized(creator) + "::"@ + collection + "::"@ + name)
}

/// The id of collection `creator`/`name`.
pub open spec fn collection_id_text(creator: Seq<char>, name: Seq<char>) -> Seq<char> {
    standardized(standardized(creator) + "::"@ + name)
}

impl TokenDataIdType {
    /// The creator, collection and name.
    pub closed spec fn parts(&self) -> (Seq<char>, Seq<char>, Seq<char>) {
        (self.creator@, self.collection@, self.name@)
    }

    /// The token `creator`/`collection`/`name`.
    pub fn new(creator: String, collection: String, name: String) -> (r: TokenDataIdType)
        ensures
            r.parts() == (creator@, collection@, name@),
    {
        TokenDataIdType { creator, collection, name }
    }

    /// The token's id.
    pub fn to_hash(&self) -> (r: String)
        ensures
            r@ == token_data_id_text(self.parts().0, self.parts().1, self.parts().2),
    {
        let creator = standardize_address(self.creator.as_str());
        let a = concat_str(creator.as_str(), "::");
        let b = concat_str(a.as_str(), self.collection.as_str());
        let c = concat_str(b.as_str(), "::");
        let d = concat_str(c.as_str(), self.name.as_str());
        standardize_address(d.as_str())
    }

    /// The collection name cut to `MAX_NAME_LENGTH` bytes, which must fall on
    /// a character boundary when it is longer.
    pub fn get_collection_trunc(&self) -> (r: String)
        requires
            utf8_len(self.parts().1) <= MAX_NAME_LENGTH || is_char_boundary(
                self.parts().1,
                MAX_NAME_LENGTH as nat,
            ),
        ensures
            r@ == truncated(self.parts().1, MAX_NAME_LENGTH as nat),
    {
        truncate_str(self.collection.as_str(), MAX_NAME_LENGTH)
    }

    /// The token name cut to `MAX_NAME_LENGTH` bytes, which must fall on a
    /// character boundary when it is longer.
    pub fn get_name_trunc(&self) -> (r: String)
        requires
            utf8_len(self.parts().2) <= MAX_NAME_LENGTH || is_char_boundary(
                self.parts().2,
                MAX_NAME_LENGTH as nat,
            ),
        ensures
            r@ == truncated(self.parts().2, MAX_NAME_LENGTH as nat),
    {
        truncate_str(self.name.as_str(), MAX_NAME_LENGTH)
    }

    /// The id of the token's collection.
    pub fn get_collection_data_id_hash(&self) -> (r: String)
        ensures
            r@ == collection_id_text(self.parts().0, self.parts().1),
    {
        CollectionDataIdType::new(self.creator.clone(), self.collection.clone()).to_hash()
    }

    /// The standardized creator address.
    pub fn get_creator(&self) -> (r: String)
        ensures
            r@ == standardized(self.parts().0),
    {
        standardize_address(self.creator.as_str())
    }
}

impl CollectionDataIdType {
    /// The creator and name.
    pub closed spec fn parts(&self) -> (Seq<char>, Seq<char>) {
        (self.creator@, self.name@)
    }

    /// The collection `creator`/`name`.
    pub fn new(creator: String, name: String) -> (r: CollectionDataIdType)
        ensures
            r.parts() == (creator@, name@),
    {
        CollectionDataIdType { creator, name }
    }

    /// The collection's id.
    pub fn to_hash(&self) -> (r: String)
        ensures
            r@ == collection_id_text(self.parts().0, self.parts().1),
    {
        let creator = standardize_address(self.creator.as_str());
        let a = concat_str(creator.as_str(), "::");
        let b = concat_str(a.as_str(), self.name.as_str());
        standardize_address(b.as_str())
    }

    /// The name cut to `MAX_NAME_LENGTH` bytes, which must fall on a
    /// character boundary when it is longer.
    pub fn get_name_trunc(&self) -> (r: String)
        requires
            utf8_len(self.parts().1) <= MAX_NAME_LENGTH || is_char_boundary(
                self.parts().1,
                MAX_NAME_LENGTH as nat,
            ),
        ensures
            r@ == truncated(self.parts().1, MAX_NAME_LENGTH as nat),
    {
        truncate_str(self.name.as_str(), MAX_NAME_LENGTH)
    }

    /// The standardized creator address.
    pub fn get_creator(&self) -> (r: String)
        ensures
            r@ == standardized(self.parts().0),
    {
        standardize_address(self.creator.as_str())
    }
}

/// The string at `key` of object `d`.
pub open spec fn field_str(d: JsonData, key: Seq<char>) -> Option<Seq<char>> {
    match json_get(d, key) {
        Some(v) => json_as_str(v),
        None => None,
    }
}

/// The integer at `key` of object `d`, if it fits an `i64`.
pub open spec fn field_i64(d: JsonData, key: Seq<char>) -> Option<i64> {
    match json_get(d, key) {
        Some(v) => json_as_i64(v),
        None => None,
    }
}

/// The string at `key`.`inner` of object `d` (an object reference).
pub open spec fn field_inner_str(d: JsonData, key: Seq<char>) -> Option<Seq<char>> {
    match json_get(d, key) {
        Some(v) => field_str(v, "inner"@),
        None => None,
    }
}

fn get_str(data: &JsonValue, key: &str) -> (r: Option<String>)
    ensures
        r matches Some(s) ==> field_str(data@, key@) == Some(s@),
        r is None ==> field_str(data@, key@) is None,
{
    match data.get(key) {
        Some(v) => match v.as_str() {
            Some(s) => Some(str_to_string(s)),
            None => None,
        },
        None => None,
    }
}

fn get_i64(data: &JsonValue, key: &str) -> (r: Option<i64>)
    ensures
        r == field_i64(data@, key@),
{
    match data.get(key) {
        Some(v) => v.as_i64(),
        None => None,
    }
}

fn get_inner_str(data: &JsonValue, key: &str) -> (r: Option<String>)
    ensures
        r matches Some(s) ==> field_inner_str(data@, key@) == Some(s@),
        r is None ==> field_inner_str(data@, key@) is None,
{
    match data.get(key) {
        Some(v) => get_str(v, "inner"),
        None => None,
    }
}

/// Whether the resource type is `address::suffix`.
pub open spec fn is_resource(t: Seq<char>, address: Seq<char>, suffix: Seq<char>) -> bool {
    t == address + suffix
}

fn resource_is(t: &str, address: &str, suffix: &str) -> (r: bool)
    ensures
        r == is_resource(t@, address@, suffix@),
{
    let expected = concat_str(address, suffix);
    str_eq(t, expected.as_str())
}

/// A collection: its id, creator, name and token standard.
pub struct CollectionMetadata {
    pub collection_id: String,
    pub creator_address: String,
    pub collection_name: String,
    pub token_standard: String,
}

/// A collection offer event: the offer, its collection, price per item (as
/// decimal text) and buyer.
pub struct CollectionOfferEventMetadata {
    pub collection_offer_id: String,
    pub collection_metadata: CollectionMetadata,
    pub item_price: String,
    pub buyer: String,
}

/// A token offer: when it expires, its price (as decimal text) and fee
/// schedule.
pub struct TokenOfferMetadata {
    pub expiration_time: i64,
    pub price: String,
    pub fee_schedule_id: String,
}

/// The token of an offer for a v1 token.
pub struct TokenOfferV1 {
    pub token_metadata: TokenMetadata,
}

/// The token of an offer for a v2 token.
pub struct TokenOfferV2 {
    pub token_address: String,
}

/// A collection offer: when it expires and its price per item (as decimal
/// text).
pub struct CollectionOfferMetadata {
    pub expiration_time: i64,
    pub item_price: String,
}

/// The collection of an offer for v1 tokens.
pub struct CollectionOfferV1 {
    pub collection_metadata: CollectionMetadata,
}

/// The collection of an offer for v2 tokens.
pub struct CollectionOfferV2 {
    pub collection_address: String,
}

/// A token: its ids, creator, names, property version and standard.
pub struct TokenMetadata {
    pub collection_id: String,
    pub token_data_id: String,
    pub creator_address: String,
    pub collection_name: String,
    pub token_name: String,
    pub property_version: Option<i64>,
    pub token_standard: String,
}

/// The token standards.
#[derive(Debug, Clone, Copy, PartialEq, Eq)]
pub enum TokenStandard {
    V1,
    V2,
}

/// The text of a token standard.
pub open spec fn standard_text(t: TokenStandard) -> Seq<char> {
    match t {
        TokenStandard::V1 => "V1"@,
        TokenStandard::V2 => "V2"@,
    }
}

impl TokenStandard {
    /// The text of the standard, as `Display` writes it.
    pub fn to_string(&self) -> (r: String)
        ensures
            r@ == standard_text(*self),
    {
        match self {
            TokenStandard::V1 => str_to_string("V1"),
            TokenStandard::V2 => str_to_string("V2"),
        }
    }
}

/// A listing: its seller and the listed token.
pub struct ListingMetadata {
    pub seller: String,
    pub token_address: String,
}

/// A fixed price listing.
pub struct FixedPriceListing {
    pub price: i64,
}

/// A listed v1 token and its amount.
pub struct ListingTokenV1Container {
    pub token_metadata: TokenMetadata,
    pub amount: i64,
}

/// A Move struct type: address, module, name and generic parameters.
pub struct MoveStructTag {
    pub resource_address: String,
    pub module: String,
    pub fun: String,
    pub generic_type_params: Option<String>,
}

/// The core of an object: whether it transfers freely, its GUID counter and
/// its owner.
pub struct ObjectCore {
    pub allow_ungated_transfer: bool,
    pub guid_creation_num: String,
    pub owner: String,
}

/// What `get_token_offer_metadata` reads: expiration time, price text and
/// standardized fee schedule, when the resource is the contract's token
/// offer and all three are there (the price a decimal).
pub open spec fn token_offer_metadata_of(t: Seq<char>, data: JsonData, address: Seq<char>) -> Option<
    (i64, Seq<char>, Seq<char>),
> {
    if !is_resource(t, address, "::token_offer::TokenOffer"@) {
        None
    } else {
        match (field_i64(data, "expiration_time"@), field_str(data, "item_price"@), field_inner_str(data, "fee_schedule"@)) {
            (Some(e), Some(p), Some(f)) => if decimal_parses(p) {
                Some((e, p, standardized(f)))
            } else {
                None
            },
            _ => None,
        }
    }
}

/// The token offer of the contract at `marketplace_contract_address`, if
/// `move_resource_type` is its token offer resource and `data` holds it.
pub fn get_token_offer_metadata(
    move_resource_type: &str,
    data: &JsonValue,
    marketplace_contract_address: &str,
) -> (r: Option<TokenOfferMetadata>)
    ensures
        r matches Some(m) ==> token_offer_metadata_of(move_resource_type@, data@, marketplace_contract_address@)
            == Some((m.expiration_time, m.price@, m.fee_schedule_id@)),
        r is None ==> token_offer_metadata_of(move_resource_type@, data@, marketplace_contract_address@) is None,
{
    if !resource_is(move_resource_type, marketplace_contract_address, "::token_offer::TokenOffer") {
        return None;
    }
    let expiration_time = get_i64(data, "expiration_time")?;
    let price = get_str(data, "item_price")?;
    if !is_decimal(price.as_str()) {
        return None;
    }
    let fee = get_inner_str(data, "fee_schedule")?;
    Some(TokenOfferMetadata { expiration_time, price, fee_schedule_id: standardize_address(fee.as_str()) })
}

/// Whether a name can be cut to `MAX_NAME_LENGTH` bytes: it is no longer,
/// or that length falls on a character boundary.
pub open spec fn name_truncates(s: Seq<char>) -> bool {
    utf8_len(s) <= MAX_NAME_LENGTH || is_char_boundary(s, MAX_NAME_LENGTH as nat)
}

/// The token metadata of v1 token `creator`/`collection`/`name`.
pub open spec fn token_v1_metadata(
    creator: Seq<char>,
    collection: Seq<char>,
    name: Seq<char>,
    property_version: Option<i64>,
) -> (Seq<char>, Seq<char>, Seq<char>, Seq<char>, Seq<char>, Option<i64>, Seq<char>) {
    (
        collection_id_text(creator, collection),
        token_data_id_text(creator, collection, name),
        standardized(creator),
        truncated(collection, MAX_NAME_LENGTH as nat),
        truncated(name, MAX_NAME_LENGTH as nat),
        property_version,
        "V1"@,
    )
}

/// The fields of a token metadata.
pub open spec fn token_metadata_fields(m: TokenMetadata) -> (
    Seq<char>,
    Seq<char>,
    Seq<char>,
    Seq<char>,
    Seq<char>,
    Option<i64>,
    Seq<char>,
) {
    (
        m.collection_id@,
        m.token_data_id@,
        m.creator_address@,
        m.collection_name@,
        m.token_name@,
        m.property_version,
        m.token_standard@,
    )
}

/// What `get_token_offer_v1` reads.
pub open spec fn token_offer_v1_of(t: Seq<char>, data: JsonData, address: Seq<char>) -> Option<
    (Seq<char>, Seq<char>, Seq<char>, Seq<char>, Seq<char>, Option<i64>, Seq<char>),
> {
    if !is_resource(t, address, "::token_offer::TokenOfferTokenV1"@) {
        None
    } else {
        match (
            field_str(data, "creator_address"@),
            field_str(data, "collection_name"@),
            field_str(data, "token_name"@),
        ) {
            (Some(c), Some(col), Some(n)) => Some(token_v1_metadata(c, col, n, field_i64(data, "property_version"@))),
            _ => None,
        }
    }
}

/// The v1 token of an offer of the contract, if `move_resource_type` is its
/// v1 offer resource and `data` names the token. The collection and token
/// names must be cut to `MAX_NAME_LENGTH` bytes on a character boundary.
pub fn get_token_offer_v1(
    move_resource_type: &str,
    data: &JsonValue,
    marketplace_contract_address: &str,
) -> (r: Option<TokenOfferV1>)
    requires
        field_str(data@, "collection_name"@) matches Some(c) ==> name_truncates(c),
        field_str(data@, "token_name"@) matches Some(n) ==> name_truncates(n),
    ensures
        r matches Some(o) ==> token_offer_v1_of(move_resource_type@, data@, marketplace_contract_address@)
            == Some(token_metadata_fields(o.token_metadata)),
        r is None ==> token_offer_v1_of(move_resource_type@, data@, marketplace_contract_address@) is None,
{
    if !resource_is(move_resource_type, marketplace_contract_address, "::token_offer::TokenOfferTokenV1") {
        return None;
    }
    let property_version = get_i64(data, "property_version");
    let creator = get_str(data, "creator_address")?;
    let collection = get_str(data, "collection_name")?;
    let name = get_str(data, "token_name")?;
    let id = TokenDataIdType::new(creator, collection, name);
    Some(
        TokenOfferV1 {
            token_metadata: TokenMetadata {
                collection_id: id.get_collection_data_id_hash(),
                token_data_id: id.to_hash(),
                creator_address: id.get_creator(),
                collection_name: id.get_collection_trunc(),
                token_name: id.get_name_trunc(),
                property_version,
                token_standard: TokenStandard::V1.to_string(),
            },
        },
    )
}

/// What `get_token_offer_v2` reads: the standardized token address.
pub open spec fn token_offer_v2_of(t: Seq<char>, data: JsonData, address: Seq<char>) -> Option<Seq<char>> {
    if !is_resource(t, address, "::token_offer::TokenOfferTokenV2"@) {
        None
    } else {
        match field_inner_str(data, "token"@) {
            Some(a) => Some(standardized(a)),
            None => None,
        }
    }
}

/// The v2 token of an offer of the contract, if `move_resource_type` is its
/// v2 offer resource and `data` refers to the token.
pub fn get_token_offer_v2(
    move_resource_type: &str,
    data: &JsonValue,
    marketplace_contract_address: &str,
) -> (r: Option<TokenOfferV2>)
    ensures
        r matches Some(o) ==> token_offer_v2_of(move_resource_type@, data@, marketplace_contract_address@)
            == Some(o.token_address@),
        r is None ==> token_offer_v2_of(move_resource_type@, data@, marketplace_contract_address@) is None,
{
    if !resource_is(move_resource_type, marketplace_contract_address, "::token_offer::TokenOfferTokenV2") {
        return None;
    }
    let token = get_inner_str(data, "token")?;
    Some(TokenOfferV2 { token_address: standardize_address(token.as_str()) })
}

/// What `get_collection_offer_metadata` reads, or the message of its
/// failure.
pub open spec fn collection_offer_metadata_of(t: Seq<char>, data: JsonData, address: Seq<char>) -> Result<
    (i64, Seq<char>),
    Seq<char>,
> {
    if !is_resource(t, address, "::collection_offer::CollectionOffer"@) {
        Err("Move resource type does not match"@)
    } else {
        match field_i64(data, "expiration_time"@) {
            None => Err("Failed to get or parse expiration_time"@),
            Some(e) => match field_str(data, "item_price"@) {
                None => Err("Failed to get item_price as string"@),
                Some(p) => if decimal_parses(p) {
                    Ok((e, p))
                } else {
                    Err("Failed to parse item_price as BigDecimal"@)
                },
            },
        }
    }
}

/// The collection offer of the contract, if `move_resource_type` is its
/// collection offer resource and `data` holds its expiration time and a
/// decimal item price; else the reason.
pub fn get_collection_offer_metadata(
    move_resource_type: &str,
    data: &JsonValue,
    marketplace_contract_address: &str,
) -> (r: Result<CollectionOfferMetadata, String>)
    ensures
        r matches Ok(m) ==> collection_offer_metadata_of(move_resource_type@, data@, marketplace_contract_address@)
            == Ok::<(i64, Seq<char>), Seq<char>>((m.expiration_time, m.item_price@)),
        r matches Err(e) ==> collection_offer_metadata_of(move_resource_type@, data@, marketplace_contract_address@)
            == Err::<(i64, Seq<char>), Seq<char>>(e@),
{
    if !resource_is(move_resource_type, marketplace_contract_address, "::collection_offer::CollectionOffer") {
        return Err(str_to_string("Move resource type does not match"));
    }
    let expiration_time = match get_i64(data, "expiration_time") {
        Some(e) => e,
        None => return Err(str_to_string("Failed to get or parse expiration_time")),
    };
    let item_price = match get_str(data, "item_price") {
        Some(p) => p,
        None => return Err(str_to_string("Failed to get item_price as string")),
    };
    if !is_decimal(item_price.as_str()) {
        return Err(str_to_string("Failed to parse item_price as BigDecimal"));
    }
    Ok(CollectionOfferMetadata { expiration_time, item_price })
}

/// What `get_collection_offer_v1` reads: collection id, creator, name and
/// standard.
pub open spec fn collection_offer_v1_of(t: Seq<char>, data: JsonData, address: Seq<char>) -> Option<
    (Seq<char>, Seq<char>, Seq<char>, Seq<char>),
> {
    if !is_resource(t, address, "::collection_offer::CollectionOfferTokenV1"@) {
        None
    } else {
        match (field_str(data, "creator_address"@), field_str(data, "collection_name"@)) {
            (Some(c), Some(n)) => Some(
                (collection_id_text(c, n), standardized(c), truncated(n, MAX_NAME_LENGTH as nat), "V1"@),
            ),
            _ => None,
        }
    }
}

/// The v1 collection of an offer of the contract. The collection name must
/// be cut to `MAX_NAME_LENGTH` bytes on a character boundary.
pub fn get_collection_offer_v1(
    move_resource_type: &str,
    data: &JsonValue,
    marketplace_contract_address: &str,
) -> (r: Option<CollectionOfferV1>)
    requires
        field_str(data@, "collection_name"@) matches Some(c) ==> name_truncates(c),
    ensures
        r matches Some(o) ==> collection_offer_v1_of(move_resource_type@, data@, marketplace_contract_address@)
            == Some(
            (
                o.collection_metadata.collection_id@,
                o.collection_metadata.creator_address@,
                o.collection_metadata.collection_name@,
                o.collection_metadata.token_standard@,
            ),
        ),
        r is None ==> collection_offer_v1_of(move_resource_type@, data@, marketplace_contract_address@) is None,
{
    if !resource_is(move_resource_type, marketplace_contract_address, "::collection_offer::CollectionOfferTokenV1") {
        return None;
    }
    let creator = get_str(data, "creator_address")?;
    let name = get_str(data, "collection_name")?;
    let id = CollectionDataIdType::new(creator, name);
    Some(
        CollectionOfferV1 {
            collection_metadata: CollectionMetadata {
                collection_id: id.to_hash(),
                creator_address: id.get_creator(),
                collection_name: id.get_name_trunc(),
                token_standard: TokenStandard::V1.to_string(),
            },
        },
    )
}

/// What `get_collection_offer_v2` reads: the standardized collection
/// address.
pub open spec fn collection_offer_v2_of(t: Seq<char>, data: JsonData, address: Seq<char>) -> Option<Seq<char>> {
    if !is_resource(t, address, "::collection_offer::CollectionOfferTokenV2"@) {
        None
    } else {
        match field_inner_str(data, "collection"@) {
            Some(a) => Some(standardized(a)),
            None => None,
        }
    }
}

/// The v2 collection of an offer of the contract.
pub fn get_collection_offer_v2(
    move_resource_type: &str,
    data: &JsonValue,
    marketplace_contract_address: &str,
) -> (r: Option<CollectionOfferV2>)
    ensures
        r matches Some(o) ==> collection_offer_v2_of(move_resource_type@, data@, marketplace_contract_address@)
            == Some(o.collection_address@),
        r is None ==> collection_offer_v2_of(move_resource_type@, data@, marketplace_contract_address@) is None,
{
    if !resource_is(move_resource_type, marketplace_contract_address, "::collection_offer::CollectionOfferTokenV2") {
        return None;
    }
    let collection = get_inner_str(data, "collection")?;
    Some(CollectionOfferV2 { collection_address: standardize_address(collection.as_str()) })
}

/// Whether `needle` occurs in `hay`.
pub open spec fn contains_text(hay: Seq<char>, needle: Seq<char>) -> bool {
    exists|i: int| 0 <= i <= hay.len() - needle.len() && #[trigger] hay.subrange(i, i + needle.len()) == needle
}

fn text_contains(hay: &str, needle: &str) -> (r: bool)
    ensures
        r == contains_text(hay@, needle@),
{
    let n: usize = hay.unicode_len();
    let m: usize = needle.unicode_len();
    if m > n {
        return false;
    }
    let limit: usize = n - m;
    let mut i: usize = 0;
    loop
        invariant
            n == hay@.len(),
            m == needle@.len(),
            m <= n,
            limit == n - m,
            i <= limit,
            forall|j: int| 0 <= j < i ==> #[trigger] hay@.subrange(j, j + m) != needle@,
        decreases limit - i,
    {
        if str_eq(hay.substring_char(i, i + m), needle) {
            return true;
        }
        if i == limit {
            return false;
        }
        i = i + 1;
    }
}

/// What `get_fixed_priced_listing` reads: the price, when the resource type
/// names the contract's fixed price listing.
pub open spec fn fixed_priced_listing_of(t: Seq<char>, data: JsonData, address: Seq<char>) -> Option<i64> {
    if !contains_text(t, address + "::coin_listing::FixedPriceListing"@) {
        None
    } else {
        field_i64(data, "price"@)
    }
}

/// The fixed price listing of the contract, if the resource type names it
/// (with any generic arguments) and `data` holds an integer price.
pub fn get_fixed_priced_listing(
    move_resource_type: &str,
    data: &JsonValue,
    marketplace_contract_address: &str,
) -> (r: Option<FixedPriceListing>)
    ensures
        r matches Some(l) ==> fixed_priced_listing_of(move_resource_type@, data@, marketplace_contract_address@)
            == Some(l.price),
        r is None ==> fixed_priced_listing_of(move_resource_type@, data@, marketplace_contract_address@) is None,
{
    let needle = concat_str(marketplace_contract_address, "::coin_listing::FixedPriceListing");
    if !text_contains(move_resource_type, needle.as_str()) {
        return None;
    }
    let price = get_i64(data, "price")?;
    Some(FixedPriceListing { price })
}

/// What `get_listing_metadata` reads: standardized seller and token.
pub open spec fn listing_metadata_of(t: Seq<char>, data: JsonData, address: Seq<char>) -> Option<
    (Seq<char>, Seq<char>),
> {
    if !is_resource(t, address, "::listing::Listing"@) {
        None
    } else {
        match (field_str(data, "seller"@), field_inner_str(data, "object"@)) {
            (Some(s), Some(o)) => Some((standardized(s), standardized(o))),
            _ => None,
        }
    }
}

/// The listing of the contract, if `move_resource_type` is its listing
/// resource and `data` names seller and object.
pub fn get_listing_metadata(
    move_resource_type: &str,
    data: &JsonValue,
    marketplace_contract_address: &str,
) -> (r: Option<ListingMetadata>)
    ensures
        r matches Some(l) ==> listing_metadata_of(move_resource_type@, data@, marketplace_contract_address@)
            == Some((l.seller@, l.token_address@)),
        r is None ==> listing_metadata_of(move_resource_type@, data@, marketplace_contract_address@) is None,
{
    if !resource_is(move_resource_type, marketplace_contract_address, "::listing::Listing") {
        return None;
    }
    let seller = get_str(data, "seller")?;
    let object = get_inner_str(data, "object")?;
    Some(
        ListingMetadata {
            seller: standardize_address(seller.as_str()),
            token_address: standardize_address(object.as_str()),
        },
    )
}

/// What `get_object_core` reads.
pub open spec fn object_core_of(t: Seq<char>, data: JsonData) -> Option<(bool, Seq<char>, Seq<char>)> {
    if t != "0x1::object::ObjectCore"@ {
        None
    } else {
        match (
            match json_get(data, "allow_ungated_transfer"@) {
                Some(v) => json_as_bool(v),
                None => None,
            },
            field_str(data, "guid_creation_num"@),
            field_str(data, "owner"@),
        ) {
            (Some(a), Some(g), Some(o)) => Some((a, g, standardized(o))),
            _ => None,
        }
    }
}

/// The object core, if `move_resource_type` is `0x1::object::ObjectCore`
/// and `data` holds all of it.
pub fn get_object_core(move_resource_type: &str, data: &JsonValue) -> (r: Option<ObjectCore>)
    ensures
        r matches Some(o) ==> object_core_of(move_resource_type@, data@) == Some(
            (o.allow_ungated_transfer, o.guid_creation_num@, o.owner@),
        ),
        r is None ==> object_core_of(move_resource_type@, data@) is None,
{
    if !str_eq(move_resource_type, "0x1::object::ObjectCore") {
        return None;
    }
    let allow = match data.get("allow_ungated_transfer") {
        Some(v) => v.as_bool()?,
        None => return None,
    };
    let guid = get_str(data, "guid_creation_num")?;
    let owner = get_str(data, "owner")?;
    Some(
        ObjectCore {
            allow_ungated_transfer: allow,
            guid_creation_num: guid,
            owner: standardize_address(owner.as_str()),
        },
    )
}


/// The type arguments of the entry function that a request calls, directly
/// or inside a multisig transaction; none for other requests.
pub open spec fn type_arguments_of(req: UserTransactionRequest) -> Option<Seq<Option<MoveTypeContentView>>> {
    match req.payload {
        None => None,
        Some(p) => match p.payload {
            Some(PayloadType::EntryFunctionPayload(e)) => Some(move_types_view(e.type_arguments@)),
            Some(PayloadType::MultisigPayload(m)) => match m.transaction_payload {
                Some(t) => match t.payload {
                    Some(e) => Some(move_types_view(e.type_arguments@)),
                    None => None,
                },
                None => None,
            },
            _ => None,
        },
    }
}

/// Whether a multisig request that carries a transaction carries its
/// payload too.
pub open spec fn multisig_payload_present(req: UserTransactionRequest) -> bool {
    req.payload matches Some(p) && p.payload matches Some(PayloadType::MultisigPayload(m))
        && m.transaction_payload matches Some(t) ==> t.payload is Some
}

/// The type arguments of the entry function that a request calls.
pub fn extract_type_arguments(user_request: &UserTransactionRequest) -> (r: Option<Vec<MoveType>>)
    requires
        multisig_payload_present(*user_request),
    ensures
        r is None <==> type_arguments_of(*user_request) is None,
        r matches Some(v) ==> type_arguments_of(*user_request) == Some(move_types_view(v@)),
{
    match &user_request.payload {
        Some(txn_payload) => match &txn_payload.payload {
            Some(PayloadType::EntryFunctionPayload(payload)) => Some(copy_move_types(&payload.type_arguments)),
            Some(PayloadType::MultisigPayload(payload)) => match &payload.transaction_payload {
                Some(inner) => match &inner.payload {
                    Some(p) => Some(copy_move_types(&p.type_arguments)),
                    None => None,
                },
                None => None,
            },
            _ => None,
        },
        None => None,
    }
}

/// `address::module::name` of a struct type; none for any other type.
pub open spec fn move_type_text(t: Option<MoveTypeContentView>) -> Option<Seq<char>> {
    match t {
        Some(MoveTypeContentView::Struct(s)) => Some(s.address + "::"@ + s.module + "::"@ + s.name),
        _ => None,
    }
}

/// `address::module::name` of a struct type, for a type whose content is
/// known; none for any other type.
pub fn get_move_type_str(move_type: MoveType) -> (r: Option<String>)
    requires
        move_type.content is Some,
    ensures
        r is None <==> move_type_text(move_type@) is None,
        r matches Some(s) ==> move_type_text(move_type@) == Some(s@),
{
    match move_type.content {
        Some(MoveTypeContent::Struct(tag)) => {
            let a = concat_str(tag.address.as_str(), "::");
            let b = concat_str(a.as_str(), tag.module.as_str());
            let c = concat_str(b.as_str(), "::");
            Some(concat_str(c.as_str(), tag.name.as_str()))
        },
        _ => None,
    }
}

/// The concatenation of texts, in order.
pub open spec fn concat_all(texts: Seq<String>) -> Seq<char>
    decreases texts.len(),
{
    if texts.len() == 0 {
        Seq::empty()
    } else {
        concat_all(texts.drop_last()) + texts.last()@
    }
}

/// A struct type as the indexer stores it: the address standardized, the
/// struct name as `fun`, and the JSON texts of the type parameters joined.
pub fn convert_move_struct_tag(struct_tag: &MoveStructTagPB) -> (r: MoveStructTag)
    ensures
        r.resource_address@ == standardized(struct_tag.address@),
        r.module@ == struct_tag.module@,
        r.fun@ == struct_tag.name@,
        r.generic_type_params matches Some(p) && p@ == concat_all(struct_tag.generic_type_params@),
{
    let mut params = str_to_string("");
    let mut i: usize = 0;
    proof {
        reveal_strlit("");
    }
    while i < struct_tag.generic_type_params.len()
        invariant
            i <= struct_tag.generic_type_params@.len(),
            params@ == concat_all(struct_tag.generic_type_params@.take(i as int)),
        decreases struct_tag.generic_type_params@.len() - i,
    {
        proof {
            let t = struct_tag.generic_type_params@;
            assert(t.take(i + 1).drop_last() =~= t.take(i as int));
        }
        params = concat_str(params.as_str(), struct_tag.generic_type_params[i].as_str());
        i = i + 1;
    }
    assert(struct_tag.generic_type_params@.take(i as int) =~= struct_tag.generic_type_params@);
    MoveStructTag {
        resource_address: standardize_address(struct_tag.address.as_str()),
        module: struct_tag.module.clone(),
        fun: struct_tag.name.clone(),
        generic_type_params: Some(params),
    }
}

} // verus!
