//! Token standards and the offer and listing resources of marketplaces.
use crate::text::str_to_string;
use vstd::prelude::*;

verus! {

/// Longest collection or token name kept, in bytes.
pub const MAX_NAME_LENGTH: usize = 128;

/// The token standard of an NFT.
#[derive(Debug, Clone, Copy, PartialEq, Eq, Structural)]
pub enum TokenStandard {
    V1,
    V2,
}

/// The name of a token standard.
pub open spec fn token_standard_name(t: TokenStandard) -> Seq<char> {
    match t {
        TokenStandard::V1 => "v1"@,
        TokenStandard::V2 => "v2"@,
    }
}

/// The texts that name a token standard, in either case.
pub open spec fn parse_token_standard(s: Seq<char>) -> Option<TokenStandard> {
    if s.len() == 2 && (s[0] == 'v' || s[0] == 'V') && s[1] == '1' {
        Some(TokenStandard::V1)
    } else if s.len() == 2 && (s[0] == 'v' || s[0] == 'V') && s[1] == '2' {
        Some(TokenStandard::V2)
    } else {
        None
    }
}

impl TokenStandard {
    /// `"v1"` or `"v2"`.
    pub fn as_str(&self) -> (r: &'static str)
        ensures
            r@ == token_standard_name(*self),
    {
        match self {
            TokenStandard::V1 => "v1",
            TokenStandard::V2 => "v2",
        }
    }

    /// The name of the standard, as `Display` writes it.
    pub fn to_string(&self) -> (r: String)
        ensures
            r@ == token_standard_name(*self),
    {
        str_to_string(self.as_str())
    }

    /// Parses `v1` or `v2`, in either case (the text is lowercased first).
    pub fn from_str(s: &str) -> (r: Result<TokenStandard, ()>)
        ensures
            r matches Ok(t) ==> parse_token_standard(s@) == Some(t),
            r is Err ==> parse_token_standard(s@) is None,
    {
        if s.unicode_len() != 2 {
            return Err(());
        }
        let c0 = s.get_char(0);
        let c1 = s.get_char(1);
        if c0 == 'v' || c0 == 'V' {
            if c1 == '1' {
                return Ok(TokenStandard::V1);
            } else if c1 == '2' {
                return Ok(TokenStandard::V2);
            }
        }
        Err(())
    }
}

/// Parsing the name of a token standard gives back that standard.
pub proof fn lemma_token_standard_round_trip(t: TokenStandard)
    ensures
        parse_token_standard(token_standard_name(t)) == Some(t),
{
    reveal_strlit("v1");
    reveal_strlit("v2");
}

/// A listing at a fixed price.
#[derive(Debug, Clone, Copy, PartialEq, Eq)]
pub struct FixedPriceListing {
    pub price: i64,
}

/// An offer for a token, by token standard.
pub enum TokenOffer {
    V1(TokenOfferV1),
    V2(TokenOfferV2),
}

impl TokenOffer {
    /// The offer, if it is for a v1 token.
    pub fn as_v1(&self) -> (r: Option<&TokenOfferV1>)
        ensures
            r matches Some(v) ==> *self == TokenOffer::V1(*v),
            r is None <==> !(*self is V1),
    {
        match self {
            TokenOffer::V1(v1) => Some(v1),
            _ => None,
        }
    }

    /// The offer, if it is for a v2 token.
    pub fn as_v2(&self) -> (r: Option<&TokenOfferV2>)
        ensures
            r matches Some(v) ==> *self == TokenOffer::V2(*v),
            r is None <==> !(*self is V2),
    {
        match self {
            TokenOffer::V2(v2) => Some(v2),
            _ => None,
        }
    }
}

/// An offer for a v1 token.
pub struct TokenOfferV1 {
    pub token_metadata: TokenMetadata,
}

/// An offer for a v2 token, by its address.
pub struct TokenOfferV2 {
    pub token_address: String,
}

/// An offer for any token of a collection, by token standard.
pub enum CollectionOffer {
    V1(CollectionOfferV1),
    V2(CollectionOfferV2),
}

impl CollectionOffer {
    /// The offer, if it is for a v1 collection.
    pub fn as_v1(&self) -> (r: Option<&CollectionOfferV1>)
        ensures
            r matches Some(v) ==> *self == CollectionOffer::V1(*v),
            r is None <==> !(*self is V1),
    {
        match self {
            CollectionOffer::V1(v1) => Some(v1),
            _ => None,
        }
    }

    /// The offer, if it is for a v2 collection.
    pub fn as_v2(&self) -> (r: Option<&CollectionOfferV2>)
        ensures
            r matches Some(v) ==> *self == CollectionOffer::V2(*v),
            r is None <==> !(*self is V2),
    {
        match self {
            CollectionOffer::V2(v2) => Some(v2),
            _ => None,
        }
    }
}

/// A collection offer for a v1 collection.
pub struct CollectionOfferV1 {
    pub collection_metadata: CollectionMetadata,
}

/// A collection offer for a v2 collection, by its address.
pub struct CollectionOfferV2 {
    pub collection_address: String,
}

/// What identifies a token.
pub struct TokenMetadata {
    pub collection_id: String,
    pub token_data_id: String,
    pub creator_address: String,
    pub collection_name: String,
    pub token_name: String,
    pub token_standard: TokenStandard,
}

/// What identifies a collection.
pub struct CollectionMetadata {
    pub collection_id: String,
    pub creator_address: String,
    pub collection_name: String,
    pub token_standard: TokenStandard,
}

} // verus!
