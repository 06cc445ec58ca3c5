//! Marketplace contracts as the processor sees them: the events of listings,
//! offers and collection offers of each marketplace, and where in their data
//! each field is read.
use crate::error::{IndexerError, IndexerErrorView};
use crate::json::json_path_parses;
use crate::processors::{path_or_root, HashableJsonPath};
use crate::str_map::StrMap;
use crate::text::str_eq;
use vstd::prelude::*;

verus! {

/// Maximum length of a token name in characters.
pub const MAX_TOKEN_NAME_LENGTH: usize = 128;

/// The marketplace configurations.
pub struct NFTMarketplaceConfigs {
    pub marketplace_configs: Vec<MarketplaceConfig>,
}

/// A marketplace: its name, where its event data holds each field, and its
/// listing, offer and collection offer events.
pub struct MarketplaceConfig {
    pub marketplace_name: String,
    pub event_config: EventConfig,
    pub listing_config: ListingConfig,
    pub offer_config: OfferConfig,
    pub collection_offer_config: CollectionOfferConfig,
}

/// The listing events of a marketplace, with the paths that override the
/// marketplace-wide buyer and seller paths.
pub struct ListingConfig {
    pub cancel_event: String,
    pub fill_event: String,
    pub place_event: String,
    pub collection_name: Option<String>,
    pub buyer: Option<String>,
    pub seller: Option<String>,
}

/// The direct offer events of a marketplace, with the paths that override
/// the marketplace-wide buyer and seller paths.
pub struct OfferConfig {
    pub cancel_event: String,
    pub fill_event: String,
    pub place_event: String,
    pub buyer: Option<String>,
    pub seller: Option<String>,
}

/// The collection offer events of a marketplace and the deadline path they
/// share.
pub struct CollectionOfferConfig {
    pub cancel_event: CollectionEventParams,
    pub fill_event: CollectionEventParams,
    pub place_event: CollectionEventParams,
    pub deadline: Option<String>,
}

/// A collection offer event and where its collection name and creator
/// address are read, which may differ from event to event.
pub struct CollectionEventParams {
    pub event_type: String,
    pub collection_name: Option<String>,
    pub creator_address: Option<String>,
}

/// Where the event data of a marketplace holds each field.
pub struct EventConfig {
    pub creator_address: Option<String>,
    pub collection_id: Option<String>,
    pub token_data_id: Option<String>,
    pub token_name: Option<String>,
    pub price: Option<String>,
    pub token_amount: Option<String>,
    pub buyer: Option<String>,
    pub seller: Option<String>,
    pub collection_name: Option<String>,
    pub deadline: Option<String>,
    pub token_inner: Option<String>,
    pub collection_inner: Option<String>,
}

/// The standard marketplace event types.
#[derive(Debug, Clone, Copy, PartialEq, Eq)]
pub enum MarketplaceEventType {
    PlaceListing,
    CancelListing,
    FillListing,
    PlaceOffer,
    CancelOffer,
    FillOffer,
    PlaceCollectionOffer,
    CancelCollectionOffer,
    FillCollectionOffer,
}

/// The snake case name of an event type.
pub open spec fn event_type_name(t: MarketplaceEventType) -> Seq<char> {
    match t {
        MarketplaceEventType::PlaceListing => "place_listing"@,
        MarketplaceEventType::CancelListing => "cancel_listing"@,
        MarketplaceEventType::FillListing => "fill_listing"@,
        MarketplaceEventType::PlaceOffer => "place_offer"@,
        MarketplaceEventType::CancelOffer => "cancel_offer"@,
        MarketplaceEventType::FillOffer => "fill_offer"@,
        MarketplaceEventType::PlaceCollectionOffer => "place_collection_offer"@,
        MarketplaceEventType::CancelCollectionOffer => "cancel_collection_offer"@,
        MarketplaceEventType::FillCollectionOffer => "fill_collection_offer"@,
    }
}

/// The event type whose name is `s`.
pub open spec fn event_type_named(s: Seq<char>) -> Option<MarketplaceEventType> {
    if s == "place_listing"@ {
        Some(MarketplaceEventType::PlaceListing)
    } else if s == "cancel_listing"@ {
        Some(MarketplaceEventType::CancelListing)
    } else if s == "fill_listing"@ {
        Some(MarketplaceEventType::FillListing)
    } else if s == "place_offer"@ {
        Some(MarketplaceEventType::PlaceOffer)
    } else if s == "cancel_offer"@ {
        Some(MarketplaceEventType::CancelOffer)
    } else if s == "fill_offer"@ {
        Some(MarketplaceEventType::FillOffer)
    } else if s == "place_collection_offer"@ {
        Some(MarketplaceEventType::PlaceCollectionOffer)
    } else if s == "cancel_collection_offer"@ {
        Some(MarketplaceEventType::CancelCollectionOffer)
    } else if s == "fill_collection_offer"@ {
        Some(MarketplaceEventType::FillCollectionOffer)
    } else {
        None
    }
}

impl MarketplaceEventType {
    /// The snake case name.
    pub fn as_str(&self) -> (r: &'static str)
        ensures
            r@ == event_type_name(*self),
    {
        match self {
            MarketplaceEventType::PlaceListing => "place_listing",
            MarketplaceEventType::CancelListing => "cancel_listing",
            MarketplaceEventType::FillListing => "fill_listing",
            MarketplaceEventType::PlaceOffer => "place_offer",
            MarketplaceEventType::CancelOffer => "cancel_offer",
            MarketplaceEventType::FillOffer => "fill_offer",
            MarketplaceEventType::PlaceCollectionOffer => "place_collection_offer",
            MarketplaceEventType::CancelCollectionOffer => "cancel_collection_offer",
            MarketplaceEventType::FillCollectionOffer => "fill_collection_offer",
        }
    }

    /// The snake case name, as `Display` writes it.
    pub fn to_string(&self) -> (r: String)
        ensures
            r@ == event_type_name(*self),
    {
        let s = self.as_str();
        s.to_string()
    }

    /// The event type named `input`.
    pub fn from_str(input: &str) -> (r: Result<MarketplaceEventType, ()>)
        ensures
            r matches Ok(t) ==> event_type_named(input@) == Some(t),
            r is Err ==> event_type_named(input@) is None,
    {
        if str_eq(input, "place_listing") {
            Ok(MarketplaceEventType::PlaceListing)
        } else if str_eq(input, "cancel_listing") {
            Ok(MarketplaceEventType::CancelListing)
        } else if str_eq(input, "fill_listing") {
            Ok(MarketplaceEventType::FillListing)
        } else if str_eq(input, "place_offer") {
            Ok(MarketplaceEventType::PlaceOffer)
        } else if str_eq(input, "cancel_offer") {
            Ok(MarketplaceEventType::CancelOffer)
        } else if str_eq(input, "fill_offer") {
            Ok(MarketplaceEventType::FillOffer)
        } else if str_eq(input, "place_collection_offer") {
            Ok(MarketplaceEventType::PlaceCollectionOffer)
        } else if str_eq(input, "cancel_collection_offer") {
            Ok(MarketplaceEventType::CancelCollectionOffer)
        } else if str_eq(input, "fill_collection_offer") {
            Ok(MarketplaceEventType::FillCollectionOffer)
        } else {
            Err(())
        }
    }
}

/// Every event type is found again by its name.
pub proof fn lemma_event_type_name_round_trip(t: MarketplaceEventType)
    ensures
        event_type_named(event_type_name(t)) == Some(t),
{
    reveal_strlit("place_listing");
    reveal_strlit("cancel_listing");
    reveal_strlit("fill_listing");
    reveal_strlit("place_offer");
    reveal_strlit("cancel_offer");
    reveal_strlit("fill_offer");
    reveal_strlit("place_collection_offer");
    reveal_strlit("cancel_collection_offer");
    reveal_strlit("fill_collection_offer");
    assert("place_listing"@.len() == 13);
    assert("cancel_listing"@.len() == 14);
    assert("fill_listing"@.len() == 12);
    assert("place_offer"@.len() == 11);
    assert("cancel_offer"@.len() == 12);
    assert("fill_offer"@.len() == 10);
    assert("place_collection_offer"@.len() == 22);
    assert("cancel_collection_offer"@.len() == 23);
    assert("fill_collection_offer"@.len() == 21);
    assert("fill_listing"@[0] != "cancel_offer"@[0]);
}

/// An optional text by its content.
pub open spec fn opt_text_view(o: Option<String>) -> Option<Seq<char>> {
    match o {
        Some(s) => Some(s@),
        None => None,
    }
}

/// `preferred` when present, else `fallback`.
pub open spec fn or_else(preferred: Option<Seq<char>>, fallback: Option<Seq<char>>) -> Option<Seq<char>> {
    if preferred is Some {
        preferred
    } else {
        fallback
    }
}

/// The paths of an event's fields, by content: token name, price, token
/// amount, seller, buyer, collection name, creator address, collection id,
/// deadline, token inner and collection inner, in the order they are built.
pub open spec fn event_field_paths(
    c: EventConfig,
    collection_name: Option<Seq<char>>,
    creator_address: Option<Seq<char>>,
    deadline: Option<Seq<char>>,
    buyer: Option<Seq<char>>,
    seller: Option<Seq<char>>,
) -> Seq<Option<Seq<char>>> {
    seq![
        opt_text_view(c.token_name),
        opt_text_view(c.price),
        opt_text_view(c.token_amount),
        or_else(seller, opt_text_view(c.seller)),
        or_else(buyer, opt_text_view(c.buyer)),
        or_else(collection_name, opt_text_view(c.collection_name)),
        or_else(creator_address, opt_text_view(c.creator_address)),
        opt_text_view(c.collection_id),
        or_else(deadline, opt_text_view(c.deadline)),
        opt_text_view(c.token_inner),
        opt_text_view(c.collection_inner),
    ]
}

/// The first of `paths` that does not parse, as the path it stands for.
pub open spec fn first_bad_field_path(paths: Seq<Option<Seq<char>>>) -> Option<Seq<char>>
    decreases paths.len(),
{
    if paths.len() == 0 {
        None
    } else if !json_path_parses(path_or_root(paths[0])) {
        Some(path_or_root(paths[0]))
    } else {
        first_bad_field_path(paths.drop_first())
    }
}

/// How a marketplace event is read: its standard type, the marketplace,
/// and the path of each field.
pub struct MarketplaceEventConfig {
    pub event_type: MarketplaceEventType,
    pub marketplace: String,
    pub creator_address: HashableJsonPath,
    pub collection_id: HashableJsonPath,
    pub token_name: HashableJsonPath,
    pub price: HashableJsonPath,
    pub token_amount: HashableJsonPath,
    pub buyer: HashableJsonPath,
    pub seller: HashableJsonPath,
    pub collection_name: HashableJsonPath,
    pub deadline: HashableJsonPath,
    pub token_inner: HashableJsonPath,
    pub collection_inner: HashableJsonPath,
}

/// The plain content of a `MarketplaceEventConfig`: the field paths in the
/// order of `event_field_paths`.
pub struct MarketplaceEventConfigView {
    pub event_type: MarketplaceEventType,
    pub marketplace: Seq<char>,
    pub paths: Seq<Option<Seq<char>>>,
}

impl View for MarketplaceEventConfig {
    type V = MarketplaceEventConfigView;

    open spec fn view(&self) -> MarketplaceEventConfigView {
        MarketplaceEventConfigView {
            event_type: self.event_type,
            marketplace: self.marketplace@,
            paths: seq![
                self.token_name.raw_view(),
                self.price.raw_view(),
                self.token_amount.raw_view(),
                self.seller.raw_view(),
                self.buyer.raw_view(),
                self.collection_name.raw_view(),
                self.creator_address.raw_view(),
                self.collection_id.raw_view(),
                self.deadline.raw_view(),
                self.token_inner.raw_view(),
                self.collection_inner.raw_view(),
            ],
        }
    }
}

/// What `from_event_config` makes: the first field path that does not
/// parse is the error.
pub open spec fn event_config_result(
    c: EventConfig,
    event_type: MarketplaceEventType,
    marketplace: Seq<char>,
    collection_name: Option<Seq<char>>,
    creator_address: Option<Seq<char>>,
    deadline: Option<Seq<char>>,
    buyer: Option<Seq<char>>,
    seller: Option<Seq<char>>,
) -> Result<MarketplaceEventConfigView, IndexerErrorView> {
    let paths = event_field_paths(c, collection_name, creator_address, deadline, buyer, seller);
    match first_bad_field_path(paths) {
        Some(p) => Err(IndexerErrorView::InvalidJsonPath(p)),
        None => Ok(MarketplaceEventConfigView { event_type, marketplace, paths }),
    }
}

/// A copy of an optional text.
fn copy_opt(o: &Option<String>) -> (r: Option<String>)
    ensures
        opt_text_view(r) == opt_text_view(*o),
{
    match o {
        Some(s) => Some(s.clone()),
        None => None,
    }
}

/// `preferred` when present, else a copy of `fallback`.
fn prefer(preferred: Option<String>, fallback: &Option<String>) -> (r: Option<String>)
    ensures
        opt_text_view(r) == or_else(opt_text_view(preferred), opt_text_view(*fallback)),
{
    if preferred.is_some() {
        preferred
    } else {
        copy_opt(fallback)
    }
}

impl MarketplaceEventConfig {
    /// How events of type `event_type` of marketplace `marketplace_name` are
    /// read: the marketplace's paths, with the given collection name,
    /// creator address, deadline, buyer and seller paths in place of the
    /// marketplace's where present. The first path that does not parse is
    /// the error.
    pub fn from_event_config(
        event_config: &EventConfig,
        event_type: MarketplaceEventType,
        marketplace_name: String,
        collection_name: Option<String>,
        creator_address: Option<String>,
        deadline: Option<String>,
        buyer: Option<String>,
        seller: Option<String>,
    ) -> (r: Result<MarketplaceEventConfig, IndexerError>)
        ensures
            r matches Ok(m) ==> event_config_result(
                *event_config,
                event_type,
                marketplace_name@,
                opt_text_view(collection_name),
                opt_text_view(creator_address),
                opt_text_view(deadline),
                opt_text_view(buyer),
                opt_text_view(seller),
            ) == Ok::<MarketplaceEventConfigView, IndexerErrorView>(m@),
            r matches Err(e) ==> event_config_result(
                *event_config,
                event_type,
                marketplace_name@,
                opt_text_view(collection_name),
                opt_text_view(creator_address),
                opt_text_view(deadline),
                opt_text_view(buyer),
                opt_text_view(seller),
            ) == Err::<MarketplaceEventConfigView, IndexerErrorView>(e@),
    {
        let ghost paths = event_field_paths(
            *event_config,
            opt_text_view(collection_name),
            opt_text_view(creator_address),
            opt_text_view(deadline),
            opt_text_view(buyer),
            opt_text_view(seller),
        );
        proof {
            lemma_first_bad_field_path_unfold(paths);
        }
        let token_name = match HashableJsonPath::new(copy_opt(&event_config.token_name)) {
            Ok(p) => p,
            Err(e) => {
                proof {
                    assert(paths.skip(0)[0] == paths[0]);
                    assert(first_bad_field_path(paths.skip(0)) == Some(path_or_root(paths[0])));
                }
                return Err(e);
            },
        };
        assert(json_path_parses(path_or_root(paths[0])));
        let price = match HashableJsonPath::new(copy_opt(&event_config.price)) {
            Ok(p) => p,
            Err(e) => {
                proof {
                    assert(paths.skip(1)[0] == paths[1]);
                    assert(first_bad_field_path(paths.skip(1)) == Some(path_or_root(paths[1])));
                }
                return Err(e);
            },
        };
        assert(json_path_parses(path_or_root(paths[1])));
        let token_amount = match HashableJsonPath::new(copy_opt(&event_config.token_amount)) {
            Ok(p) => p,
            Err(e) => {
                proof {
                    assert(paths.skip(2)[0] == paths[2]);
                    assert(first_bad_field_path(paths.skip(2)) == Some(path_or_root(paths[2])));
                }
                return Err(e);
            },
        };
        assert(json_path_parses(path_or_root(paths[2])));
        let seller = match HashableJsonPath::new(prefer(seller, &event_config.seller)) {
            Ok(p) => p,
            Err(e) => {
                proof {
                    assert(paths.skip(3)[0] == paths[3]);
                    assert(first_bad_field_path(paths.skip(3)) == Some(path_or_root(paths[3])));
                }
                return Err(e);
            },
        };
        assert(json_path_parses(path_or_root(paths[3])));
        let buyer = match HashableJsonPath::new(prefer(buyer, &event_config.buyer)) {
            Ok(p) => p,
            Err(e) => {
                proof {
                    assert(paths.skip(4)[0] == paths[4]);
                    assert(first_bad_field_path(paths.skip(4)) == Some(path_or_root(paths[4])));
                }
                return Err(e);
            },
        };
        assert(json_path_parses(path_or_root(paths[4])));
        let collection_name = match HashableJsonPath::new(prefer(collection_name, &event_config.collection_name)) {
            Ok(p) => p,
            Err(e) => {
                proof {
                    assert(paths.skip(5)[0] == paths[5]);
                    assert(first_bad_field_path(paths.skip(5)) == Some(path_or_root(paths[5])));
                }
                return Err(e);
            },
        };
        assert(json_path_parses(path_or_root(paths[5])));
        let creator_address = match HashableJsonPath::new(prefer(creator_address, &event_config.creator_address)) {
            Ok(p) => p,
            Err(e) => {
                proof {
                    assert(paths.skip(6)[0] == paths[6]);
                    assert(first_bad_field_path(paths.skip(6)) == Some(path_or_root(paths[6])));
                }
                return Err(e);
            },
        };
        assert(json_path_parses(path_or_root(paths[6])));
        let collection_id = match HashableJsonPath::new(copy_opt(&event_config.collection_id)) {
            Ok(p) => p,
            Err(e) => {
                proof {
                    assert(paths.skip(7)[0] == paths[7]);
                    assert(first_bad_field_path(paths.skip(7)) == Some(path_or_root(paths[7])));
                }
                return Err(e);
            },
        };
        assert(json_path_parses(path_or_root(paths[7])));
        let deadline = match HashableJsonPath::new(prefer(deadline, &event_config.deadline)) {
            Ok(p) => p,
            Err(e) => {
                proof {
                    assert(paths.skip(8)[0] == paths[8]);
                    assert(first_bad_field_path(paths.skip(8)) == Some(path_or_root(paths[8])));
                }
                return Err(e);
            },
        };
        assert(json_path_parses(path_or_root(paths[8])));
        let token_inner = match HashableJsonPath::new(copy_opt(&event_config.token_inner)) {
            Ok(p) => p,
            Err(e) => {
                proof {
                    assert(paths.skip(9)[0] == paths[9]);
                    assert(first_bad_field_path(paths.skip(9)) == Some(path_or_root(paths[9])));
                }
                return Err(e);
            },
        };
        assert(json_path_parses(path_or_root(paths[9])));
        let collection_inner = match HashableJsonPath::new(copy_opt(&event_config.collection_inner)) {
            Ok(p) => p,
            Err(e) => {
                proof {
                    assert(paths.skip(10)[0] == paths[10]);
                    assert(first_bad_field_path(paths.skip(10)) == Some(path_or_root(paths[10])));
                }
                return Err(e);
            },
        };
        assert(json_path_parses(path_or_root(paths[10])));
        let r = MarketplaceEventConfig {
            event_type,
            marketplace: marketplace_name,
            creator_address,
            collection_id,
            token_name,
            price,
            token_amount,
            buyer,
            seller,
            collection_name,
            deadline,
            token_inner,
            collection_inner,
        };
        assert(r@.paths =~= paths);
        proof {
            assert(paths.skip(11) =~= Seq::<Option<Seq<char>>>::empty());
        }
        Ok(r)
    }
}

/// The first bad path of a sequence, position by position: the first
/// position whose path does not parse.
pub proof fn lemma_first_bad_field_path_unfold(paths: Seq<Option<Seq<char>>>)
    ensures
        forall|k: int|
            0 <= k <= paths.len() && (forall|j: int|
                0 <= j < k ==> json_path_parses(path_or_root(#[trigger] paths[j])))
                ==> first_bad_field_path(paths) == first_bad_field_path(#[trigger] paths.skip(k)),
    decreases paths.len(),
{
    if paths.len() == 0 {
        assert(paths.skip(0) =~= paths);
    } else {
        lemma_first_bad_field_path_unfold(paths.drop_first());
        assert forall|k: int|
            0 <= k <= paths.len() && (forall|j: int|
                0 <= j < k ==> json_path_parses(path_or_root(#[trigger] paths[j])))
                implies first_bad_field_path(paths) == first_bad_field_path(#[trigger] paths.skip(k)) by {
            if k == 0 {
                assert(paths.skip(0) =~= paths);
            } else {
                assert(json_path_parses(path_or_root(paths[0])));
                let rest = paths.drop_first();
                assert forall|j: int| 0 <= j < k - 1 implies json_path_parses(
                    path_or_root(#[trigger] rest[j]),
                ) by {
                    assert(rest[j] == paths[j + 1]);
                }
                assert(rest.skip(k - 1) =~= paths.skip(k));
            }
        }
    }
}

/// An event entry of a marketplace: the event type string, its standard
/// type, and the collection name, creator address, deadline, buyer and
/// seller paths that override the marketplace's.
pub type EventEntry = (
    Seq<char>,
    MarketplaceEventType,
    Option<Seq<char>>,
    Option<Seq<char>>,
    Option<Seq<char>>,
    Option<Seq<char>>,
    Option<Seq<char>>,
);

/// The nine events of a marketplace, in order: the listing events (place,
/// cancel, fill) with the listing buyer and seller paths, the offer events
/// with the offer buyer and seller paths, and the collection offer events
/// each with its collection name and creator address paths and the shared
/// deadline path.
pub open spec fn marketplace_entries(c: MarketplaceConfig) -> Seq<EventEntry> {
    let l = c.listing_config;
    let o = c.offer_config;
    let co = c.collection_offer_config;
    seq![
        (l.place_event@, MarketplaceEventType::PlaceListing, None, None, None, opt_text_view(l.buyer), opt_text_view(l.seller)),
        (l.cancel_event@, MarketplaceEventType::CancelListing, None, None, None, opt_text_view(l.buyer), opt_text_view(l.seller)),
        (l.fill_event@, MarketplaceEventType::FillListing, None, None, None, opt_text_view(l.buyer), opt_text_view(l.seller)),
        (o.place_event@, MarketplaceEventType::PlaceOffer, None, None, None, opt_text_view(o.buyer), opt_text_view(o.seller)),
        (o.cancel_event@, MarketplaceEventType::CancelOffer, None, None, None, opt_text_view(o.buyer), opt_text_view(o.seller)),
        (o.fill_event@, MarketplaceEventType::FillOffer, None, None, None, opt_text_view(o.buyer), opt_text_view(o.seller)),
        (
            co.place_event.event_type@,
            MarketplaceEventType::PlaceCollectionOffer,
            opt_text_view(co.place_event.collection_name),
            opt_text_view(co.place_event.creator_address),
            opt_text_view(co.deadline),
            None,
            None,
        ),
        (
            co.cancel_event.event_type@,
            MarketplaceEventType::CancelCollectionOffer,
            opt_text_view(co.cancel_event.collection_name),
            opt_text_view(co.cancel_event.creator_address),
            opt_text_view(co.deadline),
            None,
            None,
        ),
        (
            co.fill_event.event_type@,
            MarketplaceEventType::FillCollectionOffer,
            opt_text_view(co.fill_event.collection_name),
            opt_text_view(co.fill_event.creator_address),
            opt_text_view(co.deadline),
            None,
            None,
        ),
    ]
}

/// The event configurations of a marketplace by event type string, built
/// entry by entry (a later entry for the same string replaces an earlier
/// one); the first entry that fails is the error.
pub open spec fn mapping_of(c: EventConfig, name: Seq<char>, entries: Seq<EventEntry>) -> Result<
    Map<Seq<char>, MarketplaceEventConfigView>,
    IndexerErrorView,
>
    decreases entries.len(),
{
    if entries.len() == 0 {
        Ok(Map::empty())
    } else {
        match mapping_of(c, name, entries.drop_last()) {
            Err(e) => Err(e),
            Ok(m) => {
                let x = entries.last();
                match event_config_result(c, x.1, name, x.2, x.3, x.4, x.5, x.6) {
                    Err(e) => Err(e),
                    Ok(v) => Ok(m.insert(x.0, v)),
                }
            },
        }
    }
}

/// The event mappings of marketplaces `configs`: per marketplace name, its
/// event configurations; per event type string, the marketplace it belongs
/// to (a later marketplace replaces an earlier one with the same name or
/// event string). The first failing event is the error.
pub open spec fn event_mappings_of(configs: Seq<MarketplaceConfig>) -> Result<
    (Map<Seq<char>, Map<Seq<char>, MarketplaceEventConfigView>>, Map<Seq<char>, Seq<char>>),
    IndexerErrorView,
>
    decreases configs.len(),
{
    if configs.len() == 0 {
        Ok((Map::empty(), Map::empty()))
    } else {
        match event_mappings_of(configs.drop_last()) {
            Err(e) => Err(e),
            Ok(prev) => {
                let c = configs.last();
                match mapping_of(c.event_config, c.marketplace_name@, marketplace_entries(c)) {
                    Err(e) => Err(e),
                    Ok(m) => Ok(
                        (
                            prev.0.insert(c.marketplace_name@, m),
                            prev.1.union_prefer_right(
                                Map::new(|k: Seq<char>| m.contains_key(k), |k: Seq<char>| c.marketplace_name@),
                            ),
                        ),
                    ),
                }
            },
        }
    }
}

/// The event configurations of a map, by content.
pub open spec fn configs_view(m: StrMap<MarketplaceEventConfig>) -> Map<Seq<char>, MarketplaceEventConfigView> {
    Map::new(|k: Seq<char>| m.view_map().contains_key(k), |k: Seq<char>| m.view_map()[k]@)
}

/// The marketplaces' event configurations, by content.
pub open spec fn mappings_view(m: StrMap<StrMap<MarketplaceEventConfig>>) -> Map<
    Seq<char>,
    Map<Seq<char>, MarketplaceEventConfigView>,
> {
    Map::new(|k: Seq<char>| m.view_map().contains_key(k), |k: Seq<char>| configs_view(m.view_map()[k]))
}

/// The marketplace of each event type string, by content.
pub open spec fn contracts_view(m: StrMap<String>) -> Map<Seq<char>, Seq<char>> {
    Map::new(|k: Seq<char>| m.view_map().contains_key(k), |k: Seq<char>| m.view_map()[k]@)
}

/// The event entries of a marketplace, as values.
fn entries_of(c: &MarketplaceConfig) -> (r: Vec<
    (
        String,
        MarketplaceEventType,
        Option<String>,
        Option<String>,
        Option<String>,
        Option<String>,
        Option<String>,
    ),
>)
    ensures
        r@.len() == 9,
        forall|i: int|
            0 <= i < 9 ==> (
                (#[trigger] r@[i]).0@,
                r@[i].1,
                opt_text_view(r@[i].2),
                opt_text_view(r@[i].3),
                opt_text_view(r@[i].4),
                opt_text_view(r@[i].5),
                opt_text_view(r@[i].6),
            ) == marketplace_entries(*c)[i],
{
    let l = &c.listing_config;
    let o = &c.offer_config;
    let co = &c.collection_offer_config;
    let mut r = Vec::new();
    r.push((l.place_event.clone(), MarketplaceEventType::PlaceListing, None, None, None, copy_opt(&l.buyer), copy_opt(&l.seller)));
    r.push((l.cancel_event.clone(), MarketplaceEventType::CancelListing, None, None, None, copy_opt(&l.buyer), copy_opt(&l.seller)));
    r.push((l.fill_event.clone(), MarketplaceEventType::FillListing, None, None, None, copy_opt(&l.buyer), copy_opt(&l.seller)));
    r.push((o.place_event.clone(), MarketplaceEventType::PlaceOffer, None, None, None, copy_opt(&o.buyer), copy_opt(&o.seller)));
    r.push((o.cancel_event.clone(), MarketplaceEventType::CancelOffer, None, None, None, copy_opt(&o.buyer), copy_opt(&o.seller)));
    r.push((o.fill_event.clone(), MarketplaceEventType::FillOffer, None, None, None, copy_opt(&o.buyer), copy_opt(&o.seller)));
    r.push((
        co.place_event.event_type.clone(),
        MarketplaceEventType::PlaceCollectionOffer,
        copy_opt(&co.place_event.collection_name),
        copy_opt(&co.place_event.creator_address),
        copy_opt(&co.deadline),
        None,
        None,
    ));
    r.push((
        co.cancel_event.event_type.clone(),
        MarketplaceEventType::CancelCollectionOffer,
        copy_opt(&co.cancel_event.collection_name),
        copy_opt(&co.cancel_event.creator_address),
        copy_opt(&co.deadline),
        None,
        None,
    ));
    r.push((
        co.fill_event.event_type.clone(),
        MarketplaceEventType::FillCollectionOffer,
        copy_opt(&co.fill_event.collection_name),
        copy_opt(&co.fill_event.creator_address),
        copy_opt(&co.deadline),
        None,
        None,
    ));
    r
}

/// Once building a prefix of the entries fails, building all of them
/// fails the same way.
pub proof fn lemma_mapping_error_persists(c: EventConfig, name: Seq<char>, entries: Seq<EventEntry>, k: int)
    requires
        0 <= k <= entries.len(),
        mapping_of(c, name, entries.take(k)) is Err,
    ensures
        mapping_of(c, name, entries) == mapping_of(c, name, entries.take(k)),
    decreases entries.len() - k,
{
    if k == entries.len() {
        assert(entries.take(k) =~= entries);
    } else {
        assert(entries.take(k + 1).drop_last() =~= entries.take(k));
        lemma_mapping_error_persists(c, name, entries, k + 1);
    }
}

/// Once a prefix of the marketplaces fails, all of them fail the same way.
pub proof fn lemma_mappings_error_persists(configs: Seq<MarketplaceConfig>, k: int)
    requires
        0 <= k <= configs.len(),
        event_mappings_of(configs.take(k)) is Err,
    ensures
        event_mappings_of(configs) == event_mappings_of(configs.take(k)),
    decreases configs.len() - k,
{
    if k == configs.len() {
        assert(configs.take(k) =~= configs);
    } else {
        assert(configs.take(k + 1).drop_last() =~= configs.take(k));
        lemma_mappings_error_persists(configs, k + 1);
    }
}

/// The event configurations of marketplace `c`.
fn mapping_for(c: &MarketplaceConfig) -> (r: Result<StrMap<MarketplaceEventConfig>, IndexerError>)
    ensures
        r matches Ok(m) ==> m.wf() && mapping_of(c.event_config, c.marketplace_name@, marketplace_entries(*c))
            == Ok::<Map<Seq<char>, MarketplaceEventConfigView>, IndexerErrorView>(configs_view(m)),
        r matches Err(e) ==> mapping_of(c.event_config, c.marketplace_name@, marketplace_entries(*c))
            == Err::<Map<Seq<char>, MarketplaceEventConfigView>, IndexerErrorView>(e@),
{
    let ghost entries = marketplace_entries(*c);
    let list = entries_of(c);
    let mut mapping: StrMap<MarketplaceEventConfig> = StrMap::new();
    let mut i: usize = 0;
    assert(entries.take(0) =~= Seq::<EventEntry>::empty());
    assert(configs_view(mapping) =~= Map::<Seq<char>, MarketplaceEventConfigView>::empty());
    while i < list.len()
        invariant
            list@.len() == 9,
            entries == marketplace_entries(*c),
            forall|j: int|
                0 <= j < 9 ==> (
                    (#[trigger] list@[j]).0@,
                    list@[j].1,
                    opt_text_view(list@[j].2),
                    opt_text_view(list@[j].3),
                    opt_text_view(list@[j].4),
                    opt_text_view(list@[j].5),
                    opt_text_view(list@[j].6),
                ) == entries[j],
            i <= 9,
            mapping.wf(),
            mapping_of(c.event_config, c.marketplace_name@, entries.take(i as int)) == Ok::<
                Map<Seq<char>, MarketplaceEventConfigView>,
                IndexerErrorView,
            >(configs_view(mapping)),
        decreases 9 - i,
    {
        let e = &list[i];
        proof {
            assert(entries.take(i + 1).drop_last() =~= entries.take(i as int));
            assert(entries.take(i + 1).last() == entries[i as int]);
        }
        let made = MarketplaceEventConfig::from_event_config(
            &c.event_config,
            e.1,
            c.marketplace_name.clone(),
            copy_opt(&e.2),
            copy_opt(&e.3),
            copy_opt(&e.4),
            copy_opt(&e.5),
            copy_opt(&e.6),
        );
        match made {
            Ok(m) => {
                let ghost before = configs_view(mapping);
                let ghost mv = m@;
                mapping.insert(e.0.clone(), m);
                assert(configs_view(mapping) =~= before.insert(e.0@, mv));
            },
            Err(err) => {
                proof {
                    lemma_mapping_error_persists(c.event_config, c.marketplace_name@, entries, i + 1);
                }
                return Err(err);
            },
        }
        i = i + 1;
    }
    assert(entries.take(9) =~= entries);
    Ok(mapping)
}

impl NFTMarketplaceConfigs {
    /// The event configurations of every marketplace by name, and the
    /// marketplace of every event type string. The first event whose paths
    /// do not parse is the error.
    pub fn get_event_mappings(&self) -> (r: Result<
        (StrMap<StrMap<MarketplaceEventConfig>>, StrMap<String>),
        IndexerError,
    >)
        ensures
            r matches Ok(v) ==> forall|k: Seq<char>| #[trigger] v.0.view_map().contains_key(k) ==> v.0.view_map()[k].wf(),
            r matches Ok(v) ==> v.0.wf() && v.1.wf() && event_mappings_of(self.marketplace_configs@)
                == Ok::<
                (Map<Seq<char>, Map<Seq<char>, MarketplaceEventConfigView>>, Map<Seq<char>, Seq<char>>),
                IndexerErrorView,
            >((mappings_view(v.0), contracts_view(v.1))),
            r matches Err(e) ==> event_mappings_of(self.marketplace_configs@) == Err::<
                (Map<Seq<char>, Map<Seq<char>, MarketplaceEventConfigView>>, Map<Seq<char>, Seq<char>>),
                IndexerErrorView,
            >(e@),
    {
        let ghost configs = self.marketplace_configs@;
        let mut marketplace_to_events_map: StrMap<StrMap<MarketplaceEventConfig>> = StrMap::new();
        let mut contract_to_marketplace_map: StrMap<String> = StrMap::new();
        let mut i: usize = 0;
        assert(configs.take(0) =~= Seq::<MarketplaceConfig>::empty());
        assert(mappings_view(marketplace_to_events_map) =~= Map::<Seq<char>, Map<Seq<char>, MarketplaceEventConfigView>>::empty());
        assert(contracts_view(contract_to_marketplace_map) =~= Map::<Seq<char>, Seq<char>>::empty());
        while i < self.marketplace_configs.len()
            invariant
                configs == self.marketplace_configs@,
                i <= configs.len(),
                marketplace_to_events_map.wf(),
                forall|k: Seq<char>| #[trigger] marketplace_to_events_map.view_map().contains_key(k)
                    ==> marketplace_to_events_map.view_map()[k].wf(),
                contract_to_marketplace_map.wf(),
                event_mappings_of(configs.take(i as int)) == Ok::<
                    (Map<Seq<char>, Map<Seq<char>, MarketplaceEventConfigView>>, Map<Seq<char>, Seq<char>>),
                    IndexerErrorView,
                >((mappings_view(marketplace_to_events_map), contracts_view(contract_to_marketplace_map))),
            decreases configs.len() - i,
        {
            let config = &self.marketplace_configs[i];
            proof {
                assert(configs.take(i + 1).drop_last() =~= configs.take(i as int));
                assert(configs.take(i + 1).last() == configs[i as int]);
            }
            let mapping = match mapping_for(config) {
                Ok(m) => m,
                Err(e) => {
                    proof {
                        lemma_mappings_error_persists(configs, i + 1);
                    }
                    return Err(e);
                },
            };
            let ghost mv = configs_view(mapping);
            let ghost name = config.marketplace_name@;
            let ghost before = contracts_view(contract_to_marketplace_map);
            proof {
                mapping.lemma_wf_facts();
            }
            let n = mapping.len();
            let mut j: usize = 0;
            while j < n
                invariant
                    mapping.wf(),
                    n == mapping.key_seq().len(),
                    j <= n,
                    mv == configs_view(mapping),
                    name == config.marketplace_name@,
                    contract_to_marketplace_map.wf(),
                    contracts_view(contract_to_marketplace_map) == before.union_prefer_right(
                        Map::new(
                            |k: Seq<char>| mapping.key_seq().take(j as int).contains(k),
                            |k: Seq<char>| name,
                        ),
                    ),
                decreases n - j,
            {
                let ghost prev = contracts_view(contract_to_marketplace_map);
                let key = mapping.key_at(j);
                let value = config.marketplace_name.clone();
                assert(value@ == name);
                contract_to_marketplace_map.insert(key.clone(), value);
                assert(contracts_view(contract_to_marketplace_map) =~= prev.insert(key@, name));
                proof {
                    let s0 = mapping.key_seq().take(j as int);
                    assert(mapping.key_seq().take(j + 1) =~= s0.push(key@));
                    assert forall|k: Seq<char>| #[trigger] s0.push(key@).contains(k) <==> (s0.contains(k) || k == key@) by {
                        if s0.push(key@).contains(k) {
                            let w = choose|w: int| 0 <= w < s0.push(key@).len() && s0.push(key@)[w] == k;
                            if w < s0.len() {
                                assert(s0[w] == k);
                            }
                        }
                        if s0.contains(k) {
                            let w = choose|w: int| 0 <= w < s0.len() && s0[w] == k;
                            assert(s0.push(key@)[w] == k);
                        }
                        if k == key@ {
                            assert(s0.push(key@)[s0.len() as int] == k);
                        }
                    }
                    assert(contracts_view(contract_to_marketplace_map) =~= before.union_prefer_right(
                        Map::new(
                            |k: Seq<char>| mapping.key_seq().take(j + 1).contains(k),
                            |k: Seq<char>| name,
                        ),
                    ));
                }
                j = j + 1;
            }
            proof {
                mapping.lemma_wf_facts();
                assert(mapping.key_seq().take(n as int) =~= mapping.key_seq());
                assert(Map::new(|k: Seq<char>| mapping.key_seq().take(n as int).contains(k), |k: Seq<char>| name)
                    =~= Map::new(|k: Seq<char>| mv.contains_key(k), |k: Seq<char>| name));
            }
            let ghost mbefore = mappings_view(marketplace_to_events_map);
            marketplace_to_events_map.insert(config.marketplace_name.clone(), mapping);
            assert(mappings_view(marketplace_to_events_map) =~= mbefore.insert(name, mv));
            i = i + 1;
        }
        assert(configs.take(configs.len() as int) =~= configs);
        Ok((marketplace_to_events_map, contract_to_marketplace_map))
    }
}

/// Whether `v` reads an event of standard type `t` with the collection name
/// and creator address paths `collection_name` and `creator_address`, the
/// marketplace's own `c` where the event gives none.
pub open spec fn reads_with_paths(
    v: MarketplaceEventConfigView,
    t: MarketplaceEventType,
    c: EventConfig,
    collection_name: Option<String>,
    creator_address: Option<String>,
) -> bool {
    &&& v.event_type == t
    &&& v.paths[5] == (if collection_name is Some {
        opt_text_view(collection_name)
    } else {
        opt_text_view(c.collection_name)
    })
    &&& v.paths[6] == (if creator_address is Some {
        opt_text_view(creator_address)
    } else {
        opt_text_view(c.creator_address)
    })
}

/// In the event configurations of a marketplace, each collection offer
/// event is read with its own collection name and creator address paths:
/// the fill event always, the cancel event unless it shares its type string
/// with the fill event, and the place event unless it shares it with the
/// cancel or the fill event.
pub proof fn lemma_collection_offer_events_use_own_paths(c: MarketplaceConfig, name: Seq<char>)
    requires
        mapping_of(c.event_config, name, marketplace_entries(c)) is Ok,
    ensures
        ({
            let m = mapping_of(c.event_config, name, marketplace_entries(c))->Ok_0;
            let co = c.collection_offer_config;
            let ec = c.event_config;
            &&& m.contains_key(co.fill_event.event_type@)
            &&& reads_with_paths(
                m[co.fill_event.event_type@],
                MarketplaceEventType::FillCollectionOffer,
                ec,
                co.fill_event.collection_name,
                co.fill_event.creator_address,
            )
            &&& co.cancel_event.event_type@ != co.fill_event.event_type@ ==> m.contains_key(
                co.cancel_event.event_type@,
            ) && reads_with_paths(
                m[co.cancel_event.event_type@],
                MarketplaceEventType::CancelCollectionOffer,
                ec,
                co.cancel_event.collection_name,
                co.cancel_event.creator_address,
            )
            &&& co.place_event.event_type@ != co.cancel_event.event_type@ && co.place_event.event_type@
                != co.fill_event.event_type@ ==> m.contains_key(co.place_event.event_type@) && reads_with_paths(
                m[co.place_event.event_type@],
                MarketplaceEventType::PlaceCollectionOffer,
                ec,
                co.place_event.collection_name,
                co.place_event.creator_address,
            )
        }),
{
    let e = marketplace_entries(c);
    let ec = c.event_config;
    let e8 = e.drop_last();
    let e7 = e8.drop_last();
    assert(e.len() == 9);
    assert(e.last() == e[8]);
    assert(e8.last() == e[7]);
    assert(e7.last() == e[6]);
    assert(e7.len() == 7);
    let m7 = mapping_of(ec, name, e7);
    let m8 = mapping_of(ec, name, e8);
    assert(m7 is Ok);
    assert(m8 is Ok);
}

/// The event mappings hold, under the name of a marketplace that no later
/// configuration shares, that marketplace's own event configurations.
pub proof fn lemma_event_mappings_hold_own_mapping(configs: Seq<MarketplaceConfig>, k: int)
    requires
        event_mappings_of(configs) is Ok,
        0 <= k < configs.len(),
        forall|j: int| k < j < configs.len() ==> (#[trigger] configs[j]).marketplace_name@
            != configs[k].marketplace_name@,
    ensures
        mapping_of(configs[k].event_config, configs[k].marketplace_name@, marketplace_entries(configs[k])) is Ok,
        event_mappings_of(configs)->Ok_0.0.contains_key(configs[k].marketplace_name@),
        event_mappings_of(configs)->Ok_0.0[configs[k].marketplace_name@] == mapping_of(
            configs[k].event_config,
            configs[k].marketplace_name@,
            marketplace_entries(configs[k]),
        )->Ok_0,
    decreases configs.len(),
{
    let rest = configs.drop_last();
    if k < configs.len() - 1 {
        assert forall|j: int| k < j < rest.len() implies (#[trigger] rest[j]).marketplace_name@
            != rest[k].marketplace_name@ by {
            assert(rest[j] == configs[j]);
        }
        assert(rest[k] == configs[k]);
        lemma_event_mappings_hold_own_mapping(rest, k);
        assert(configs[configs.len() - 1] == configs.last());
    }
}

/// In the event mappings, the fill collection offer event of a marketplace
/// that no later configuration shares a name with is read with its own
/// collection name and creator address paths, the marketplace's own where
/// the event gives none.
pub proof fn lemma_fill_collection_offer_mapping(configs: Seq<MarketplaceConfig>, k: int)
    requires
        event_mappings_of(configs) is Ok,
        0 <= k < configs.len(),
        forall|j: int| k < j < configs.len() ==> (#[trigger] configs[j]).marketplace_name@
            != configs[k].marketplace_name@,
    ensures
        ({
            let maps = event_mappings_of(configs)->Ok_0.0;
            let c = configs[k];
            let fill = c.collection_offer_config.fill_event;
            &&& maps.contains_key(c.marketplace_name@)
            &&& maps[c.marketplace_name@].contains_key(fill.event_type@)
            &&& reads_with_paths(
                maps[c.marketplace_name@][fill.event_type@],
                MarketplaceEventType::FillCollectionOffer,
                c.event_config,
                fill.collection_name,
                fill.creator_address,
            )
        }),
{
    lemma_event_mappings_hold_own_mapping(configs, k);
    lemma_collection_offer_events_use_own_paths(configs[k], configs[k].marketplace_name@);
}

/// `preferred` when given, else `fallback`, as path texts.
pub open spec fn path_choice(preferred: Option<String>, fallback: Option<String>) -> Option<Seq<char>> {
    if preferred is Some {
        opt_text_view(preferred)
    } else {
        opt_text_view(fallback)
    }
}

/// Whether `v` reads events of standard type `t` with the marketplace's
/// paths `ec`, except that the collection name, creator address, deadline,
/// buyer and seller paths given for the event replace the marketplace's.
pub open spec fn reads_event(
    v: MarketplaceEventConfigView,
    t: MarketplaceEventType,
    ec: EventConfig,
    collection_name: Option<String>,
    creator_address: Option<String>,
    deadline: Option<String>,
    buyer: Option<String>,
    seller: Option<String>,
) -> bool {
    &&& v.event_type == t
    &&& v.paths.len() == 11
    &&& v.paths[0] == opt_text_view(ec.token_name)
    &&& v.paths[1] == opt_text_view(ec.price)
    &&& v.paths[2] == opt_text_view(ec.token_amount)
    &&& v.paths[3] == path_choice(seller, ec.seller)
    &&& v.paths[4] == path_choice(buyer, ec.buyer)
    &&& v.paths[5] == path_choice(collection_name, ec.collection_name)
    &&& v.paths[6] == path_choice(creator_address, ec.creator_address)
    &&& v.paths[7] == opt_text_view(ec.collection_id)
    &&& v.paths[8] == path_choice(deadline, ec.deadline)
    &&& v.paths[9] == opt_text_view(ec.token_inner)
    &&& v.paths[10] == opt_text_view(ec.collection_inner)
}

/// In a mapping built entry by entry, an entry that no later entry shares
/// its type string with holds its own event configuration.
proof fn lemma_mapping_of_entry(c: EventConfig, name: Seq<char>, entries: Seq<EventEntry>, k: int)
    requires
        mapping_of(c, name, entries) is Ok,
        0 <= k < entries.len(),
        forall|j: int| k < j < entries.len() ==> (#[trigger] entries[j]).0 != entries[k].0,
    ensures
        event_config_result(c, entries[k].1, name, entries[k].2, entries[k].3, entries[k].4, entries[k].5, entries[k].6)
            is Ok,
        mapping_of(c, name, entries)->Ok_0.contains_key(entries[k].0),
        mapping_of(c, name, entries)->Ok_0[entries[k].0] == event_config_result(
            c,
            entries[k].1,
            name,
            entries[k].2,
            entries[k].3,
            entries[k].4,
            entries[k].5,
            entries[k].6,
        )->Ok_0,
    decreases entries.len(),
{
    let rest = entries.drop_last();
    assert(entries.last() == entries[entries.len() - 1]);
    if k < entries.len() - 1 {
        assert forall|j: int| k < j < rest.len() implies (#[trigger] rest[j]).0 != rest[k].0 by {
            assert(rest[j] == entries[j]);
        }
        assert(rest[k] == entries[k]);
        lemma_mapping_of_entry(c, name, rest, k);
    }
}

/// Whether the nine event type strings of a marketplace are all different.
pub open spec fn event_strings_distinct(c: MarketplaceConfig) -> bool {
    seq![
        c.listing_config.place_event@,
        c.listing_config.cancel_event@,
        c.listing_config.fill_event@,
        c.offer_config.place_event@,
        c.offer_config.cancel_event@,
        c.offer_config.fill_event@,
        c.collection_offer_config.place_event.event_type@,
        c.collection_offer_config.cancel_event.event_type@,
        c.collection_offer_config.fill_event.event_type@,
    ].no_duplicates()
}

/// How each event of a marketplace whose nine event type strings differ is
/// read: the listing events as place, cancel and fill listing with the
/// listing buyer and seller paths; the offer events as place, cancel and
/// fill offer with the offer buyer and seller paths; the collection offer
/// events as place, cancel and fill collection offer, each with its own
/// collection name and creator address paths and the shared deadline path;
/// every other path the marketplace's.
pub proof fn lemma_marketplace_event_table(c: MarketplaceConfig, name: Seq<char>)
    requires
        mapping_of(c.event_config, name, marketplace_entries(c)) is Ok,
        event_strings_distinct(c),
    ensures
        ({
            let m = mapping_of(c.event_config, name, marketplace_entries(c))->Ok_0;
            let ec = c.event_config;
            let l = c.listing_config;
            let o = c.offer_config;
            let co = c.collection_offer_config;
            &&& m.contains_key(l.place_event@) && reads_event(m[l.place_event@], MarketplaceEventType::PlaceListing, ec, None, None, None, l.buyer, l.seller)
            &&& m.contains_key(l.cancel_event@) && reads_event(m[l.cancel_event@], MarketplaceEventType::CancelListing, ec, None, None, None, l.buyer, l.seller)
            &&& m.contains_key(l.fill_event@) && reads_event(m[l.fill_event@], MarketplaceEventType::FillListing, ec, None, None, None, l.buyer, l.seller)
            &&& m.contains_key(o.place_event@) && reads_event(m[o.place_event@], MarketplaceEventType::PlaceOffer, ec, None, None, None, o.buyer, o.seller)
            &&& m.contains_key(o.cancel_event@) && reads_event(m[o.cancel_event@], MarketplaceEventType::CancelOffer, ec, None, None, None, o.buyer, o.seller)
            &&& m.contains_key(o.fill_event@) && reads_event(m[o.fill_event@], MarketplaceEventType::FillOffer, ec, None, None, None, o.buyer, o.seller)
            &&& m.contains_key(co.place_event.event_type@) && reads_event(m[co.place_event.event_type@], MarketplaceEventType::PlaceCollectionOffer, ec, co.place_event.collection_name, co.place_event.creator_address, co.deadline, None, None)
            &&& m.contains_key(co.cancel_event.event_type@) && reads_event(m[co.cancel_event.event_type@], MarketplaceEventType::CancelCollectionOffer, ec, co.cancel_event.collection_name, co.cancel_event.creator_address, co.deadline, None, None)
            &&& m.contains_key(co.fill_event.event_type@) && reads_event(m[co.fill_event.event_type@], MarketplaceEventType::FillCollectionOffer, ec, co.fill_event.collection_name, co.fill_event.creator_address, co.deadline, None, None)
        }),
{
    let e = marketplace_entries(c);
    let ec = c.event_config;
    let names = seq![
        c.listing_config.place_event@,
        c.listing_config.cancel_event@,
        c.listing_config.fill_event@,
        c.offer_config.place_event@,
        c.offer_config.cancel_event@,
        c.offer_config.fill_event@,
        c.collection_offer_config.place_event.event_type@,
        c.collection_offer_config.cancel_event.event_type@,
        c.collection_offer_config.fill_event.event_type@,
    ];
    assert forall|k: int| 0 <= k < 9 implies #[trigger] e[k].0 == names[k] by {}
    assert forall|k: int, j: int| 0 <= k < j < 9 implies e[j].0 != e[k].0 by {
        assert(names[j] != names[k]);
    }
    lemma_mapping_of_entry(ec, name, e, 0);
    lemma_mapping_of_entry(ec, name, e, 1);
    lemma_mapping_of_entry(ec, name, e, 2);
    lemma_mapping_of_entry(ec, name, e, 3);
    lemma_mapping_of_entry(ec, name, e, 4);
    lemma_mapping_of_entry(ec, name, e, 5);
    lemma_mapping_of_entry(ec, name, e, 6);
    lemma_mapping_of_entry(ec, name, e, 7);
    lemma_mapping_of_entry(ec, name, e, 8);
}

} // verus!
