//! Marketplace configuration: which events and resources of a marketplace
//! are remapped into which table columns, the standard marketplace event
//! types, and fully qualified Move event types.
use crate::convert::{left_pad_zeros, lemma_standardize_idempotent, standardize_address, standardized, strip_hex_prefix};
use crate::error::{IndexerError, IndexerErrorView};
use crate::str_map::StrMap;
use crate::text::{str_eq, str_to_string};
use vstd::prelude::*;

verus! {

/// Maximum length of a token name in characters.
pub const MAX_TOKEN_NAME_LENGTH: usize = 128;

/// A column of a marketplace table.
pub struct DbColumn {
    pub table: String,
    pub column: String,
}

impl DbColumn {
    /// A copy of this column.
    pub fn copy(&self) -> (r: DbColumn)
        ensures
            r.table@ == self.table@,
            r.column@ == self.column@,
    {
        DbColumn { table: self.table.clone(), column: self.column.clone() }
    }
}

/// Event fields remapped into columns: JSON path of the field to the columns
/// that receive its value.
pub struct EventRemapping {
    pub event_fields: StrMap<Vec<DbColumn>>,
}

/// Resource fields remapped into columns: JSON path of the field to the
/// columns that receive its value.
pub struct ResourceRemapping {
    pub resource_fields: StrMap<Vec<DbColumn>>,
}

/// A marketplace and how its events and resources map to tables.
pub struct NFTMarketplaceConfig {
    pub name: String,
    /// Event type strings of the marketplace mapped to standard event types.
    pub event_model_mapping: StrMap<MarketplaceEventType>,
    /// Event type string to the remapping of that event's fields.
    pub events: StrMap<EventRemapping>,
    /// Resource type string to the remapping of that resource's fields.
    pub resources: StrMap<ResourceRemapping>,
}

impl NFTMarketplaceConfig {
    /// All maps of the configuration are well formed.
    pub open spec fn wf(&self) -> bool {
        &&& self.event_model_mapping.wf()
        &&& self.events.wf()
        &&& self.resources.wf()
        &&& forall|i: int|
            0 <= i < self.events.val_seq().len() ==> (#[trigger] self.events.val_seq()[i]).event_fields.wf()
        &&& forall|i: int|
            0 <= i < self.resources.val_seq().len() ==> (
            #[trigger] self.resources.val_seq()[i]).resource_fields.wf()
    }

    /// The name of the marketplace.
    pub fn get_name(&self) -> (r: &str)
        ensures
            r@ == self.name@,
    {
        self.name.as_str()
    }
}

/// The standard marketplace event types.
#[derive(Debug, Clone, Copy, PartialEq, Eq, Structural, Hash)]
pub enum MarketplaceEventType {
    PlaceListing,
    CancelListing,
    FillListing,
    PlaceTokenOffer,
    CancelTokenOffer,
    FillTokenOffer,
    PlaceCollectionOffer,
    CancelCollectionOffer,
    FillCollectionOffer,
    Unknown,
}

/// The snake_case name of an event type.
pub open spec fn event_type_name(t: MarketplaceEventType) -> Seq<char> {
    match t {
        MarketplaceEventType::PlaceListing => "place_listing"@,
        MarketplaceEventType::CancelListing => "cancel_listing"@,
        MarketplaceEventType::FillListing => "fill_listing"@,
        MarketplaceEventType::PlaceTokenOffer => "place_token_offer"@,
        MarketplaceEventType::CancelTokenOffer => "cancel_token_offer"@,
        MarketplaceEventType::FillTokenOffer => "fill_token_offer"@,
        MarketplaceEventType::PlaceCollectionOffer => "place_collection_offer"@,
        MarketplaceEventType::CancelCollectionOffer => "cancel_collection_offer"@,
        MarketplaceEventType::FillCollectionOffer => "fill_collection_offer"@,
        MarketplaceEventType::Unknown => "unknown"@,
    }
}

/// Whether `s` is the name of an event type.
pub open spec fn is_event_type_name(s: Seq<char>) -> bool {
    ||| s == "place_listing"@
    ||| s == "cancel_listing"@
    ||| s == "fill_listing"@
    ||| s == "place_token_offer"@
    ||| s == "cancel_token_offer"@
    ||| s == "fill_token_offer"@
    ||| s == "place_collection_offer"@
    ||| s == "cancel_collection_offer"@
    ||| s == "fill_collection_offer"@
    ||| s == "unknown"@
}

/// Distinct event types have distinct names.
pub proof fn lemma_event_type_name_injective(a: MarketplaceEventType, b: MarketplaceEventType)
    ensures
        event_type_name(a) == event_type_name(b) ==> a == b,
{
    reveal_strlit("place_listing");
    reveal_strlit("cancel_listing");
    reveal_strlit("fill_listing");
    reveal_strlit("place_token_offer");
    reveal_strlit("cancel_token_offer");
    reveal_strlit("fill_token_offer");
    reveal_strlit("place_collection_offer");
    reveal_strlit("cancel_collection_offer");
    reveal_strlit("fill_collection_offer");
    reveal_strlit("unknown");
    if event_type_name(a) == event_type_name(b) {
        assert(event_type_name(a).len() == event_type_name(b).len());
        assert(event_type_name(a)[0] == event_type_name(b)[0]);
        assert(event_type_name(a)[1] == event_type_name(b)[1]);
        assert(event_type_name(a)[6] == event_type_name(b)[6]);
        assert(event_type_name(a)[7] == event_type_name(b)[7]);
    }
}

impl MarketplaceEventType {
    /// The default event type: `Unknown`.
    pub fn default() -> (r: MarketplaceEventType)
        ensures
            r == MarketplaceEventType::Unknown,
    {
        MarketplaceEventType::Unknown
    }

    /// The snake_case name of the event type.
    pub fn as_str(&self) -> (r: &'static str)
        ensures
            r@ == event_type_name(*self),
    {
        match self {
            MarketplaceEventType::PlaceListing => "place_listing",
            MarketplaceEventType::CancelListing => "cancel_listing",
            MarketplaceEventType::FillListing => "fill_listing",
            MarketplaceEventType::PlaceTokenOffer => "place_token_offer",
            MarketplaceEventType::CancelTokenOffer => "cancel_token_offer",
            MarketplaceEventType::FillTokenOffer => "fill_token_offer",
            MarketplaceEventType::PlaceCollectionOffer => "place_collection_offer",
            MarketplaceEventType::CancelCollectionOffer => "cancel_collection_offer",
            MarketplaceEventType::FillCollectionOffer => "fill_collection_offer",
            MarketplaceEventType::Unknown => "unknown",
        }
    }

    /// The snake_case name of the event type, as `Display` writes it.
    pub fn to_string(&self) -> (r: String)
        ensures
            r@ == event_type_name(*self),
    {
        str_to_string(self.as_str())
    }

    /// Parses a snake_case event type name; any other text is refused.
    pub fn from_str(s: &str) -> (r: Result<MarketplaceEventType, ()>)
        ensures
            r matches Ok(t) ==> event_type_name(t) == s@,
            r is Err ==> !is_event_type_name(s@),
    {
        if str_eq(s, "place_listing") {
            Ok(MarketplaceEventType::PlaceListing)
        } else if str_eq(s, "cancel_listing") {
            Ok(MarketplaceEventType::CancelListing)
        } else if str_eq(s, "fill_listing") {
            Ok(MarketplaceEventType::FillListing)
        } else if str_eq(s, "place_token_offer") {
            Ok(MarketplaceEventType::PlaceTokenOffer)
        } else if str_eq(s, "cancel_token_offer") {
            Ok(MarketplaceEventType::CancelTokenOffer)
        } else if str_eq(s, "fill_token_offer") {
            Ok(MarketplaceEventType::FillTokenOffer)
        } else if str_eq(s, "place_collection_offer") {
            Ok(MarketplaceEventType::PlaceCollectionOffer)
        } else if str_eq(s, "cancel_collection_offer") {
            Ok(MarketplaceEventType::CancelCollectionOffer)
        } else if str_eq(s, "fill_collection_offer") {
            Ok(MarketplaceEventType::FillCollectionOffer)
        } else if str_eq(s, "unknown") {
            Ok(MarketplaceEventType::Unknown)
        } else {
            Err(())
        }
    }
}

/// Parsing the name of an event type gives back that event type.
pub proof fn lemma_event_type_round_trip(t: MarketplaceEventType, r: Result<MarketplaceEventType, ()>)
    requires
        r matches Ok(u) ==> event_type_name(u) == event_type_name(t),
        r is Err ==> !is_event_type_name(event_type_name(t)),
    ensures
        r == Ok::<MarketplaceEventType, ()>(t),
{
    match r {
        Ok(u) => lemma_event_type_name_injective(u, t),
        Err(_) => {},
    }
}

/// A fully qualified Move event type: address, module and struct.
#[derive(Debug, Clone, PartialEq, Eq, Hash)]
pub struct EventType {
    address: String,
    module: String,
    struct_name: String,
}

/// The plain content of an `EventType`.
pub struct EventTypeView {
    pub address: Seq<char>,
    pub module: Seq<char>,
    pub struct_name: Seq<char>,
}

impl View for EventType {
    type V = EventTypeView;

    closed spec fn view(&self) -> EventTypeView {
        EventTypeView {
            address: self.address@,
            module: self.module@,
            struct_name: self.struct_name@,
        }
    }
}

/// Whether a `::` separator starts at position `i` of `s`.
pub open spec fn sep_at(s: Seq<char>, i: int) -> bool {
    0 <= i && i + 1 < s.len() && s[i] == ':' && s[i + 1] == ':'
}

/// The first `::` separator at or after position `from`, as `str::split`
/// finds it.
pub open spec fn find_sep(s: Seq<char>, from: int) -> Option<int>
    decreases s.len() - from,
{
    if from < 0 || from + 1 >= s.len() {
        None
    } else if sep_at(s, from) {
        Some(from)
    } else {
        find_sep(s, from + 1)
    }
}

/// What `EventType::try_from` makes of `s`: the text before the first `::`
/// as a standardized address, the text between the first two `::` as the
/// module, and all that follows the second `::` as the struct (generics
/// included). `None` when `s` has fewer than three parts.
pub open spec fn parse_event_type(s: Seq<char>) -> Option<EventTypeView> {
    match find_sep(s, 0) {
        None => None,
        Some(p1) => match find_sep(s, p1 + 2) {
            None => None,
            Some(p2) => Some(
                EventTypeView {
                    address: standardized(s.take(p1)),
                    module: s.subrange(p1 + 2, p2),
                    struct_name: s.skip(p2 + 2),
                },
            ),
        },
    }
}

/// The text of an event type: `address::module::struct`.
pub open spec fn event_type_text(e: EventTypeView) -> Seq<char> {
    e.address + "::"@ + e.module + "::"@ + e.struct_name
}

/// A separator found at or after `from` is a separator at or after `from`.
pub proof fn lemma_find_sep(s: Seq<char>, from: int)
    ensures
        find_sep(s, from) matches Some(p) ==> from <= p && sep_at(s, p) && p + 2 <= s.len(),
        find_sep(s, from) matches Some(p) ==> forall|q: int| from <= q < p ==> !sep_at(s, q),
    decreases s.len() - from,
{
    if !(from < 0 || from + 1 >= s.len()) && !sep_at(s, from) {
        lemma_find_sep(s, from + 1);
    }
}

/// Whether every `:` of `s` is followed by a character other than `:`: no
/// `::` inside, and no `:` at the end.
pub open spec fn colons_single(s: Seq<char>) -> bool {
    forall|q: int| 0 <= q < s.len() && #[trigger] s[q] == ':' ==> q + 1 < s.len() && s[q + 1] != ':'
}

/// Searching from a position in the second part of `a + b` searches `b`.
proof fn lemma_find_sep_in_suffix(a: Seq<char>, b: Seq<char>, from: int)
    requires
        a.len() <= from,
    ensures
        find_sep(a + b, from) == (match find_sep(b, from - a.len()) {
            Some(p) => Some(p + a.len()),
            None => None,
        }),
    decreases (a + b).len() - from,
{
    let t = a + b;
    if !(from < 0 || from + 1 >= t.len()) {
        assert(t[from] == b[from - a.len()]);
        assert(t[from + 1] == b[from + 1 - a.len()]);
        if !sep_at(t, from) {
            lemma_find_sep_in_suffix(a, b, from + 1);
        }
    }
}

/// Searching `a + b` from within `a`, where no `::` starts before the end
/// of `a`, finds what searching from the end of `a` finds.
proof fn lemma_find_sep_skips_prefix(a: Seq<char>, b: Seq<char>, from: int)
    requires
        0 <= from <= a.len(),
        forall|q: int| from <= q < a.len() ==> !sep_at(a + b, q),
    ensures
        find_sep(a + b, from) == find_sep(a + b, a.len() as int),
    decreases a.len() - from,
{
    if from < a.len() {
        lemma_find_sep_skips_prefix(a, b, from + 1);
    }
}

/// A text whose colons are single starts no `::` before its end, even
/// when more text follows.
proof fn lemma_single_colons_no_sep(a: Seq<char>, b: Seq<char>)
    requires
        colons_single(a),
    ensures
        forall|q: int| 0 <= q < a.len() ==> !sep_at(a + b, q),
{
    assert forall|q: int| 0 <= q < a.len() implies !sep_at(a + b, q) by {
        if sep_at(a + b, q) {
            assert((a + b)[q] == a[q]);
            assert(a[q] == ':');
            assert((a + b)[q + 1] == a[q + 1]);
        }
    }
}

/// The standard form of an address whose colons are single has single
/// colons too.
proof fn lemma_standardized_single_colons(s: Seq<char>)
    requires
        colons_single(s),
    ensures
        colons_single(standardized(s)),
{
    let h = strip_hex_prefix(s);
    assert(colons_single(h)) by {
        if s.len() >= 2 && s[0] == '0' && s[1] == 'x' {
            assert forall|q: int| 0 <= q < h.len() && #[trigger] h[q] == ':' implies q + 1 < h.len() && h[q + 1] != ':' by {
                assert(s[q + 2] == ':');
            }
        }
    }
    let p = left_pad_zeros(h, 64);
    assert(colons_single(p)) by {
        if h.len() < 64 {
            let z = (64 - h.len()) as nat;
            assert forall|q: int| 0 <= q < p.len() && #[trigger] p[q] == ':' implies q + 1 < p.len() && p[q + 1] != ':' by {
                if q < z {
                    assert(p[q] == '0');
                } else {
                    assert(p[q] == h[q - z]);
                    assert(h[q - z] == ':');
                    assert(p[q + 1] == h[q + 1 - z]);
                }
            }
        }
    }
    let t = standardized(s);
    assert forall|q: int| 0 <= q < t.len() && #[trigger] t[q] == ':' implies q + 1 < t.len() && t[q + 1] != ':' by {
        assert(q >= 2);
        assert(t[q] == p[q - 2]);
        assert(p[q - 2] == ':');
        assert(t[q + 1] == p[q - 1]);
    }
}

/// An event type written as `address::module::struct` parses back to the
/// same event type.
pub proof fn lemma_event_type_text_round_trip(s: Seq<char>)
    requires
        parse_event_type(s) is Some,
    ensures
        parse_event_type(event_type_text(parse_event_type(s)->0)) == parse_event_type(s),
{
    reveal_strlit("::");
    let v = parse_event_type(s)->0;
    lemma_find_sep(s, 0);
    let p1 = find_sep(s, 0)->0;
    lemma_find_sep(s, p1 + 2);
    let p2 = find_sep(s, p1 + 2)->0;
    let addr = s.take(p1);
    let rest = s.skip(p1);
    assert(s =~= addr + rest);
    // The address has single colons: a `::` or a final `:` would start a
    // separator before the first one.
    assert(colons_single(addr)) by {
        assert forall|q: int| 0 <= q < addr.len() && #[trigger] addr[q] == ':' implies q + 1 < addr.len() && addr[q + 1] != ':' by {
            assert(s[q] == ':');
            if q + 1 == addr.len() {
                assert(sep_at(s, q));
            } else {
                assert(s[q + 1] == addr[q + 1]);
                if addr[q + 1] == ':' {
                    assert(sep_at(s, q));
                }
            }
        }
    }
    let big_a = standardized(addr);
    assert(v.address == big_a);
    lemma_standardized_single_colons(addr);
    let t = event_type_text(v);
    assert(rest =~= "::"@ + v.module + "::"@ + v.struct_name) by {
        assert(v.module == s.subrange(p1 + 2, p2));
        assert(v.struct_name == s.skip(p2 + 2));
    }
    assert(t =~= big_a + rest);
    // Where the separators of `s` fall in the part after the address.
    lemma_single_colons_no_sep(addr, rest);
    lemma_find_sep_skips_prefix(addr, rest, 0);
    lemma_find_sep_in_suffix(addr, rest, addr.len() as int);
    lemma_find_sep_in_suffix(addr, rest, p1 + 2);
    assert(find_sep(rest, 0) == Some(0int));
    assert(find_sep(rest, 2) == Some(p2 - p1));
    // The same separators in the text, after the standard address.
    lemma_single_colons_no_sep(big_a, rest);
    lemma_find_sep_skips_prefix(big_a, rest, 0);
    lemma_find_sep_in_suffix(big_a, rest, big_a.len() as int);
    lemma_find_sep_in_suffix(big_a, rest, big_a.len() as int + 2);
    let q1 = big_a.len() as int;
    let q2 = p2 - p1 + big_a.len();
    assert(find_sep(t, 0) == Some(q1));
    assert(find_sep(t, q1 + 2) == Some(q2));
    assert(t.take(q1) =~= big_a);
    assert(t.subrange(q1 + 2, q2) =~= v.module);
    assert(t.skip(q2 + 2) =~= v.struct_name);
    lemma_standardize_idempotent(addr);
}

/// The first `::` at or after `from` in `s`.
fn find_separator(s: &str, from: usize) -> (r: Option<usize>)
    requires
        from <= s@.len(),
    ensures
        r matches Some(p) ==> find_sep(s@, from as int) == Some(p as int),
        r is None ==> find_sep(s@, from as int) is None,
{
    let n: usize = s.unicode_len();
    let mut i: usize = from;
    while n - i >= 2
        invariant
            n == s@.len(),
            from <= i <= n,
            find_sep(s@, from as int) == find_sep(s@, i as int),
        decreases n - i,
    {
        if s.get_char(i) == ':' && s.get_char(i + 1) == ':' {
            return Some(i);
        }
        i = i + 1;
    }
    None
}

impl EventType {
    /// Parses `module` text of the form `address::module::struct`. The
    /// address is standardized; everything after the second `::` is the
    /// struct. Text with fewer than three parts (events that are plain
    /// values, such as an address) is refused.
    pub fn try_from(event_type: &str) -> (r: Result<EventType, IndexerError>)
        ensures
            r matches Ok(e) ==> parse_event_type(event_type@) == Some(e@),
            r is Err ==> parse_event_type(event_type@) is None,
            r matches Err(e) ==> e@ == IndexerErrorView::UnsupportedEventType(event_type@),
    {
        let n: usize = event_type.unicode_len();
        let p1 = match find_separator(event_type, 0) {
            Some(p) => p,
            None => return Err(IndexerError::UnsupportedEventType(str_to_string(event_type))),
        };
        proof {
            lemma_find_sep(event_type@, 0);
        }
        let p2 = match find_separator(event_type, p1 + 2) {
            Some(p) => p,
            None => return Err(IndexerError::UnsupportedEventType(str_to_string(event_type))),
        };
        proof {
            lemma_find_sep(event_type@, p1 + 2);
        }
        let address = standardize_address(event_type.substring_char(0, p1));
        let module = str_to_string(event_type.substring_char(p1 + 2, p2));
        let struct_name = str_to_string(event_type.substring_char(p2 + 2, n));
        let e = EventType { address, module, struct_name };
        assert(e@.struct_name == event_type@.skip(p2 + 2));
        assert(event_type@.take(p1 as int) == event_type@.subrange(0, p1 as int));
        Ok(e)
    }

    /// Whether two event types are the same: same address, module and
    /// struct.
    pub fn equals(&self, other: &EventType) -> (r: bool)
        ensures
            r == (self@ == other@),
    {
        str_eq(self.address.as_str(), other.address.as_str()) && str_eq(
            self.module.as_str(),
            other.module.as_str(),
        ) && str_eq(self.struct_name.as_str(), other.struct_name.as_str())
    }

    /// A copy of this event type.
    pub fn copy(&self) -> (r: EventType)
        ensures
            r@ == self@,
    {
        EventType {
            address: self.address.clone(),
            module: self.module.clone(),
            struct_name: self.struct_name.clone(),
        }
    }

    /// The struct part of the event type.
    pub fn get_struct(&self) -> (r: &str)
        ensures
            r@ == self@.struct_name,
    {
        self.struct_name.as_str()
    }

    /// The address part of the event type.
    pub fn get_address(&self) -> (r: &str)
        ensures
            r@ == self@.address,
    {
        self.address.as_str()
    }

    /// The module part of the event type.
    pub fn get_module(&self) -> (r: &str)
        ensures
            r@ == self@.module,
    {
        self.module.as_str()
    }

    /// The text `address::module::struct`, as `Display` writes it.
    pub fn to_string(&self) -> (r: String)
        ensures
            r@ == event_type_text(self@),
    {
        let mut r = self.address.clone();
        r.append("::");
        r.append(self.module.as_str());
        r.append("::");
        r.append(self.struct_name.as_str());
        r
    }

    /// Whether the address is a special (framework) address: its first 31
    /// bytes are zero and its last byte is below 16. The address must be
    /// `0x` followed by the hex text of at least 32 bytes.
    pub fn is_framework_event(&self) -> (r: bool)
        requires
            self@.address.len() >= 2,
            self@.address[0] == '0',
            self@.address[1] == 'x',
            hex_decode_spec(self@.address.skip(2)) matches Some(b) && b.len() >= 32,
        ensures
            r == is_special_address(hex_decode_spec(self@.address.skip(2))->0),
    {
        let n: usize = self.address.as_str().unicode_len();
        let hex_part = self.address.as_str().substring_char(2, n);
        assert(hex_part@ =~= self@.address.skip(2));
        let bytes = match hex_decode(hex_part) {
            Some(b) => b,
            None => {
                assert(false);
                return false;
            },
        };
        let mut i: usize = 0;
        while i < 31
            invariant
                bytes@ == hex_decode_spec(self@.address.skip(2))->0,
                bytes@.len() >= 32,
                i <= 31,
                forall|j: int| 0 <= j < i ==> bytes@[j] == 0,
            decreases 31 - i,
        {
            if bytes[i] != 0 {
                return false;
            }
            i = i + 1;
        }
        bytes[31] < 16
    }
}

/// Whether `b` (at least 32 bytes) is a special address: first 31 bytes zero,
/// byte 31 below 16.
pub open spec fn is_special_address(b: Seq<u8>) -> bool {
    (forall|j: int| 0 <= j < 31 ==> b[j] == 0) && b[31] < 16
}

/// Whether `c` is a hex digit (either case).
pub open spec fn is_hex_char(c: char) -> bool {
    ('0' <= c && c <= '9') || ('a' <= c && c <= 'f') || ('A' <= c && c <= 'F')
}

/// The value of a hex digit.
pub open spec fn hex_char_value(c: char) -> int {
    if c <= '9' {
        c as int - 48
    } else if c >= 'a' {
        c as int - 87
    } else {
        c as int - 55
    }
}

/// What `hex::decode` gives for `s`: `None` unless every character is a hex
/// digit and there is an even number of them; otherwise the bytes, two
/// digits each, high digit first.
pub open spec fn hex_decode_spec(s: Seq<char>) -> Option<Seq<u8>> {
    if s.len() % 2 != 0 || !(forall|i: int| 0 <= i < s.len() ==> is_hex_char(#[trigger] s[i])) {
        None
    } else {
        Some(
            Seq::new(
                (s.len() / 2) as nat,
                |i: int| (hex_char_value(s[2 * i]) * 16 + hex_char_value(s[2 * i + 1])) as u8,
            ),
        )
    }
}

/// Decodes hex text with `hex::decode`. The crate refuses text of odd length
/// or with a character that is not a hex digit, and otherwise turns each pair
/// of digits into a byte; the contract states exactly that.
#[verifier::external_body]
fn hex_decode(s: &str) -> (r: Option<Vec<u8>>)
    ensures
        r matches Some(v) ==> hex_decode_spec(s@) == Some(v@),
        r is None ==> hex_decode_spec(s@) is None,
{
    hex::decode(s).ok()
}

} // verus!
