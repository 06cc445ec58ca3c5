//! Events of a transaction as the remapping reads them.
use crate::config::marketplace_config::{parse_event_type, EventType, EventTypeView};
use crate::convert::{standardize_address, standardized};
use crate::error::{IndexerError, IndexerErrorView};
use crate::json::{json_parse, lemma_members_view, members_view, parse_json, JsonData, JsonNum, JsonNumber, JsonValue};
use crate::text::str_to_string;
use crate::utils::{naive_datetime_debug_text, BlockTimestamp};
use vstd::prelude::*;

pub mod nft_models;
pub mod transaction;

verus! {

/// The key of an event: the account that emitted it and its event handle.
#[derive(Debug, Clone)]
pub struct EventKey {
    pub creation_number: u64,
    pub account_address: String,
}

/// An event as it arrives in a transaction: its data is JSON text.
pub struct Event {
    pub key: Option<EventKey>,
    pub sequence_number: u64,
    pub type_str: String,
    pub data: String,
}

/// An event of a transaction, with its type parsed and its data read.
pub struct EventModel {
    pub sequence_number: i64,
    pub creation_number: i64,
    pub account_address: String,
    pub transaction_version: i64,
    pub transaction_block_height: i64,
    pub event_type: EventType,
    pub data: JsonValue,
    pub event_index: i64,
    pub block_timestamp: BlockTimestamp,
}

/// The plain content of an `EventModel`.
pub struct EventModelView {
    pub sequence_number: i64,
    pub creation_number: i64,
    pub account_address: Seq<char>,
    pub transaction_version: i64,
    pub transaction_block_height: i64,
    pub event_type: EventTypeView,
    pub data: JsonData,
    pub event_index: i64,
    pub block_timestamp: BlockTimestamp,
}

impl View for EventModel {
    type V = EventModelView;

    open spec fn view(&self) -> EventModelView {
        EventModelView {
            sequence_number: self.sequence_number,
            creation_number: self.creation_number,
            account_address: self.account_address@,
            transaction_version: self.transaction_version,
            transaction_block_height: self.transaction_block_height,
            event_type: self.event_type@,
            data: self.data@,
            event_index: self.event_index,
            block_timestamp: self.block_timestamp,
        }
    }
}

/// The model of a complete event `e` whose type parses, at position
/// `event_index` of transaction `transaction_version` (block
/// `transaction_block_height`, time `block_timestamp`).
pub open spec fn event_model_of(
    e: Event,
    transaction_version: i64,
    transaction_block_height: i64,
    event_index: i64,
    block_timestamp: BlockTimestamp,
) -> EventModelView {
    EventModelView {
        sequence_number: e.sequence_number as i64,
        creation_number: e.key.unwrap().creation_number as i64,
        account_address: standardized(e.key.unwrap().account_address@),
        transaction_version,
        transaction_block_height,
        event_type: parse_event_type(e.type_str@).unwrap(),
        data: json_parse(e.data@).unwrap(),
        event_index,
        block_timestamp,
    }
}

/// The models of the events of a transaction: one per event that can be
/// modelled, in order, each at its position among all events; the other
/// events are skipped.
pub open spec fn event_models_of(
    events: Seq<Event>,
    transaction_version: i64,
    transaction_block_height: i64,
    block_timestamp: BlockTimestamp,
) -> Seq<EventModelView> {
    Seq::new(
        modelled_event_positions(events).len(),
        |k: int|
            event_model_of(
                events[modelled_event_positions(events)[k]],
                transaction_version,
                transaction_block_height,
                modelled_event_positions(events)[k] as i64,
                block_timestamp,
            ),
    )
}

/// An integer as JSON.
pub open spec fn int_data(i: i64) -> JsonData {
    if i >= 0 {
        JsonData::Number(JsonNum::PosInt(i as u64))
    } else {
        JsonData::Number(JsonNum::NegInt(i))
    }
}

/// The JSON of an event model: its fields in declaration order, the event
/// type as an object, and the block time as chrono writes it.
pub open spec fn event_json(m: EventModelView) -> JsonData {
    JsonData::Object(
        seq![
            ("sequence_number"@, int_data(m.sequence_number)),
            ("creation_number"@, int_data(m.creation_number)),
            ("account_address"@, JsonData::Str(m.account_address)),
            ("transaction_version"@, int_data(m.transaction_version)),
            ("transaction_block_height"@, int_data(m.transaction_block_height)),
            (
                "event_type"@,
                JsonData::Object(
                    seq![
                        ("address"@, JsonData::Str(m.event_type.address)),
                        ("module"@, JsonData::Str(m.event_type.module)),
                        ("struct"@, JsonData::Str(m.event_type.struct_name)),
                    ],
                ),
            ),
            ("data"@, m.data),
            ("event_index"@, int_data(m.event_index)),
            (
                "block_timestamp"@,
                JsonData::Str(
                    naive_datetime_debug_text(m.block_timestamp.secs(), m.block_timestamp.nsecs()),
                ),
            ),
        ],
    )
}

/// Whether `m` is the model of event `e` at position `event_index` of the
/// transaction `transaction_version` (block `transaction_block_height`, time
/// `block_timestamp`).
pub open spec fn models_event(
    m: EventModel,
    e: Event,
    transaction_version: i64,
    transaction_block_height: i64,
    event_index: i64,
    block_timestamp: BlockTimestamp,
) -> bool {
    &&& event_is_complete(e)
    &&& parse_event_type(e.type_str@) is Some
    &&& m@ == event_model_of(e, transaction_version, transaction_block_height, event_index, block_timestamp)
}

/// The error for an event whose type parses but that cannot be modelled.
pub open spec fn event_error(e: Event) -> IndexerErrorView {
    if e.key is None {
        IndexerErrorView::MissingEventKey
    } else {
        IndexerErrorView::InvalidEventData(e.type_str@)
    }
}

/// Whether an event can be modelled: its type parses, and it has a key and
/// JSON data.
pub open spec fn event_is_complete(e: Event) -> bool {
    e.key is Some && json_parse(e.data@) is Some
}

/// Whether an event is modelled: its type is a struct type (events that are
/// plain values, such as an address, are not indexed), and it has a key and
/// JSON data.
pub open spec fn event_is_modelled(e: Event) -> bool {
    parse_event_type(e.type_str@) is Some && event_is_complete(e)
}

/// The positions of the events that are modelled, in order.
pub open spec fn modelled_event_positions(events: Seq<Event>) -> Seq<int>
    decreases events.len(),
{
    if events.len() == 0 {
        Seq::empty()
    } else {
        let rest = modelled_event_positions(events.drop_last());
        if event_is_modelled(events.last()) {
            rest.push(events.len() - 1)
        } else {
            rest
        }
    }
}

impl EventModel {
    /// The model of `event`: `Ok(None)` when its type is not a struct type
    /// (such events are not indexed), an error when it has no key or its data
    /// is not valid JSON.
    pub fn from_event(
        event: &Event,
        transaction_version: i64,
        transaction_block_height: i64,
        event_index: i64,
        block_timestamp: BlockTimestamp,
    ) -> (r: Result<Option<EventModel>, IndexerError>)
        ensures
            parse_event_type(event.type_str@) is None <==> r == Ok::<Option<EventModel>, IndexerError>(
                None,
            ),
            parse_event_type(event.type_str@) is Some ==> (r is Ok <==> event_is_complete(*event)),
            r matches Err(e) ==> e@ == event_error(*event),
            r matches Ok(Some(m)) ==> models_event(
                m,
                *event,
                transaction_version,
                transaction_block_height,
                event_index,
                block_timestamp,
            ),
    {
        let event_type = match EventType::try_from(event.type_str.as_str()) {
            Ok(t) => t,
            Err(_) => return Ok(None),
        };
        let key = match &event.key {
            Some(k) => k,
            None => return Err(IndexerError::MissingEventKey),
        };
        let data = match parse_json(event.data.as_str()) {
            Some(d) => d,
            None => return Err(IndexerError::InvalidEventData(event.type_str.clone())),
        };
        Ok(
            Some(
                EventModel {
                    account_address: standardize_address(key.account_address.as_str()),
                    creation_number: key.creation_number as i64,
                    sequence_number: event.sequence_number as i64,
                    transaction_version,
                    transaction_block_height,
                    event_type,
                    data,
                    event_index,
                    block_timestamp,
                },
            ),
        )
    }

    /// The models of the events of a transaction, in order; event `i` gets
    /// index `i`. Events that cannot be modelled (a type that is not a struct
    /// type, no key, data that is not JSON) are skipped, so the call does not
    /// fail.
    pub fn from_events(
        events: &Vec<Event>,
        transaction_version: i64,
        transaction_block_height: i64,
        block_timestamp: BlockTimestamp,
    ) -> (r: Result<Vec<EventModel>, IndexerError>)
        requires
            events@.len() <= i64::MAX,
        ensures
            r is Ok,
            r matches Ok(v) ==> v@.len() == modelled_event_positions(events@).len() && forall|k: int|
                0 <= k < v@.len() ==> models_event(
                    #[trigger] v@[k],
                    events@[modelled_event_positions(events@)[k]],
                    transaction_version,
                    transaction_block_height,
                    modelled_event_positions(events@)[k] as i64,
                    block_timestamp,
                ),
            r matches Ok(v) ==> v@.map_values(|m: EventModel| m@) == event_models_of(
                events@,
                transaction_version,
                transaction_block_height,
                block_timestamp,
            ),
    {
        let mut result: Vec<EventModel> = Vec::new();
        let mut index: usize = 0;
        while index < events.len()
            invariant
                index <= events@.len() <= i64::MAX,
                result@.len() == modelled_event_positions(events@.take(index as int)).len(),
                forall|k: int|
                    0 <= k < result@.len() ==> 0 <= #[trigger] modelled_event_positions(
                        events@.take(index as int),
                    )[k] < index,
                forall|k: int|
                    0 <= k < result@.len() ==> models_event(
                        #[trigger] result@[k],
                        events@[modelled_event_positions(events@.take(index as int))[k]],
                        transaction_version,
                        transaction_block_height,
                        modelled_event_positions(events@.take(index as int))[k] as i64,
                        block_timestamp,
                    ),
            decreases events@.len() - index,
        {
            let ghost pre = events@.take(index as int);
            let ghost next = events@.take(index + 1);
            assert(next.drop_last() =~= pre);
            assert(next.last() == events@[index as int]);
            match EventModel::from_event(
                &events[index],
                transaction_version,
                transaction_block_height,
                index as i64,
                block_timestamp,
            ) {
                Ok(Some(m)) => {
                    result.push(m);
                },
                Ok(None) => {},
                Err(_) => {},
            }
            index = index + 1;
        }
        assert(events@.take(events@.len() as int) =~= events@);
        assert(result@.map_values(|m: EventModel| m@) =~= event_models_of(
            events@,
            transaction_version,
            transaction_block_height,
            block_timestamp,
        ));
        Ok(result)
    }

    /// The JSON value of the event model, with the fields in declaration
    /// order and the block time in chrono's `Debug` text.
    pub fn to_json_value(&self) -> (r: JsonValue)
        ensures
            r@ == event_json(self@),
    {
        let mut fields: Vec<(String, JsonValue)> = Vec::new();
        fields.push((str_to_string("sequence_number"), int_json(self.sequence_number)));
        fields.push((str_to_string("creation_number"), int_json(self.creation_number)));
        fields.push(
            (str_to_string("account_address"), JsonValue::Str(self.account_address.clone())),
        );
        fields.push((str_to_string("transaction_version"), int_json(self.transaction_version)));
        fields.push(
            (str_to_string("transaction_block_height"), int_json(self.transaction_block_height)),
        );
        let mut type_fields: Vec<(String, JsonValue)> = Vec::new();
        type_fields.push(
            (str_to_string("address"), JsonValue::Str(str_to_string(self.event_type.get_address()))),
        );
        type_fields.push(
            (str_to_string("module"), JsonValue::Str(str_to_string(self.event_type.get_module()))),
        );
        type_fields.push(
            (str_to_string("struct"), JsonValue::Str(str_to_string(self.event_type.get_struct()))),
        );
        fields.push((str_to_string("event_type"), JsonValue::Object(type_fields)));
        fields.push((str_to_string("data"), self.data.deep_clone()));
        fields.push((str_to_string("event_index"), int_json(self.event_index)));
        fields.push(
            (
                str_to_string("block_timestamp"),
                JsonValue::Str(self.block_timestamp.to_debug_string()),
            ),
        );
        proof {
            lemma_members_view(type_fields@);
            lemma_members_view(fields@);
            assert(members_view(type_fields@) =~= seq![
                ("address"@, JsonData::Str(self@.event_type.address)),
                ("module"@, JsonData::Str(self@.event_type.module)),
                ("struct"@, JsonData::Str(self@.event_type.struct_name)),
            ]);
        }
        proof {
            let expected = event_json(self@)->Object_0;
            assert(members_view(fields@) =~= expected);
        }
        JsonValue::Object(fields)
    }
}

/// The JSON number of an `i64`.
pub fn int_json(i: i64) -> (r: JsonValue)
    ensures
        r@ == int_data(i),
        i >= 0 ==> r == JsonValue::Number(JsonNumber::PosInt(i as u64)),
        i < 0 ==> r == JsonValue::Number(JsonNumber::NegInt(i)),
{
    if i >= 0 {
        JsonValue::Number(JsonNumber::PosInt(i as u64))
    } else {
        JsonValue::Number(JsonNumber::NegInt(i))
    }
}

} // verus!
