//! JSON documents as the indexer reads them: a value type with the accessors
//! the remapping logic uses, its JSON text, and JSON-path queries.
use crate::text::{i64_to_string, push_char, str_eq, u64_to_string};
use crate::path_syntax::{path_evaluable, unquoted, unquoted_from, QuoteScan};
use std::str::FromStr;
use vstd::prelude::*;

verus! {

/// A JSON number, kept in the three forms a JSON number can take.
pub enum JsonNumber {
    /// A non-negative integer.
    PosInt(u64),
    /// A negative integer.
    NegInt(i64),
    /// Any other number, by its JSON text.
    Float(String),
}

/// A JSON value.
pub enum JsonValue {
    Null,
    Bool(bool),
    Number(JsonNumber),
    Str(String),
    Array(Vec<JsonValue>),
    /// An object, by its members in order.
    Object(Vec<(String, JsonValue)>),
}

/// The plain content of a JSON number.
pub enum JsonNum {
    PosInt(u64),
    NegInt(i64),
    Float(Seq<char>),
}

/// The plain content of a JSON value.
pub enum JsonData {
    Null,
    Bool(bool),
    Number(JsonNum),
    Str(Seq<char>),
    Array(Seq<JsonData>),
    Object(Seq<(Seq<char>, JsonData)>),
}

/// The content of a number.
pub open spec fn num_view(n: JsonNumber) -> JsonNum {
    match n {
        JsonNumber::PosInt(u) => JsonNum::PosInt(u),
        JsonNumber::NegInt(i) => JsonNum::NegInt(i),
        JsonNumber::Float(t) => JsonNum::Float(t@),
    }
}

/// The content of a value.
pub open spec fn json_view(v: JsonValue) -> JsonData
    decreases v,
{
    match v {
        JsonValue::Null => JsonData::Null,
        JsonValue::Bool(b) => JsonData::Bool(b),
        JsonValue::Number(n) => JsonData::Number(num_view(n)),
        JsonValue::Str(s) => JsonData::Str(s@),
        JsonValue::Array(items) => JsonData::Array(items_view(items@)),
        JsonValue::Object(fields) => JsonData::Object(members_view(fields@)),
    }
}

/// The contents of array items.
pub open spec fn items_view(items: Seq<JsonValue>) -> Seq<JsonData>
    decreases items,
{
    if items.len() == 0 {
        Seq::empty()
    } else {
        items_view(items.drop_last()).push(json_view(items.last()))
    }
}

/// The contents of object members.
pub open spec fn members_view(fields: Seq<(String, JsonValue)>) -> Seq<(Seq<char>, JsonData)>
    decreases fields,
{
    if fields.len() == 0 {
        Seq::empty()
    } else {
        members_view(fields.drop_last()).push((fields.last().0@, json_view(fields.last().1)))
    }
}

impl View for JsonNumber {
    type V = JsonNum;

    open spec fn view(&self) -> JsonNum {
        num_view(*self)
    }
}

impl View for JsonValue {
    type V = JsonData;

    open spec fn view(&self) -> JsonData {
        json_view(*self)
    }
}

/// The contents of the items are the items' contents, one for one.
pub proof fn lemma_items_view(items: Seq<JsonValue>)
    ensures
        items_view(items).len() == items.len(),
        forall|k: int| 0 <= k < items.len() ==> #[trigger] items_view(items)[k] == json_view(items[k]),
    decreases items.len(),
{
    if items.len() > 0 {
        lemma_items_view(items.drop_last());
    }
}

/// The contents of the members are the members' contents, one for one.
pub proof fn lemma_members_view(fields: Seq<(String, JsonValue)>)
    ensures
        members_view(fields).len() == fields.len(),
        forall|k: int|
            0 <= k < fields.len() ==> #[trigger] members_view(fields)[k] == (
                fields[k].0@,
                json_view(fields[k].1),
            ),
    decreases fields.len(),
{
    if fields.len() > 0 {
        lemma_members_view(fields.drop_last());
    }
}

/// The value of member `key` of an object with members `fields`; a later
/// member with the same name hides an earlier one.
pub open spec fn member_value(fields: Seq<(Seq<char>, JsonData)>, key: Seq<char>) -> Option<JsonData>
    decreases fields.len(),
{
    if fields.len() == 0 {
        None
    } else if fields.last().0 == key {
        Some(fields.last().1)
    } else {
        member_value(fields.drop_last(), key)
    }
}

/// `value.get(key)`: the member `key` of an object; `None` for anything
/// else.
pub open spec fn json_get(v: JsonData, key: Seq<char>) -> Option<JsonData> {
    match v {
        JsonData::Object(fields) => member_value(fields, key),
        _ => None,
    }
}

/// `value.as_str()`.
pub open spec fn json_as_str(v: JsonData) -> Option<Seq<char>> {
    match v {
        JsonData::Str(s) => Some(s),
        _ => None,
    }
}

/// `value.as_i64()`: integers that fit in an `i64`.
pub open spec fn json_as_i64(v: JsonData) -> Option<i64> {
    match v {
        JsonData::Number(JsonNum::PosInt(u)) => if u <= i64::MAX {
            Some(u as i64)
        } else {
            None
        },
        JsonData::Number(JsonNum::NegInt(i)) => Some(i),
        _ => None,
    }
}

/// `value.as_u64()`: non-negative integers.
pub open spec fn json_as_u64(v: JsonData) -> Option<u64> {
    match v {
        JsonData::Number(JsonNum::PosInt(u)) => Some(u),
        _ => None,
    }
}

/// `value.as_bool()`.
pub open spec fn json_as_bool(v: JsonData) -> Option<bool> {
    match v {
        JsonData::Bool(b) => Some(b),
        _ => None,
    }
}

/// The lowercase hex digit of `d < 16`.
pub open spec fn hex_digit(d: nat) -> char {
    if d < 10 {
        (d + 48) as char
    } else {
        (d + 87) as char
    }
}

/// The JSON escape of one character inside a string literal, as
/// `serde_json` writes it.
pub open spec fn escape_char(c: char) -> Seq<char> {
    if c == '"' {
        seq!['\\', '"']
    } else if c == '\\' {
        seq!['\\', '\\']
    } else if c == '\u{8}' {
        seq!['\\', 'b']
    } else if c == '\t' {
        seq!['\\', 't']
    } else if c == '\n' {
        seq!['\\', 'n']
    } else if c == '\u{c}' {
        seq!['\\', 'f']
    } else if c == '\r' {
        seq!['\\', 'r']
    } else if (c as nat) < 32 {
        seq!['\\', 'u', '0', '0', hex_digit((c as nat) / 16), hex_digit((c as nat) % 16)]
    } else {
        seq![c]
    }
}

/// The escaped characters of a string literal.
pub open spec fn escape_text(s: Seq<char>) -> Seq<char>
    decreases s.len(),
{
    if s.len() == 0 {
        Seq::empty()
    } else {
        escape_text(s.drop_last()) + escape_char(s.last())
    }
}

/// A JSON string literal.
pub open spec fn quoted(s: Seq<char>) -> Seq<char> {
    seq!['"'] + escape_text(s) + seq!['"']
}

/// The JSON text of a number.
pub open spec fn number_text(n: JsonNum) -> Seq<char> {
    match n {
        JsonNum::PosInt(u) => crate::text::nat_to_decimal(u as nat),
        JsonNum::NegInt(i) => crate::text::int_to_decimal(i as int),
        JsonNum::Float(t) => t,
    }
}

/// The JSON text of a value.
pub open spec fn json_text(v: JsonData) -> Seq<char>
    decreases v,
{
    match v {
        JsonData::Null => seq!['n', 'u', 'l', 'l'],
        JsonData::Bool(b) => if b {
            seq!['t', 'r', 'u', 'e']
        } else {
            seq!['f', 'a', 'l', 's', 'e']
        },
        JsonData::Number(n) => number_text(n),
        JsonData::Str(s) => quoted(s),
        JsonData::Array(items) => seq!['['] + items_text(items) + seq![']'],
        JsonData::Object(fields) => seq!['{'] + members_text(fields) + seq!['}'],
    }
}

/// The comma-separated JSON texts of array items.
pub open spec fn items_text(items: Seq<JsonData>) -> Seq<char>
    decreases items,
{
    if items.len() == 0 {
        Seq::empty()
    } else if items.len() == 1 {
        json_text(items[0])
    } else {
        items_text(items.drop_last()) + seq![','] + json_text(items.last())
    }
}

/// The comma-separated JSON texts of object members.
pub open spec fn members_text(fields: Seq<(Seq<char>, JsonData)>) -> Seq<char>
    decreases fields,
{
    if fields.len() == 0 {
        Seq::empty()
    } else if fields.len() == 1 {
        quoted(fields[0].0) + seq![':'] + json_text(fields[0].1)
    } else {
        members_text(fields.drop_last()) + seq![','] + quoted(fields.last().0) + seq![':']
            + json_text(fields.last().1)
    }
}

impl JsonNumber {
    /// A copy of this number.
    pub fn copy(&self) -> (r: JsonNumber)
        ensures
            r@ == self@,
    {
        match self {
            JsonNumber::PosInt(u) => JsonNumber::PosInt(*u),
            JsonNumber::NegInt(i) => JsonNumber::NegInt(*i),
            JsonNumber::Float(t) => JsonNumber::Float(t.clone()),
        }
    }
}

impl JsonValue {
    /// A copy of this value.
    pub fn deep_clone(&self) -> (r: JsonValue)
        ensures
            r@ == self@,
        decreases self,
    {
        match self {
            JsonValue::Null => JsonValue::Null,
            JsonValue::Bool(b) => JsonValue::Bool(*b),
            JsonValue::Number(n) => JsonValue::Number(n.copy()),
            JsonValue::Str(s) => JsonValue::Str(s.clone()),
            JsonValue::Array(items) => {
                let mut out: Vec<JsonValue> = Vec::new();
                let mut i: usize = 0;
                while i < items.len()
                    invariant
                        *self == JsonValue::Array(*items),
                        i <= items@.len(),
                        out@.len() == i,
                        forall|k: int| 0 <= k < i ==> (#[trigger] out@[k])@ == items@[k]@,
                    decreases items@.len() - i,
                {
                    assert(*items == (*self)->Array_0);
                    assert(decreases_to!(*self => (*self)->Array_0));
                    assert(decreases_to!(*items => items@));
                    assert(decreases_to!(items@ => items@[i as int]));
                    out.push(items[i].deep_clone());
                    i = i + 1;
                }
                proof {
                    lemma_items_view(out@);
                    lemma_items_view(items@);
                    assert(items_view(out@) =~= items_view(items@));
                }
                JsonValue::Array(out)
            },
            JsonValue::Object(fields) => {
                let mut out: Vec<(String, JsonValue)> = Vec::new();
                let mut i: usize = 0;
                while i < fields.len()
                    invariant
                        *self == JsonValue::Object(*fields),
                        i <= fields@.len(),
                        out@.len() == i,
                        forall|k: int|
                            0 <= k < i ==> (#[trigger] out@[k]).0@ == fields@[k].0@ && out@[k].1@
                                == fields@[k].1@,
                    decreases fields@.len() - i,
                {
                    assert(*fields == (*self)->Object_0);
                    assert(decreases_to!(*self => (*self)->Object_0));
                    assert(decreases_to!(*fields => fields@));
                    assert(decreases_to!(fields@ => fields@[i as int]));
                    assert(decreases_to!(fields@[i as int] => fields@[i as int].1));
                    let v = fields[i].1.deep_clone();
                    out.push((fields[i].0.clone(), v));
                    i = i + 1;
                }
                proof {
                    lemma_members_view(out@);
                    lemma_members_view(fields@);
                    assert(members_view(out@) =~= members_view(fields@));
                }
                JsonValue::Object(out)
            },
        }
    }

    /// `value.get(key)`.
    pub fn get(&self, key: &str) -> (r: Option<&JsonValue>)
        ensures
            r matches Some(x) ==> json_get(self@, key@) == Some(x@),
            r is None ==> json_get(self@, key@) is None,
    {
        match self {
            JsonValue::Object(fields) => {
                proof {
                    lemma_members_view(fields@);
                }
                let ghost all = members_view(fields@);
                let mut i: usize = fields.len();
                assert(all.take(i as int) =~= all);
                while i > 0
                    invariant
                        self@ == JsonData::Object(all),
                        all == members_view(fields@),
                        all.len() == fields@.len(),
                        forall|k: int|
                            0 <= k < fields@.len() ==> #[trigger] all[k] == (
                                fields@[k].0@,
                                fields@[k].1@,
                            ),
                        i <= fields@.len(),
                        member_value(all, key@) == member_value(all.take(i as int), key@),
                    decreases i,
                {
                    let ghost pre = all.take(i as int);
                    assert(pre.drop_last() =~= all.take(i - 1));
                    assert(pre.last() == all[i - 1]);
                    if str_eq(fields[i - 1].0.as_str(), key) {
                        return Some(&fields[i - 1].1);
                    }
                    i = i - 1;
                }
                None
            },
            _ => None,
        }
    }

    /// `value.as_str()`.
    pub fn as_str(&self) -> (r: Option<&str>)
        ensures
            r matches Some(s) ==> json_as_str(self@) == Some(s@),
            r is None ==> json_as_str(self@) is None,
    {
        match self {
            JsonValue::Str(s) => Some(s.as_str()),
            _ => None,
        }
    }

    /// `value.as_i64()`.
    pub fn as_i64(&self) -> (r: Option<i64>)
        ensures
            r == json_as_i64(self@),
    {
        match self {
            JsonValue::Number(JsonNumber::PosInt(u)) => {
                if *u <= 0x7fff_ffff_ffff_ffffu64 {
                    Some(*u as i64)
                } else {
                    None
                }
            },
            JsonValue::Number(JsonNumber::NegInt(i)) => Some(*i),
            _ => None,
        }
    }

    /// `value.as_u64()`.
    pub fn as_u64(&self) -> (r: Option<u64>)
        ensures
            r == json_as_u64(self@),
    {
        match self {
            JsonValue::Number(JsonNumber::PosInt(u)) => Some(*u),
            _ => None,
        }
    }

    /// `value.as_bool()`.
    pub fn as_bool(&self) -> (r: Option<bool>)
        ensures
            r == json_as_bool(self@),
    {
        match self {
            JsonValue::Bool(b) => Some(*b),
            _ => None,
        }
    }

    /// The JSON text of this value.
    pub fn to_json_text(&self) -> (r: String)
        ensures
            r@ == json_text(self@),
    {
        let mut out = String::new();
        write_json(self, &mut out);
        assert(out@ =~= json_text(self@));
        out
    }
}

fn hex_digit_char(d: u32) -> (c: char)
    requires
        d < 16,
    ensures
        c == hex_digit(d as nat),
{
    if d < 10 {
        let b: u8 = (d as u8) + 48;
        b as char
    } else {
        let b: u8 = (d as u8) + 87;
        b as char
    }
}

fn write_escaped(s: &str, out: &mut String)
    ensures
        final(out)@ == old(out)@ + escape_text(s@),
{
    let n: usize = s.unicode_len();
    let mut i: usize = 0;
    while i < n
        invariant
            n == s@.len(),
            i <= n,
            out@ == old(out)@ + escape_text(s@.take(i as int)),
        decreases n - i,
    {
        let c = s.get_char(i);
        assert(s@.take(i + 1).drop_last() =~= s@.take(i as int));
        assert(s@.take(i + 1).last() == c);
        let ghost before = out@;
        if c == '"' {
            push_char(out, '\\');
            push_char(out, '"');
        } else if c == '\\' {
            push_char(out, '\\');
            push_char(out, '\\');
        } else if c == '\u{8}' {
            push_char(out, '\\');
            push_char(out, 'b');
        } else if c == '\t' {
            push_char(out, '\\');
            push_char(out, 't');
        } else if c == '\n' {
            push_char(out, '\\');
            push_char(out, 'n');
        } else if c == '\u{c}' {
            push_char(out, '\\');
            push_char(out, 'f');
        } else if c == '\r' {
            push_char(out, '\\');
            push_char(out, 'r');
        } else if (c as u32) < 32 {
            let code: u32 = c as u32;
            push_char(out, '\\');
            push_char(out, 'u');
            push_char(out, '0');
            push_char(out, '0');
            push_char(out, hex_digit_char(code / 16));
            push_char(out, hex_digit_char(code % 16));
        } else {
            push_char(out, c);
        }
        assert(out@ =~= before + escape_char(c));
        i = i + 1;
    }
    assert(s@.take(n as int) =~= s@);
}

fn write_quoted(s: &str, out: &mut String)
    ensures
        final(out)@ == old(out)@ + quoted(s@),
{
    push_char(out, '"');
    write_escaped(s, out);
    push_char(out, '"');
    assert(out@ =~= old(out)@ + quoted(s@));
}

fn write_json(v: &JsonValue, out: &mut String)
    ensures
        final(out)@ == old(out)@ + json_text(v@),
    decreases v,
{
    match v {
        JsonValue::Null => {
            push_char(out, 'n');
            push_char(out, 'u');
            push_char(out, 'l');
            push_char(out, 'l');
        },
        JsonValue::Bool(b) => {
            if *b {
                push_char(out, 't');
                push_char(out, 'r');
                push_char(out, 'u');
                push_char(out, 'e');
            } else {
                push_char(out, 'f');
                push_char(out, 'a');
                push_char(out, 'l');
                push_char(out, 's');
                push_char(out, 'e');
            }
        },
        JsonValue::Number(n) => {
            match n {
                JsonNumber::PosInt(u) => {
                    let t = u64_to_string(*u);
                    out.append(t.as_str());
                },
                JsonNumber::NegInt(i) => {
                    let t = i64_to_string(*i);
                    out.append(t.as_str());
                },
                JsonNumber::Float(t) => {
                    out.append(t.as_str());
                },
            }
        },
        JsonValue::Str(s) => {
            write_quoted(s.as_str(), out);
        },
        JsonValue::Array(items) => {
            proof {
                lemma_items_view(items@);
            }
            let ghost all = items_view(items@);
            push_char(out, '[');
            let ghost start = out@;
            let mut i: usize = 0;
            while i < items.len()
                invariant
                    *v == JsonValue::Array(*items),
                    all == items_view(items@),
                    all.len() == items@.len(),
                    forall|k: int| 0 <= k < items@.len() ==> #[trigger] all[k] == items@[k]@,
                    i <= items@.len(),
                    out@ == start + items_text(all.take(i as int)),
                decreases items@.len() - i,
            {
                assert(all.take(i + 1).drop_last() =~= all.take(i as int));
                assert(all.take(i + 1).last() == items@[i as int]@);
                if i > 0 {
                    push_char(out, ',');
                }
                assert(*items == (*v)->Array_0);
                assert(decreases_to!(*v => (*v)->Array_0));
                assert(decreases_to!(*items => items@));
                assert(decreases_to!(items@ => items@[i as int]));
                write_json(&items[i], out);
                i = i + 1;
            }
            assert(all.take(all.len() as int) =~= all);
            push_char(out, ']');
        },
        JsonValue::Object(fields) => {
            proof {
                lemma_members_view(fields@);
            }
            let ghost all = members_view(fields@);
            push_char(out, '{');
            let ghost start = out@;
            let mut i: usize = 0;
            while i < fields.len()
                invariant
                    *v == JsonValue::Object(*fields),
                    all == members_view(fields@),
                    all.len() == fields@.len(),
                    forall|k: int|
                        0 <= k < fields@.len() ==> #[trigger] all[k] == (
                            fields@[k].0@,
                            fields@[k].1@,
                        ),
                    i <= fields@.len(),
                    out@ == start + members_text(all.take(i as int)),
                decreases fields@.len() - i,
            {
                assert(all.take(i + 1).drop_last() =~= all.take(i as int));
                assert(all.take(i + 1).last() == all[i as int]);
                if i > 0 {
                    push_char(out, ',');
                }
                write_quoted(fields[i].0.as_str(), out);
                push_char(out, ':');
                assert(*fields == (*v)->Object_0);
                assert(decreases_to!(*v => (*v)->Object_0));
                assert(decreases_to!(*fields => fields@));
                assert(decreases_to!(fields@ => fields@[i as int]));
                assert(decreases_to!(fields@[i as int] => fields@[i as int].1));
                write_json(&fields[i].1, out);
                i = i + 1;
            }
            assert(all.take(all.len() as int) =~= all);
            push_char(out, '}');
        },
    }
    assert(out@ =~= old(out)@ + json_text(v@));
}

/// What a JSON-path query finds first in a document: the JSON text of the
/// match, and the match read as a string and as an unsigned integer.
pub struct PathMatch {
    pub text: String,
    pub str_value: Option<String>,
    pub u64_value: Option<u64>,
    /// The JSON texts of the items, when the match is an array.
    pub items_text: Option<Vec<String>>,
}

/// The plain content of a `PathMatch`.
pub struct PathMatchView {
    pub text: Seq<char>,
    pub str_value: Option<Seq<char>>,
    pub u64_value: Option<u64>,
    pub items_text: Option<Seq<Seq<char>>>,
}

impl View for PathMatch {
    type V = PathMatchView;

    open spec fn view(&self) -> PathMatchView {
        PathMatchView {
            text: self.text@,
            str_value: match self.str_value {
                Some(s) => Some(s@),
                None => None,
            },
            u64_value: self.u64_value,
            items_text: match self.items_text {
                Some(v) => Some(v@.map_values(|t: String| t@)),
                None => None,
            },
        }
    }
}

/// Whether `jsonpath_rust` accepts `path` as a JSON path.
pub uninterp spec fn json_path_parses(path: Seq<char>) -> bool;

/// The first value that `jsonpath_rust` finds for `path` in the JSON text
/// `doc`; `None` when nothing matches (or when either does not parse).
pub uninterp spec fn json_path_first(path: Seq<char>, doc: Seq<char>) -> Option<PathMatchView>;

/// Parses `path` with `jsonpath_rust::JsonPath::from_str` and reports whether
/// it parsed. The contract names the outcome; which paths parse is the JSON
/// path grammar of `jsonpath_rust`, not stated here.
/// The root path `$` parses (`path = SOI ~ chain ~ EOI` with `chain` a
/// single `root`); the contract states that too.
#[verifier::external_body]
pub(crate) fn json_path_is_valid(path: &str) -> (r: bool)
    ensures
        r == json_path_parses(path@),
        path@ == seq!['$'] ==> r,
{
    jsonpath_rust::JsonPath::<serde_json::Value>::from_str(path).is_ok()
}

/// Runs `jsonpath_rust::JsonPath::find_slice_ptr` for `path` over the
/// document parsed from `doc` by `serde_json`, and describes the first match.
/// The contract names the outcome as a function of the two texts; the
/// matching rules of JSON paths are not stated here. The evaluator panics on
/// some paths that parse (a zero slice step, a union index that is not a
/// non-negative `i64`, a single index beyond `i64`), so the path must be one
/// that `path_evaluable` accepts. (Its slice arithmetic also counts array
/// items in an `i32`, which no document of fewer than 2^31 items reaches.)
#[verifier::external_body]
pub(crate) fn json_path_find_first(path: &str, doc: &str) -> (r: Option<PathMatch>)
    requires
        path_evaluable(path@),
    ensures
        r matches Some(m) ==> json_path_first(path@, doc@) == Some(m@),
        r is None ==> json_path_first(path@, doc@) is None,
{
    let doc: serde_json::Value = serde_json::from_str(doc).ok()?;
    let path = jsonpath_rust::JsonPath::<serde_json::Value>::from_str(path).ok()?;
    let found: serde_json::Value = (*path.find_slice_ptr(&doc).into_iter().next()?).clone();
    let str_value: Option<String> = found.as_str().map(|s| s.to_string());
    let items_text: Option<Vec<String>> = found.as_array().map(|a| a.iter().map(|x| x.to_string()).collect());
    Some(PathMatch { text: found.to_string(), str_value, u64_value: found.as_u64(), items_text })
}

/// The evaluator can run the root path `$`.
pub proof fn lemma_root_path_evaluable()
    ensures
        path_evaluable(seq!['$']),
{
    let p = seq!['$'];
    assert(p.drop_first().len() == 0);
    assert(unquoted_from(p.drop_first(), QuoteScan::Plain).len() == 0);
    assert(unquoted(p).len() == 1);
}

/// `serde_json::Value`, which the parser converts from; opaque here.
#[verifier::external_type_specification]
#[verifier::external_body]
pub struct ExSerdeJsonValue(serde_json::Value);

/// `serde_json::Number`, which the parser converts from; opaque here.
#[verifier::external_type_specification]
#[verifier::external_body]
pub struct ExSerdeJsonNumber(serde_json::Number);

/// The value that `serde_json` parses from the text `text`, by its
/// content; `None` when `text` is not JSON.
pub uninterp spec fn json_parse(text: Seq<char>) -> Option<JsonData>;

/// Parses `text` with `serde_json::from_str` into a `serde_json::Value`
/// and converts the result to a `JsonValue`. The contract names the outcome
/// as a function of the text; the JSON grammar itself is not stated here.
#[verifier::external_body]
pub(crate) fn parse_json(text: &str) -> (r: Option<JsonValue>)
    ensures
        r matches Some(v) ==> json_parse(text@) == Some(v@),
        r is None ==> json_parse(text@) is None,
{
    serde_json::from_str::<serde_json::Value>(text).ok().map(|v| from_serde(&v))
}

/// Converts a `serde_json::Number` to a `JsonNumber` by the kind of number
/// `serde_json` holds: a non-negative integer, a negative one, or a float
/// (by its text). Part of `parse_json`, with no contract of its own.
#[verifier::external_body]
fn number_from_serde(n: &serde_json::Number) -> JsonNumber {
    match (n.as_u64(), n.as_i64()) {
        (Some(u), _) => JsonNumber::PosInt(u),
        (None, Some(i)) => JsonNumber::NegInt(i),
        _ => JsonNumber::Float(n.to_string()),
    }
}

/// Converts a `serde_json::Value` to a `JsonValue`, variant for variant
/// (a number becomes the first of `u64`, `i64` and its text that fits). The
/// conversion is part of `parse_json` and carries no contract of its own.
#[verifier::external_body]
fn from_serde(v: &serde_json::Value) -> JsonValue {
    match v {
        serde_json::Value::Null => JsonValue::Null,
        serde_json::Value::Bool(b) => JsonValue::Bool(*b),
        serde_json::Value::Number(n) => JsonValue::Number(number_from_serde(n)),
        serde_json::Value::String(t) => JsonValue::Str(t.clone()),
        serde_json::Value::Array(a) => JsonValue::Array(a.iter().map(from_serde).collect()),
        serde_json::Value::Object(o) => JsonValue::Object(o.iter().map(|(k, x)| (k.clone(), from_serde(x))).collect()),
    }
}

} // verus!
