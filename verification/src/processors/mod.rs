//! The marketplace processor configured per marketplace contract: JSON
//! paths (a missing path reads the whole document) and the field extractors
//! built on them.
use crate::error::{IndexerError, IndexerErrorView};
use crate::json::{
    json_as_str, json_parse, json_path_find_first, json_path_first, json_path_is_valid,
    json_path_parses, json_text, lemma_root_path_evaluable, parse_json, JsonData, JsonValue,
};
use crate::path_syntax::{json_path_evaluable, path_evaluable};
use crate::text::str_to_string;
use std::str::FromStr;
use vstd::prelude::*;


pub mod marketplace_config;
pub mod util;
pub mod models;
pub mod processor;

verus! {

/// Whether `bigdecimal` parses `text` as a decimal number.
pub uninterp spec fn decimal_parses(text: Seq<char>) -> bool;

/// Asks `bigdecimal::BigDecimal::from_str` whether `text` is a decimal
/// number. The contract names the answer; the accepted syntax is
/// bigdecimal's and is not stated here.
#[verifier::external_body]
pub(crate) fn is_decimal(text: &str) -> (r: bool)
    ensures
        r == decimal_parses(text@),
{
    bigdecimal::BigDecimal::from_str(text).is_ok()
}

/// The path a JSON path option stands for: the whole document when absent.
pub open spec fn path_or_root(raw: Option<Seq<char>>) -> Seq<char> {
    match raw {
        Some(p) => p,
        None => "$"@,
    }
}

/// Whether a configured path, when there is one, can be run by the
/// evaluator.
pub open spec fn opt_path_evaluable(raw: Option<Seq<char>>) -> bool {
    match raw {
        Some(p) => path_evaluable(p),
        None => true,
    }
}

/// What a JSON path reads from `data`: the first value it finds, else null.
pub open spec fn path_value(path: Seq<char>, data: JsonData) -> JsonData {
    match json_path_first(path, json_text(data)) {
        Some(m) => match json_parse(m.text) {
            Some(v) => v,
            None => JsonData::Null,
        },
        None => JsonData::Null,
    }
}

/// A JSON path that may be absent from the configuration; an absent path
/// reads the whole document.
#[derive(Debug, Clone, PartialEq, Eq, Hash)]
pub struct HashableJsonPath {
    raw: Option<String>,
}

impl HashableJsonPath {
    /// The configured path text, if any.
    pub closed spec fn raw_view(&self) -> Option<Seq<char>> {
        match self.raw {
            Some(s) => Some(s@),
            None => None,
        }
    }

    /// The path the value is read with.
    pub open spec fn path(&self) -> Seq<char> {
        path_or_root(self.raw_view())
    }

    /// The path `raw` (or `$` when absent), which must parse; an absent path
    /// always does.
    pub fn new(raw: Option<String>) -> (r: Result<HashableJsonPath, IndexerError>)
        ensures
            r matches Ok(p) ==> p.raw_view() == (match raw {
                Some(s) => Some(s@),
                None => None::<Seq<char>>,
            }),
            raw is None ==> r is Ok,
            r is Ok <==> json_path_parses(path_or_root(match raw {
                Some(s) => Some(s@),
                None => None::<Seq<char>>,
            })),
            r matches Err(e) ==> e@ == IndexerErrorView::InvalidJsonPath(path_or_root(match raw {
                Some(s) => Some(s@),
                None => None::<Seq<char>>,
            })),
    {
        let ok = match &raw {
            Some(p) => json_path_is_valid(p.as_str()),
            None => {
                proof {
                    reveal_strlit("$");
                    assert("$"@ =~= seq!['$']);
                }
                json_path_is_valid("$")
            },
        };
        if ok {
            Ok(HashableJsonPath { raw })
        } else {
            let text = match raw {
                Some(p) => p,
                None => str_to_string("$"),
            };
            Err(IndexerError::InvalidJsonPath(text))
        }
    }

    /// The configured path text, if any.
    pub fn raw(&self) -> (r: Option<&str>)
        ensures
            r matches Some(s) ==> self.raw_view() == Some(s@),
            r is None ==> self.raw_view() is None,
    {
        match &self.raw {
            Some(s) => Some(s.as_str()),
            None => None,
        }
    }

    /// Whether the evaluator can run the configured path (an absent path
    /// reads the whole document, which it always can).
    pub fn is_evaluable(&self) -> (r: bool)
        ensures
            r == opt_path_evaluable(self.raw_view()),
    {
        match &self.raw {
            Some(p) => json_path_evaluable(p.as_str()),
            None => true,
        }
    }

    /// The first value the path finds in `value`, or null. The evaluator
    /// must be able to run the path.
    pub fn extract_from(&self, value: &JsonValue) -> (r: JsonValue)
        requires
            opt_path_evaluable(self.raw_view()),
        ensures
            r@ == path_value(self.path(), value@),
    {
        proof {
            lemma_root_path_evaluable();
            reveal_strlit("$");
            assert("$"@ =~= seq!['$']);
        }
        let doc = value.to_json_text();
        let found = match &self.raw {
            Some(p) => json_path_find_first(p.as_str(), doc.as_str()),
            None => json_path_find_first("$", doc.as_str()),
        };
        match found {
            Some(m) => match parse_json(m.text.as_str()) {
                Some(v) => v,
                None => JsonValue::Null,
            },
            None => JsonValue::Null,
        }
    }
}

/// What the string extractors give for the configured path `raw`: nothing
/// for an absent path, else the string the path reads, if it reads one.
pub open spec fn extracted_text(raw: Option<Seq<char>>, data: JsonData) -> Option<Seq<char>> {
    match raw {
        None => None,
        Some(_) => json_as_str(path_value(path_or_root(raw), data)),
    }
}

/// What the string extractors give for `path`.
pub open spec fn extracted_string(path: &HashableJsonPath, data: JsonData) -> Option<Seq<char>> {
    extracted_text(path.raw_view(), data)
}

fn extract_str(path: &HashableJsonPath, from: &JsonValue) -> (r: Option<String>)
    requires
        opt_path_evaluable(path.raw_view()),
    ensures
        r matches Some(s) ==> extracted_string(path, from@) == Some(s@),
        r is None ==> extracted_string(path, from@) is None,
{
    if path.raw().is_none() {
        return None;
    }
    let v = path.extract_from(from);
    match v.as_str() {
        Some(s) => Some(str_to_string(s)),
        None => None,
    }
}

/// The string `path` reads from `from`; nothing when the path is absent or
/// reads something else.
pub fn extract_string(path: &HashableJsonPath, from: &JsonValue) -> (r: Option<String>)
    requires
        opt_path_evaluable(path.raw_view()),
    ensures
        r matches Some(s) ==> extracted_string(path, from@) == Some(s@),
        r is None ==> extracted_string(path, from@) is None,
{
    extract_str(path, from)
}

/// The marketplace name `path` reads from `from`.
pub fn extract_marketplace_name(path: &HashableJsonPath, from: &JsonValue) -> (r: Option<String>)
    requires
        opt_path_evaluable(path.raw_view()),
    ensures
        r matches Some(s) ==> extracted_string(path, from@) == Some(s@),
        r is None ==> extracted_string(path, from@) is None,
{
    extract_str(path, from)
}

/// The contract address `path` reads from `from`.
pub fn extract_contract_address(path: &HashableJsonPath, from: &JsonValue) -> (r: Option<String>)
    requires
        opt_path_evaluable(path.raw_view()),
    ensures
        r matches Some(s) ==> extracted_string(path, from@) == Some(s@),
        r is None ==> extracted_string(path, from@) is None,
{
    extract_str(path, from)
}

/// The collection name `path` reads from `from`.
pub fn extract_collection_name(path: &HashableJsonPath, from: &JsonValue) -> (r: Option<String>)
    requires
        opt_path_evaluable(path.raw_view()),
    ensures
        r matches Some(s) ==> extracted_string(path, from@) == Some(s@),
        r is None ==> extracted_string(path, from@) is None,
{
    extract_str(path, from)
}

/// The value `path` reads from `from`; nothing when the path is absent.
pub fn extract_token_id_struct(path: &HashableJsonPath, from: &JsonValue) -> (r: Option<JsonValue>)
    requires
        opt_path_evaluable(path.raw_view()),
    ensures
        path.raw_view() is None ==> r is None,
        path.raw_view() is Some ==> r is Some,
        r matches Some(v) ==> v@ == path_value(path.path(), from@),
{
    if path.raw().is_none() {
        return None;
    }
    Some(path.extract_from(from))
}

/// What `extract_bigdecimal` gives: the decimal text `path` reads, or `0`
/// when the path is absent or reads no decimal text.
pub open spec fn extracted_decimal(path: &HashableJsonPath, data: JsonData) -> Seq<char> {
    decimal_text(path.raw_view(), data)
}

/// The decimal text the configured path `raw` reads, or `0`.
pub open spec fn decimal_text(raw: Option<Seq<char>>, data: JsonData) -> Seq<char> {
    match extracted_text(raw, data) {
        Some(s) => if decimal_parses(s) {
            s
        } else {
            "0"@
        },
        None => "0"@,
    }
}

/// The decimal number `path` reads from `from`, as its text; `0` when the
/// path is absent or reads no decimal text.
pub fn extract_bigdecimal(path: &HashableJsonPath, from: &JsonValue) -> (r: String)
    requires
        opt_path_evaluable(path.raw_view()),
    ensures
        r@ == extracted_decimal(path, from@),
{
    match extract_str(path, from) {
        Some(s) => if is_decimal(s.as_str()) {
            s
        } else {
            str_to_string("0")
        },
        None => str_to_string("0"),
    }
}

} // verus!
