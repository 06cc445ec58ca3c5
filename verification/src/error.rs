//! Errors of the indexer library.
use vstd::prelude::*;

verus! {

/// Why configuring or remapping failed.
#[derive(Debug, Clone, PartialEq, Eq)]
pub enum IndexerError {
    /// An event type string with fewer than three `::`-separated parts.
    UnsupportedEventType(String),
    /// A JSON path that does not parse.
    InvalidJsonPath(String),
    /// None of the JSON paths found a value in the given JSON text.
    NoJsonPathMatch(String),
    /// A JSON path that parses but that the evaluator of `jsonpath_rust`
    /// cannot run (it would panic), met when it came to be evaluated.
    UnevaluableJsonPath(String),
    /// An event without a key.
    MissingEventKey,
    /// Event data that is not valid JSON, for the event of the given type.
    InvalidEventData(String),
    /// A column mapped to a table that is not a marketplace table.
    UnknownTable(String),
    /// A transaction without its data.
    MissingTransactionData,
    /// A user transaction without its info.
    MissingTransactionInfo,
    /// A transaction without its timestamp.
    MissingTimestamp,
    /// A timestamp that chrono does not accept.
    InvalidTimestamp,
}

/// The plain content of an `IndexerError`.
pub enum IndexerErrorView {
    UnsupportedEventType(Seq<char>),
    InvalidJsonPath(Seq<char>),
    NoJsonPathMatch(Seq<char>),
    UnevaluableJsonPath(Seq<char>),
    MissingEventKey,
    InvalidEventData(Seq<char>),
    UnknownTable(Seq<char>),
    MissingTransactionData,
    MissingTransactionInfo,
    MissingTimestamp,
    InvalidTimestamp,
}

impl View for IndexerError {
    type V = IndexerErrorView;

    open spec fn view(&self) -> IndexerErrorView {
        match self {
            IndexerError::UnsupportedEventType(s) => IndexerErrorView::UnsupportedEventType(s@),
            IndexerError::InvalidJsonPath(s) => IndexerErrorView::InvalidJsonPath(s@),
            IndexerError::NoJsonPathMatch(s) => IndexerErrorView::NoJsonPathMatch(s@),
            IndexerError::UnevaluableJsonPath(s) => IndexerErrorView::UnevaluableJsonPath(s@),
            IndexerError::MissingEventKey => IndexerErrorView::MissingEventKey,
            IndexerError::InvalidEventData(s) => IndexerErrorView::InvalidEventData(s@),
            IndexerError::UnknownTable(s) => IndexerErrorView::UnknownTable(s@),
            IndexerError::MissingTransactionData => IndexerErrorView::MissingTransactionData,
            IndexerError::MissingTransactionInfo => IndexerErrorView::MissingTransactionInfo,
            IndexerError::MissingTimestamp => IndexerErrorView::MissingTimestamp,
            IndexerError::InvalidTimestamp => IndexerErrorView::InvalidTimestamp,
        }
    }
}

} // verus!
