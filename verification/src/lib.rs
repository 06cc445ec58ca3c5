//! Indexing of NFT marketplace activity on Aptos: configuration, remapping of
//! events and resources into marketplace tables, reduction and deduplication.
pub mod text;
pub mod convert;
pub mod str_map;
pub mod json;
pub mod path_syntax;
pub mod config;
pub mod error;
pub mod steps;
pub mod utils;
pub mod models;
pub mod keyed_rows;
pub mod processors;
