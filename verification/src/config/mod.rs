//! Configuration of the indexer.
pub mod marketplace_config;
pub mod processor_mode;
pub mod table_mappings;
