//! Remappers: marketplace events and written resources into rows.
pub mod event_remapper;
pub mod resource_remapper;
pub mod table_resource_remapper;
