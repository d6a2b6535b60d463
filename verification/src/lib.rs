//! Kafka table functions for DuckDB.
pub mod config;
pub mod json;
pub mod kafka;
pub mod kafka_metadata;
pub mod kafka_produce;
pub mod kafka_scan;
pub mod layout;
pub mod metadata_row;
pub mod params;
pub mod row;
pub mod scan_laws;
pub mod scan_state;
pub mod schema;
pub mod text_map;
