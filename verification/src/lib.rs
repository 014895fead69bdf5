//! Dependency license analysis: license classification, configuration rules,
//! manifest parsers and report rendering, with their contracts.

pub mod text;
pub mod cache;
pub mod clock;
pub mod config;
pub mod debug;
pub mod documents;
pub mod generate;
pub mod languages;
pub mod license_cache;
pub mod license_ids;
pub mod licenses;
pub mod lists;
pub mod order;
pub mod parser;
pub mod pattern;
pub mod report;
pub mod sources;
pub mod walk;
