//! Data-freshness and refresh-coordination core of a space telemetry
//! aggregator: position log and trend timing, catalog upserts, the named
//! refresh cache, and the periodic job schedule.

pub mod cache;
pub mod catalog;
pub mod config;
pub mod errors;
pub mod json;
pub mod normalize;
pub mod position;
pub mod schedule;
pub mod sources;
pub mod text;
pub mod time;
