//! Verified core of a clip-cataloguing system: an ingest pipeline that
//! turns external tool output into normalized progress reports, and a
//! dual-store persistence layer that keeps a structured record store
//! consistent with a full-text search index.

pub mod text;
pub mod timestamp;
pub mod progress;
pub mod lines;
pub mod id;
pub mod date;
pub mod parse_date;
pub mod status;
pub mod language;
pub mod tag;
pub mod entry;
pub mod job;
pub mod pipeline;
pub mod store;
pub mod index;
pub mod config;
pub mod facade;
pub mod root;
pub mod metadata;
