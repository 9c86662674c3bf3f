//! Parsers for the index, the per-track plans and metadata, and the loader
//! that merges them.
pub mod markdown;
pub mod index;
pub mod plan;
pub mod datetime;
pub mod metadata;
pub mod load;
