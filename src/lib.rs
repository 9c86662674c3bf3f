//! Reconciles a tree of hand-written track files (a master markdown index,
//! per-track JSON or YAML metadata and per-track markdown plans) into one
//! model of tracks, and classifies file changes into the reload they need.
pub mod text;
pub mod model;
pub mod parser;
pub mod laws;
