//! Argus: an in-memory event-based temporal graph engine for detecting
//! cyclic money flows (smurfing) in streams of wire transfers.
//!
//! - [`graph`]: the flat, array-backed temporal graph.
//! - [`engine`]: bounded, chronologically pruned cycle detection.
//! - [`ingestion`]: ISO 20022 `pacs.008` parsing and the event queue.
pub mod engine;
pub mod graph;
pub mod ingestion;
pub mod monitor;
pub mod xml;
