//! Resumable, deduplicating, batched ingestion of pixel-placement events.
//!
//! The library holds the verified core of the pipeline: the field decoders,
//! the user registry that assigns surrogate ids to opaque hashes, the resume
//! cursor that skips already-committed records, and the batch ingestor that
//! groups decoded events into bounded flushes. Reading the CSV stream and
//! talking to the relational store are left to the surrounding binary.

pub mod codec;
pub mod cursor;
pub mod errors;
pub mod header;
pub mod ingest;
pub mod models;
pub mod registry;
pub mod timestamp;
