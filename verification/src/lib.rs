//! A small streaming record-processing pipeline: records pulled one at a
//! time from a source, passed through an optional filter, and folded into a
//! numeric aggregation accumulator, with per-record errors collected along
//! the way.

pub mod aggregate;
pub mod filter;
pub mod ingest;
pub mod laws;
pub mod pipeline;
pub mod record;
pub mod text;
