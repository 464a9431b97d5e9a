//! A small columnar time-series chunk engine.
//!
//! Chunk files hold one immutable record batch in a self-describing binary
//! layout: a fixed header, a CRC-guarded metadata section, and tightly packed
//! little-endian column bodies. A pull-based operator pipeline (scan, filter,
//! project, time-window downsample) evaluates queries over those chunks in
//! batches. The library works on in-memory byte images of chunk files; file
//! I/O stays with the caller.

pub mod agg;
pub mod agg_downsample;
pub mod batch;
pub mod codec;
pub mod crc;
pub mod error;
pub mod expr;
pub mod fbits;
pub mod filter;
pub mod format;
pub mod laws;
pub mod meta;
pub mod operators;
pub mod project;
pub mod reader;
pub mod render;
pub mod scan;
pub mod writer;

pub use error::Error;
