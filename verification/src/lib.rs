//! Decoder for "factory" archives: a flat run of length-prefixed blocks, each
//! pairing a UTF-16BE path with a binary payload, and the per-record decisions
//! an extractor takes when it materialises them.

pub mod wire;
pub mod text;
pub mod block;
pub mod encoding;
pub mod report;
pub mod extract;
