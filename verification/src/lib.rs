//! Verified core of a streaming image-captioning service.
//!
//! The library covers the deterministic heart of the pipeline: image
//! preprocessing into a fixed-shape pixel tensor, the autoregressive decode
//! loop with its stopping policy, incremental detokenization into flushable
//! text fragments, and the per-connection session state machine.  Model
//! inference and tokenizer decoding are reached through trusted wrappers
//! around the outside crates that implement them.

pub mod decode;
pub mod detok;
pub mod error;
pub mod model;
pub mod pixels;
pub mod session;
