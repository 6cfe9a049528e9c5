//! Derivation of a stable, hardware-bound machine identifier.
//!
//! The library models the identifier acquisition pipeline: an ordered
//! fallback chain of hardware information sources feeding a hashing
//! stage. Reading the actual sources (process output, firmware trees,
//! identity files) is left to the caller; the decisions, the text
//! extraction and the digest derivation are verified here.

pub mod identifier;
pub mod prober;
pub mod shell;
pub mod text;
