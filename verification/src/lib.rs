//! Streaming, byte-at-a-time JSON syntax validation and repair.
//!
//! The crate offers two types:
//!
//! - [`JsonVerifier`]: a state machine that consumes one byte at a time and
//!   tracks whether the bytes seen so far form (a prefix of) a structurally
//!   well-formed JSON document.
//! - [`JsonBuilder`]: wraps a verifier and an append-only byte buffer, and can
//!   repair a truncated byte stream by trimming back to the last fully valid
//!   position and closing every still-open container.

use vstd::prelude::*;

pub mod builder;
pub mod table;
pub mod verify;

pub use builder::JsonBuilder;
pub use builder::JsonBuilderOptions;
pub use builder::JsonSource;
pub use verify::JsonVerifier;

verus! {

/// The error type for JSON validation and repair.
#[derive(Debug, Clone, Copy, PartialEq, Eq, Structural)]
pub enum JsonError {
    /// The input stream is not valid JSON.
    Invalid,
    /// Conversion to a string failed because the accumulated bytes are not a
    /// well-formed UTF-8 sequence.
    Utf8,
    /// Parsing failed because the input opened more nested containers than the
    /// configured maximum depth.
    Exceeded,
}

/// Describes the parse status of a byte sequence consumed so far.
#[derive(Debug, Clone, Copy, PartialEq, Eq, Structural)]
pub enum JsonStatus {
    /// More bytes are needed to complete this JSON document.
    Continue,
    /// The bytes consumed so far form a complete, valid JSON document.
    Valid,
}

} // verus!
