//! Compact binary encoding of a chunk of circuit cells: a bit-packed cell
//! state set, a quantized vertex codec, a tiered state texture, and the
//! builder that ties them together.

pub mod binary32;
pub mod chunk;
pub mod circuit_states;
pub mod codec;
pub mod error;
pub mod texture;
