//! Spectral-analysis data handling for an additive resynthesis engine.
//!
//! The crate decodes a little-endian binary container of sinusoidal
//! "partial tracks" (amplitude/frequency, optional phase, optional per-band
//! noise residual), keeps decoded data sets in a weakly-held registry so
//! that independent consumers can share them without copying, and provides
//! the integer-side decisions of the real-time synthesis engine: playback
//! position mapping, partial selection, and control-message validation.
//!
//! Every floating-point field of the container is carried as its raw
//! IEEE 754 bit pattern (`u64`); the `float_bits` module models the few
//! operations the format logic needs (ordering, truncation) directly on
//! those bits.

pub mod cache;
pub mod data;
pub mod dump;
pub mod float_bits;
pub mod pipeline;
pub mod synth;
