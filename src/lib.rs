//! A map from keys that the container generates itself to stored values.
//!
//! Each inserted value gets a fresh `usize` key from a counter that only
//! moves forward, so a key handed out once is never handed out again.

pub mod indexed_map;
pub mod insertions;

pub use indexed_map::{IndexedMap, KeyExhausted};
