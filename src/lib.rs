//! A `Vec<bool>`-like container that packs one boolean per bit.

pub mod bits;
pub mod laws;
pub mod vecbool;

pub use vecbool::{VecBool, CHUNK_SIZE};
