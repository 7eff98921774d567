//! Memory primitives: magnitude/position arithmetic, a raw growable buffer,
//! a vector-like container built on it, and a small-buffer-optimized byte
//! sequence.

pub mod aligned;
pub mod allocation;
pub mod array;
pub mod index;
pub mod shtick;
pub mod types;
