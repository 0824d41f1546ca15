//! Conway's Game of Life on a toroidal grid, with machine-checked contracts.
//!
//! `universe` holds the engine, `rules` the mathematical model that its
//! contracts are stated in, `patterns` the fixed shapes that can be stamped,
//! `text` the rendering, `laws` what is proved of the whole, and `bits` what
//! is taken on trust about the bit storage.

pub mod bits;
pub mod laws;
pub mod patterns;
pub mod rules;
pub mod text;
pub mod universe;

pub use universe::{Cell, GridError, Universe};
