//! Infers the scale (ones, thousands, millions or billions) that a table
//! header announces next to a mention of dollars.

pub mod multiplier;
pub mod text;

pub use multiplier::find_multiplier;
