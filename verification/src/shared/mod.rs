//! Definitions that every part of the generator shares.

pub mod types;
