//! The vocabulary of instruction descriptions: value types, sets of value types, type variables.

pub mod builder;
pub mod interval;
pub mod laws;
pub mod numset;
pub mod refusal;
pub mod types;
pub mod typeset;
pub mod typevar;
