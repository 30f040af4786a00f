//! Glue code that binds the functions of an interface module to a linker.

pub mod glue;
pub mod laws;
pub mod link;
pub mod module;
pub mod shape;
pub mod tokens;
