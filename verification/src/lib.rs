//! Polymorphic type variables for instruction descriptions, and the glue code that binds the
//! functions of an interface module to a linker.

pub mod cdsl;
pub mod linker;
pub mod shared;
pub mod text;
