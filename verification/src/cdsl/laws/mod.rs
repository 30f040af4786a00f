//! What holds of sets of value types and of type variables as a whole.

pub mod derivation;
pub mod equality;
pub mod images;
pub mod listing;
pub mod naming;
pub mod printing;
pub mod selection;
