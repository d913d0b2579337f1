//! Bodies that are made of other bodies.

pub mod buffered;
pub mod chain;
