//! Bounded sequences of nodes.

pub mod repeat;
pub mod separated;
