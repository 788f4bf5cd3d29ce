//! The leaves of the tree: symbols, keywords, identifiers and literals.

pub mod identifier;
pub mod keyword;
pub mod number_literal;
pub mod string_literal;
pub mod symbol;
