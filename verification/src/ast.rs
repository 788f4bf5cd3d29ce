//! The syntax tree: every node kind, its mathematical model, its grammar and
//! the text it stands for.

pub mod expressions;
pub mod statements;
pub mod structure;
pub mod terminal;
pub mod trivia;
pub mod utils;
