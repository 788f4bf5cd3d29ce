//! Whitespace and comments, and the node that holds them in front of the
//! node they precede.

pub mod comment;
pub mod trivia;
pub mod whitespace;
pub mod with_trivia;
