//! A trivia-preserving syntax tree for the Leek scripting language.
//!
//! Source text is parsed into a tree that owns every character of its input,
//! whitespace and comments included, so that writing the tree back gives the
//! text again, character for character.
//!
//! * [`parser`] is the engine: what a parser is, and the composites that the
//!   grammar is built from.
//! * [`ast`] holds the nodes of the tree. Each comes with its model, the text
//!   it stands for, and its grammar.
//! * [`visitor`] holds the traversals: the writer, which gives the text of a
//!   tree, and the includer, which puts included files in the place of the
//!   statements that include them.

pub mod ast;
pub mod parser;
pub mod visitor;
