//! The frame of a source file: the file itself, its end, and type names.

pub mod eof;
pub mod file;
pub mod type_struct;
