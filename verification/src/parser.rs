//! The front end of the reproto specification language: code blocks,
//! escaped strings and the grammar of specifications.

pub mod code_block;
pub mod escapes;
pub mod lexical;
pub mod type_spec;
pub mod values;
pub mod members;
pub mod decls;
