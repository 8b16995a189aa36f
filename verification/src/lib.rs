//! The core of reproto, specified and verified with Verus: the grammar of
//! specification files, a Java source generator in the style of JavaPoet,
//! the Java back end that turns declarations into classes and interfaces,
//! and the module files of the Rust back end.

pub mod text;
pub mod order;

pub mod java;
pub mod ast;
pub mod parser;
pub mod rust_compiler;
pub mod backend;
pub mod doc;
