//! A Java code generator inspired by JavaPoet: types, statements, blocks and
//! declarations that format to Java source text.

pub mod modifiers;
pub mod types;
pub mod statement;
pub mod sections;
pub mod specs;
pub mod elements;
pub mod imports;
pub mod file_spec;
pub mod laws;
