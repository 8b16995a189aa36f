//! Back ends: the declarations they read and the Java source files the Java
//! back end makes of them.

pub mod model;
pub mod naming;
pub mod type_text;
pub mod processor;
