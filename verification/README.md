# reproto core, verified

A verified library for the reproto specification language, written in Verus:

- `src/java/` — a Java source generator in the style of JavaPoet: modifiers,
  types, statements, sections and blocks, fields, constructors, methods,
  classes, interfaces and files. Every formatting function is specified by
  the text it produces; a file's imports are proved sorted, free of
  duplicates, and free of `java.lang` and the file's own package.
- `src/parser/` — the front end: the grammar of specifications (types,
  values, members, declarations, files) as functions on characters whose
  results equal recursive spec functions, the decoding of quoted strings,
  and the stripping of code blocks.
- `src/backend/` — the Java back end: the classes and interfaces made of the
  declarations of an environment, with their constructors and getters, and
  the hooks (`Listeners`) that may change them.
- `src/rust_compiler.rs` — the `mod.rs` files of the Rust back end.
- `src/doc.rs` — the documentation back end's choice of stylesheet.
- `src/ast.rs` — the syntax tree and the models of its nodes.
- `app/` — a command-line front end that reads specification files and
  writes module files.
