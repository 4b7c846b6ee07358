//! The Jack compiler front end: a tokenizer, a recursive-descent parser, a
//! two-level symbol table, and a VM code generator.

pub mod ast;
pub mod emitter;
pub mod parser;
pub mod symbol_table;
pub mod tokenizer;
