//! The Hack assembler: a line-based parser, a symbol-resolving analyzer, and a
//! bit-exact instruction emitter.

pub mod analyzer;
pub mod ast;
pub mod emitter;
pub mod parser;

