//! The VM-to-assembly translator: a line-based parser, a printer, and an
//! emitter that lowers stack-machine commands to Hack assembly.

pub mod ast;
pub mod emitter;
pub mod parser;
pub mod printer;
