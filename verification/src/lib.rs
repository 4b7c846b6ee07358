//! A toolchain for the Hack/Jack platform: a Jack-to-VM compiler front end,
//! a VM-to-assembly translator, and a two-pass Hack assembler.
//!
//! Each stage is a pure function from text to text; reading and writing files
//! is left to the surrounding application.

pub mod text;

pub mod assembler;
pub mod compile;
pub mod vm;
