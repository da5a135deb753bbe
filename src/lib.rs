//! A stack-based bytecode virtual machine for a small dynamically typed
//! scripting language: values with implicit coercions, local and global
//! variable bindings, branch addresses, and a namespace of functions.

pub mod text;
pub mod value;
pub mod opcode;
pub mod namespace;
pub mod vm;
pub mod laws;
