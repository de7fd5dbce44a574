//! A compiler from a small statically typed scripting language to the
//! block-graph program representation of a visual block-based runtime.
//!
//! The core is the code generator: it lowers a statement/expression tree
//! into a graph of uniquely identified, opcode-tagged nodes connected by
//! parent/next/input links, with scope-aware symbol resolution,
//! control-flow linking and procedure signature encoding.

pub mod allocator;
pub mod assets;
pub mod compiler;
pub mod error;
pub mod laws;
pub mod lexer;
pub mod lowering;
pub mod makefile;
pub mod parser;
pub mod project;
pub mod symbols;
pub mod token;
