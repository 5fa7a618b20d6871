//! A compiler from the eight-instruction tape language to x86 assembly text.
pub mod code;
pub mod filter;
pub mod codegen;
pub mod path;
