//! WebAssembly component backend for a typed intermediate representation.

pub mod backend;
pub mod binary;
pub mod clean;
pub mod cli;
pub mod component;
pub mod compound;
pub mod documents;
pub mod dwarf;
pub mod encode;
pub mod execution;
pub mod ident;
pub mod instr;
pub mod ir;
pub mod layout;
pub mod lower;
pub mod machine;
pub mod module;
pub mod module_lowering;
pub mod preflight;
pub mod resolution;
pub mod runtime;
pub mod string_pool;
pub mod surface;
pub mod survey;
pub mod text;
pub mod types;
pub mod wit;
