//! The code generator: what it reads, what it generates code for, and what the
//! code is.

pub mod block_string;
pub mod case;
pub mod document;
pub mod generated_module;
pub mod operations;
pub mod type_qualifiers;
