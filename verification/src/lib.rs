//! An event-script engine: tokenizer, parser, bytecode compiler and a
//! stack machine over a reference-counted value arena; and the reader of
//! the markup documents that the scripts are attached to.

pub mod rtr;
pub mod rwl;
pub mod shared;
