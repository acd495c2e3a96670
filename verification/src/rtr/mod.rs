//! The script engine.
//!
//! A script is a list of event declarations, each a target with a block of
//! statements. [`ast`] turns the text of a script into tokens and the
//! tokens into a tree; [`runtime`] turns the statements of a handler into
//! instructions and holds the state that they run on: a stack of places,
//! layers of names, and an arena of reference-counted cells. The engine
//! itself, [`RTRInstance`], finds the handlers of a target and runs them.
//!
//! Every function comes with a mathematical description of what it
//! computes, in the `spec` functions of the same module; [`laws`] holds
//! what follows from those descriptions for every input.

pub mod ast;
pub mod error;
pub mod laws;
pub mod number;
pub mod runtime;
pub mod vm;

pub use vm::RTRInstance;
