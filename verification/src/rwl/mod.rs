//! The reader of markup documents, and what the layout of a document
//! reads from the headers of its nodes.

pub mod ast;
pub mod element;
pub mod error;
pub mod layout;
pub mod value;
