pub mod grammar;
pub mod node;
pub mod parser;

pub use crate::rtr::ast::lexer::tokenise;
pub use crate::rtr::ast::lexer::CommentType;
