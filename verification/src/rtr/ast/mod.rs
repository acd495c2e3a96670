pub mod grammar;
pub mod lexer;
pub mod node;
pub mod parser;

pub use lexer::tokenise;
pub use lexer::CommentType;
