pub mod ast;
pub mod lexer;
pub mod syntax;
pub mod token;

pub use token::Tok;
