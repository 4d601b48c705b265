pub mod lexer;
pub mod scanner;

pub use scanner::{Lexer, Token, TokenKind};
