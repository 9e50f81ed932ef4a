pub mod lemmas;
pub mod lexspec;
pub mod repl;
pub mod text;
pub mod token;
pub mod tokenizer;

pub use repl::Repl;
pub use token::{LexerError, Token};
pub use tokenizer::Tokenizer;
