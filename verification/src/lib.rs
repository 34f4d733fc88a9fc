//! A scanner for a small scripting language: it turns source text into a
//! sequence of tokens, one at a time, and tracks the line and column as it
//! goes.

pub mod class;
pub mod cursor;
pub mod laws;
pub mod model;
pub mod predicate;
pub mod prompt;
pub mod std_specs;
pub mod stream;
pub mod token;

pub use cursor::Cursor;
pub use predicate::Predicate;
pub use stream::{tokenize, try_tokenize, Tokens};
pub use token::Token;
