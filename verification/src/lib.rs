//! A lexical scanner for a small arithmetic language with a `print` keyword.
//!
//! The scanner turns an in-memory source buffer into a stream of typed
//! tokens, each carrying the line/column position of its first character.
//! The scanning behaviour is specified by the pure model in [`scan`], and
//! the executable [`lexer::Lexer`] is verified against that model.

pub mod decimal;
pub mod error;
pub mod lexer;
pub mod location;
pub mod scan;
pub mod token;
