//! A verified lexer for arithmetic and boolean expressions: text in, classified
//! tokens out, or the first failure with where it occurred.

pub mod error;
pub mod lexer;
pub mod number;
pub mod stream;
pub mod token;
