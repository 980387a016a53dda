//! A verified lexical analyzer for a small C-like scripting language.
//!
//! The scanner turns source text into a stream of tokens, one per call to
//! `Lexer::next_token`, following the maximal-munch rule. Its behaviour is
//! pinned to a mathematical scanner over `Seq<char>`, and the laws module
//! proves the stream-level properties of that scanner.

pub mod laws;
pub mod lexer;
pub mod token;
