//! A lexical analyzer for ECMAScript-family source text.
//!
//! The scanner owns the source buffer and a cursor and exposes one
//! operation, [`lexer::Lexer::tokenize`], which classifies and consumes
//! exactly one token per call or signals end of input.  The behaviour of
//! every scan routine is pinned down by the specification functions in
//! [`model`], and the laws that hold of the scanner as a whole are proved
//! in [`laws`].

pub mod lexer;
pub mod laws;
pub mod model;
pub mod token;
