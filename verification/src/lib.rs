//! An error-tolerant, lossless recursive-descent parser for the CSS
//! container-query grammar, with two verified analyzer rules that consume
//! syntax shaped like its output.
//!
//! The parser turns a token stream into a concrete syntax tree that keeps
//! every input token: concatenating the tree's leaf texts reproduces the
//! source byte for byte, for well-formed and malformed input alike. Local
//! failures degrade to recovered (`BogusAtRule`) nodes and recorded
//! diagnostics instead of aborting the parse.

pub mod container;
pub mod parser;
pub mod radix;
pub mod roles;
pub mod stylesheet;
pub mod subgrammar;
pub mod syntax;
pub mod tree;
