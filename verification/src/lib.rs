//! A small expression language in three stages: a lexer that turns source
//! text into tokens, a recursive-descent parser that turns tokens into an
//! expression tree, and an evaluator that reduces a tree to a value.
//!
//! Numbers are IEEE-754 binary64 values, held by their bit patterns. The
//! library orders, compares and negates them itself; the rounding operations
//! (reading a numeral, the four arithmetic operations, decimal rendering) are
//! supplied by the caller as functions on bit patterns.

pub mod error;
pub mod executive;
pub mod grammar;
pub mod interpreter;
pub mod lexis;
pub mod number;
pub mod parser;
pub mod pipeline;
pub mod scanner;
pub mod semantics;
pub mod text;
pub mod token;
