//! A small scripting language: a scanner that turns source text into tokens,
//! a recursive-descent parser that builds a syntax tree, and a tree-walking
//! evaluator with copy-on-entry scopes and a global function table.
//!
//! Runtime numbers are IEEE 754 double-precision values, carried everywhere
//! as their bit patterns (`u64`); the `num` module wraps the few primitive
//! floating-point operations and names their results, and everything built on
//! top of them is verified.

pub mod eval;
pub mod lexer;
pub mod num;
pub mod parser;
pub mod text;
