//! A small expression-oriented scripting language: a lexical scanner, a
//! recursive-descent parser producing an abstract syntax tree, and a
//! tree-walking evaluator that executes statements against a single global
//! variable scope.
//!
//! Every component carries a full functional specification: the scanner is
//! proved against a character-level model of the lexical grammar, the parser
//! against a precedence-climbing model of the expression grammar, and the
//! interpreter against a recursive evaluation model over mathematical values.

pub mod numbers;
pub mod scanner;
pub mod ast;
pub mod parser;
pub mod environment;
pub mod interpreter;
