//! A small textual-formula engine.
//!
//! A user-typed string such as `sin(x - time) * 10` is parsed, by a
//! backtracking recursive-descent parser, into a flat token list, and then
//! evaluated in two phases: environment substitution followed by a
//! precedence-aware left-to-right reduction.  The reduction deliberately
//! performs only a single look-back per incoming operator, so formulas with
//! three or more operators of mixed precedence fold in a specific
//! left-to-right order that this crate states and proves exactly.
//!
//! The engine itself never touches machine numbers: the evaluator is generic
//! over the scalar type and returns the fully reduced arithmetic term, which
//! the host folds into a number.

pub mod ast;
pub mod cursor;
pub mod parser;
pub mod eval;
pub mod formula;
pub mod laws;
