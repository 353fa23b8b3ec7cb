//! The formula facade: compiling source text and evaluating the result.
//!
//! Compiling never fails: a parse failure is captured in the returned
//! [`CompiledFormula`] as a permanently failing evaluator.  A compiled
//! formula is immutable; evaluation is a pure function of the formula and
//! the environment, so it may be shared freely between an editing surface
//! and a per-tick evaluation surface.

use vstd::prelude::*;
use crate::ast::{EvalError, FuncNode, ParseError, SpecNode, nodes_view};
use crate::cursor::Cursor;
use crate::eval::{Calc, reduce_nodes, sp_reduce, sp_substitute_nodes, substitute_nodes};
use crate::parser::{compile_tokens, sp_compile};

verus! {

/// The immutable result of a parse: either the parsed token list or the
/// captured parse error, replayed on every evaluation.
#[derive(Debug)]
pub enum CompiledFormula {
    Parsed(Vec<FuncNode>),
    Failed(ParseError),
}

/// The model of a compiled formula: the token list it carries, or its error.
pub open spec fn formula_view(f: CompiledFormula) -> Result<Seq<SpecNode>, ParseError> {
    match f {
        CompiledFormula::Parsed(nodes) => Ok(nodes_view(nodes@)),
        CompiledFormula::Failed(e) => Err(e),
    }
}

/// What evaluating a formula on an environment yields: the parse error for a
/// failed formula, and otherwise the substituted token list reduced to its
/// arithmetic term.
pub open spec fn sp_evaluate<V>(f: CompiledFormula, time_elapsed: V, point_x: V, point_y: V,
    point_z: V) -> Result<Calc<V>, EvalError> {
    match formula_view(f) {
        Err(e) => Err(EvalError::ParseFailed(e)),
        Ok(tokens) => sp_reduce(
            sp_substitute_nodes(tokens, time_elapsed, point_x, point_y, point_z),
        ),
    }
}

impl CompiledFormula {
    /// True exactly when the parse failed and every evaluation will return
    /// the captured error.
    pub fn is_failed(&self) -> (r: bool)
        ensures
            r == (formula_view(*self) is Err),
    {
        match self {
            CompiledFormula::Parsed(_) => false,
            CompiledFormula::Failed(_) => true,
        }
    }

    /// Evaluates the formula on an environment: the elapsed time and the
    /// three coordinates of the point, all of the same scalar type.  Returns
    /// the reduced arithmetic term, or the error the evaluation ran into;
    /// two evaluations on equal inputs return the same thing.
    pub fn evaluate<V: Copy>(&self, time_elapsed: V, point_x: V, point_y: V, point_z: V) -> (r:
        Result<Calc<V>, EvalError>)
        ensures
            r == sp_evaluate(*self, time_elapsed, point_x, point_y, point_z),
    {
        match self {
            CompiledFormula::Failed(e) => Err(EvalError::ParseFailed(*e)),
            CompiledFormula::Parsed(nodes) => {
                let cleaned = substitute_nodes(nodes, time_elapsed, point_x, point_y, point_z);
                reduce_nodes(&cleaned)
            },
        }
    }
}

/// Compiles a source text.  Never fails: a parse failure is embedded in the
/// result as a permanently failing formula.
pub fn compile(input: &str) -> (f: CompiledFormula)
    ensures
        formula_view(f) == sp_compile(input@),
{
    let mut cursor = Cursor::new(input);
    match compile_tokens(&mut cursor) {
        Ok(nodes) => CompiledFormula::Parsed(nodes),
        Err(e) => CompiledFormula::Failed(e),
    }
}

/// One axis of a simulation tick: a successful evaluation replaces the
/// coordinate and leaves the error slot alone; a failed one keeps the
/// coordinate and overwrites the error slot with its own error.  The last
/// error wins; errors are never accumulated across axes.
pub fn apply_axis_result<V: Copy>(
    coordinate: V,
    outcome: Result<V, EvalError>,
    last_error: Option<EvalError>,
) -> (r: (V, Option<EvalError>))
    ensures
        match outcome {
            Ok(v) => r == (v, last_error),
            Err(e) => r == (coordinate, Some(e)),
        },
{
    match outcome {
        Ok(v) => (v, last_error),
        Err(e) => (coordinate, Some(e)),
    }
}

/// The formula parser.  The rule registry is fixed at compile time: the
/// dispatch function tries the rules in registration order and the
/// function-call and group rules recurse into it by ordinary named-function
/// mutual recursion, so the parser itself carries no state.
#[derive(Debug)]
pub struct FormulaParser {
}

impl FormulaParser {
    /// Builds the parser.  The full rule set, including the two rules that
    /// recurse into it, exists before any parse call is issued.
    pub fn new() -> (p: FormulaParser) {
        FormulaParser {  }
    }

    /// Parses a source text into a compiled formula; parse errors are
    /// captured, permanently, in the result.
    pub fn parse(&self, input: &str) -> (f: CompiledFormula)
        ensures
            formula_view(f) == sp_compile(input@),
    {
        compile(input)
    }
}

} // verus!
