//! The token tree produced by parsing, and the error types of the engine.

use vstd::prelude::*;
use vstd::string::StringExecFns;

verus! {

/// The four unary math functions of the mini-language.
#[derive(Clone, Copy, Debug, PartialEq, Eq, Structural)]
pub enum FunctionType {
    Sin,
    Cos,
    Tan,
    Abs,
}

/// The five infix operators of the mini-language.
#[derive(Clone, Copy, Debug, PartialEq, Eq, Structural)]
pub enum Operator {
    Addition,
    Multiplication,
    Subtraction,
    Division,
    Exponentiation,
}

impl Operator {
    /// The fixed precedence of each operator: addition and subtraction bind
    /// weakest, multiplication and division stronger, exponentiation strongest.
    pub open spec fn precedence(self) -> u8 {
        match self {
            Operator::Addition => 5,
            Operator::Multiplication => 10,
            Operator::Subtraction => 5,
            Operator::Division => 10,
            Operator::Exponentiation => 15,
        }
    }

    pub fn get_precedence(&self) -> (p: u8)
        ensures
            p == self.precedence(),
    {
        match self {
            Operator::Addition => 5,
            Operator::Multiplication => 10,
            Operator::Subtraction => 5,
            Operator::Division => 10,
            Operator::Exponentiation => 15,
        }
    }
}

/// A node of the parse-time token tree.  A parsed formula is an ordered list
/// of these; the top level is an implicit group without delimiters.
#[derive(Debug)]
pub enum FuncNode {
    Time,
    PointX,
    PointY,
    PointZ,
    Int(i64),
    BuiltinFunction(FunctionType, Vec<FuncNode>),
    Parentheses(Vec<FuncNode>),
    BinaryOperationSymbol(Operator),
}

/// The mathematical model of a [`FuncNode`]: the same shape with `Seq` in
/// place of `Vec`, so that specification functions can build and take apart
/// token trees.
pub enum SpecNode {
    Time,
    PointX,
    PointY,
    PointZ,
    Int(i64),
    BuiltinFunction(FunctionType, Seq<SpecNode>),
    Parentheses(Seq<SpecNode>),
    BinaryOperationSymbol(Operator),
}

/// The model of one exec node.
pub open spec fn node_view(n: FuncNode) -> SpecNode
    decreases n,
{
    match n {
        FuncNode::Time => SpecNode::Time,
        FuncNode::PointX => SpecNode::PointX,
        FuncNode::PointY => SpecNode::PointY,
        FuncNode::PointZ => SpecNode::PointZ,
        FuncNode::Int(x) => SpecNode::Int(x),
        FuncNode::BuiltinFunction(ft, args) => SpecNode::BuiltinFunction(ft, nodes_view(args@)),
        FuncNode::Parentheses(inner) => SpecNode::Parentheses(nodes_view(inner@)),
        FuncNode::BinaryOperationSymbol(op) => SpecNode::BinaryOperationSymbol(op),
    }
}

/// The model of a sequence of exec nodes, element by element.
pub open spec fn nodes_view(s: Seq<FuncNode>) -> Seq<SpecNode>
    decreases s,
{
    if s.len() == 0 {
        Seq::empty()
    } else {
        seq![node_view(s[0])] + nodes_view(s.drop_first())
    }
}

/// [`nodes_view`] maps element by element.
pub proof fn lemma_nodes_view_index(s: Seq<FuncNode>)
    ensures
        nodes_view(s).len() == s.len(),
        forall|i: int| 0 <= i < s.len() ==> nodes_view(s)[i] == node_view(s[i]),
    decreases s.len(),
{
    if s.len() > 0 {
        lemma_nodes_view_index(s.drop_first());
        assert forall|i: int| 0 <= i < s.len() implies nodes_view(s)[i] == node_view(s[i]) by {
            if i > 0 {
                assert(nodes_view(s)[i] == nodes_view(s.drop_first())[i - 1]);
                assert(s.drop_first()[i - 1] == s[i]);
            }
        }
    }
}

/// What went wrong while parsing.  Each variant carries the character found
/// at the point of failure, `None` standing for end of input.
#[derive(Clone, Copy, Debug, PartialEq, Eq, Structural)]
pub enum ParseError {
    /// A specific character was required and something else was found.
    ExpectedChar(char, Option<char>),
    /// A literal keyword was required and something else was found.
    ExpectedWord(Option<char>),
    /// An ASCII digit was required and something else was found.
    ExpectedDigit(Option<char>),
    /// An operator symbol was required and something else was found.
    ExpectedOperator(Option<char>),
    /// A function name was required and something else was found.
    ExpectedFunctionName(Option<char>),
    /// An integer literal did not fit the literal type.
    IntegerOverflow,
}

/// The text that [`ParseError::message`] returns for each failure.
pub open spec fn parse_error_message(e: ParseError) -> Seq<char> {
    match e {
        ParseError::ExpectedChar(_, Some(_)) => "unexpected character while parsing"@,
        ParseError::ExpectedChar(_, None) => "unexpected end of input while parsing"@,
        ParseError::ExpectedWord(_) => "expected a keyword"@,
        ParseError::ExpectedDigit(_) => "expected a digit"@,
        ParseError::ExpectedOperator(_) => "expected +, -, *, /, or ^"@,
        ParseError::ExpectedFunctionName(_) => "expected sin, cos, tan, or abs"@,
        ParseError::IntegerOverflow => "integer literal is too large"@,
    }
}

impl ParseError {
    /// A short description of the failure, for the host to display.
    pub fn message(&self) -> (r: String)
        ensures
            r@ == parse_error_message(*self),
    {
        match self {
            ParseError::ExpectedChar(_, Some(_)) => String::from_str(
                "unexpected character while parsing",
            ),
            ParseError::ExpectedChar(_, None) => String::from_str(
                "unexpected end of input while parsing",
            ),
            ParseError::ExpectedWord(_) => String::from_str("expected a keyword"),
            ParseError::ExpectedDigit(_) => String::from_str("expected a digit"),
            ParseError::ExpectedOperator(_) => String::from_str(
                "expected +, -, *, /, or ^",
            ),
            ParseError::ExpectedFunctionName(_) => String::from_str(
                "expected sin, cos, tan, or abs",
            ),
            ParseError::IntegerOverflow => String::from_str(
                "integer literal is too large",
            ),
        }
    }
}

/// What went wrong while evaluating a compiled formula.
#[derive(Clone, Copy, Debug, PartialEq, Eq, Structural)]
pub enum EvalError {
    /// The formula never parsed; the parse failure is replayed on every
    /// evaluation.
    ParseFailed(ParseError),
    /// The token list reduced to no value at all.
    EmptyInput,
    /// An operator was missing one of its two operands.
    OperationMismatch,
}

/// The text that [`EvalError::message`] returns for each failure.
pub open spec fn eval_error_message(e: EvalError) -> Seq<char> {
    match e {
        EvalError::ParseFailed(p) => parse_error_message(p),
        EvalError::EmptyInput => "Input is empty."@,
        EvalError::OperationMismatch => "Erroneous binary operation attempted"@,
    }
}

impl EvalError {
    /// A short description of the failure, for the host to display.
    pub fn message(&self) -> (r: String)
        ensures
            r@ == eval_error_message(*self),
    {
        match self {
            EvalError::ParseFailed(e) => e.message(),
            EvalError::EmptyInput => String::from_str("Input is empty."),
            EvalError::OperationMismatch => String::from_str(
                "Erroneous binary operation attempted",
            ),
        }
    }
}

} // verus!
