//! The rule registry and the parsing rules.
//!
//! Each rule recognizes one construct of the mini-language.  The dispatch
//! function [`parse_one`] records a checkpoint and tries the rules in a fixed
//! order, restoring the checkpoint after each failure; if every rule fails it
//! reports the error of the last rule tried, the earlier errors being
//! deliberately discarded.  The function-call and group rules recurse into
//! the full rule set for their interior tokens, giving ordinary
//! named-function mutual recursion; the rule set is fixed at compile time.
//!
//! Every rule is specified exactly: the specification functions below form a
//! mathematical mirror of the parser, and each executable function proves
//! that it returns what its mirror says, leaving the cursor where its mirror
//! says.

use vstd::prelude::*;
use crate::ast::{FuncNode, FunctionType, Operator, ParseError, SpecNode, node_view, nodes_view};
use crate::cursor::{
    Cursor, digit_value, digit_value_exec, is_digit_char, lemma_skip_ws_bounds, peek_at,
    skip_ws_from, word_at, word_at_ci,
};

verus! {

/// The keyword of the time variable.
pub open spec fn kw_time() -> Seq<char> {
    seq!['t', 'i', 'm', 'e']
}

/// The keyword of the sine function.
pub open spec fn kw_sin() -> Seq<char> {
    seq!['s', 'i', 'n']
}

/// The keyword of the cosine function.
pub open spec fn kw_cos() -> Seq<char> {
    seq!['c', 'o', 's']
}

/// The keyword of the tangent function.
pub open spec fn kw_tan() -> Seq<char> {
    seq!['t', 'a', 'n']
}

/// The keyword of the absolute-value function.
pub open spec fn kw_abs() -> Seq<char> {
    seq!['a', 'b', 's']
}

/// What the operator-symbol rule returns at `pos`: one of `+ * - / ^`, or
/// the error of the rule, consuming nothing.
pub open spec fn sp_rule_operator(text: Seq<char>, pos: int) -> (Result<SpecNode, ParseError>, int) {
    if peek_at(text, pos) == Some('+') {
        (Ok(SpecNode::BinaryOperationSymbol(Operator::Addition)), pos + 1)
    } else if peek_at(text, pos) == Some('*') {
        (Ok(SpecNode::BinaryOperationSymbol(Operator::Multiplication)), pos + 1)
    } else if peek_at(text, pos) == Some('-') {
        (Ok(SpecNode::BinaryOperationSymbol(Operator::Subtraction)), pos + 1)
    } else if peek_at(text, pos) == Some('/') {
        (Ok(SpecNode::BinaryOperationSymbol(Operator::Division)), pos + 1)
    } else if peek_at(text, pos) == Some('^') {
        (Ok(SpecNode::BinaryOperationSymbol(Operator::Exponentiation)), pos + 1)
    } else {
        (Err(ParseError::ExpectedOperator(peek_at(text, pos))), pos)
    }
}

/// What the time-keyword rule returns at `pos`: the literal word `time`,
/// case-sensitively, or the error of the rule.
pub open spec fn sp_rule_time(text: Seq<char>, pos: int) -> (Result<SpecNode, ParseError>, int) {
    if word_at(text, pos, kw_time()) {
        (Ok(SpecNode::Time), pos + 4)
    } else {
        (Err(ParseError::ExpectedWord(peek_at(text, pos))), pos)
    }
}

/// What an axis-reference rule returns at `pos`: its single lowercase
/// letter, or the error of the rule.
pub open spec fn sp_rule_axis(text: Seq<char>, pos: int, letter: char, node: SpecNode) -> (
    Result<SpecNode, ParseError>,
    int,
) {
    if peek_at(text, pos) == Some(letter) {
        (Ok(node), pos + 1)
    } else {
        (Err(ParseError::ExpectedChar(letter, peek_at(text, pos))), pos)
    }
}

/// The number of consecutive ASCII digits standing at `pos`.
pub open spec fn digit_run(text: Seq<char>, pos: int) -> int
    decreases text.len() - pos,
    when 0 <= pos <= text.len()
{
    if pos < text.len() && is_digit_char(text[pos]) {
        1 + digit_run(text, pos + 1)
    } else {
        0
    }
}

/// The base-10 value of the `k` digits standing at `pos`.
pub open spec fn digits_value(text: Seq<char>, pos: int, k: int) -> int
    decreases k,
{
    if k <= 0 {
        0
    } else {
        digits_value(text, pos, k - 1) * 10 + digit_value(text[pos + k - 1])
    }
}

/// The run of digits at `pos` is exactly as long as [`digit_run`] says:
/// everything before its end is a digit and its end is not.
pub proof fn lemma_digit_run_spec(text: Seq<char>, pos: int)
    requires
        0 <= pos <= text.len(),
    ensures
        0 <= digit_run(text, pos),
        pos + digit_run(text, pos) <= text.len(),
        forall|i: int| pos <= i < pos + digit_run(text, pos) ==> is_digit_char(text[i]),
        pos + digit_run(text, pos) == text.len() || !is_digit_char(
            text[pos + digit_run(text, pos)],
        ),
    decreases text.len() - pos,
{
    if pos < text.len() && is_digit_char(text[pos]) {
        lemma_digit_run_spec(text, pos + 1);
    }
}

/// A digit string never has a negative value.
pub proof fn lemma_digits_value_nonneg(text: Seq<char>, pos: int, k: int)
    ensures
        0 <= digits_value(text, pos, k),
    decreases k,
{
    if k > 0 {
        lemma_digits_value_nonneg(text, pos, k - 1);
    }
}

/// What the integer-literal rule returns at `pos`: the base-10 value of the
/// maximal digit run, the overflow error when that value does not fit the
/// literal type, or the error of the rule when no digit stands at `pos`.
pub open spec fn sp_rule_integer(text: Seq<char>, pos: int) -> (Result<SpecNode, ParseError>, int)
{
    let n = digit_run(text, pos);
    if n == 0 {
        (Err(ParseError::ExpectedDigit(peek_at(text, pos))), pos)
    } else if digits_value(text, pos, n) <= i64::MAX {
        (Ok(SpecNode::Int(digits_value(text, pos, n) as i64)), pos + n)
    } else {
        (Err(ParseError::IntegerOverflow), pos + n)
    }
}

/// What the function-call rule returns at `pos`: a case-insensitive
/// three-letter keyword naming the function, an opening parenthesis, then
/// interior tokens up to the closing parenthesis.
pub open spec fn sp_rule_builtin(text: Seq<char>, pos: int) -> (Result<SpecNode, ParseError>, int)
    decreases text.len() - pos, 0int,
    when 0 <= pos <= text.len()
{
    let kind = if word_at_ci(text, pos, kw_sin()) {
        Some(FunctionType::Sin)
    } else if word_at_ci(text, pos, kw_cos()) {
        Some(FunctionType::Cos)
    } else if word_at_ci(text, pos, kw_tan()) {
        Some(FunctionType::Tan)
    } else if word_at_ci(text, pos, kw_abs()) {
        Some(FunctionType::Abs)
    } else {
        None
    };
    match kind {
        None => (Err(ParseError::ExpectedFunctionName(peek_at(text, pos))), pos),
        Some(ft) => {
            if peek_at(text, pos + 3) == Some('(') {
                let (ir, ip) = sp_parse_interior(text, pos + 4);
                match ir {
                    Ok(args) => (Ok(SpecNode::BuiltinFunction(ft, args)), ip),
                    Err(e) => (Err(e), ip),
                }
            } else {
                (Err(ParseError::ExpectedChar('(', peek_at(text, pos + 3))), pos + 3)
            }
        },
    }
}

/// What the parenthesized-group rule returns at `pos`: an opening
/// parenthesis, then interior tokens up to the closing parenthesis.
pub open spec fn sp_rule_group(text: Seq<char>, pos: int) -> (Result<SpecNode, ParseError>, int)
    decreases text.len() - pos, 0int,
    when 0 <= pos <= text.len()
{
    if peek_at(text, pos) == Some('(') {
        let (ir, ip) = sp_parse_interior(text, pos + 1);
        match ir {
            Ok(inner) => (Ok(SpecNode::Parentheses(inner)), ip),
            Err(e) => (Err(e), ip),
        }
    } else {
        (Err(ParseError::ExpectedChar('(', peek_at(text, pos))), pos)
    }
}

/// The interior loop shared by the function-call and group rules: skip
/// whitespace, parse one token and continue; when no token parses, accept a
/// closing parenthesis or propagate the inner error.
pub open spec fn sp_parse_interior(text: Seq<char>, pos: int) -> (
    Result<Seq<SpecNode>, ParseError>,
    int,
)
    decreases text.len() - pos, 2int,
    when 0 <= pos <= text.len()
{
    let p1 = ({
        proof {
            lemma_skip_ws_bounds(text, pos);
        }
        skip_ws_from(text, pos)
    });
    let (r, p2) = sp_parse_one(text, p1);
    match r {
        Ok(tok) => {
            if p1 < p2 <= text.len() {
                let (rr, p3) = sp_parse_interior(text, p2);
                match rr {
                    Ok(rest) => (Ok(seq![tok] + rest), p3),
                    Err(e) => (Err(e), p3),
                }
            } else {
                // dead branch: a successful rule always consumes at least one
                // character
                arbitrary()
            }
        },
        Err(e) => {
            if peek_at(text, p1) == Some(')') {
                (Ok(Seq::empty()), p1 + 1)
            } else {
                (Err(e), p1)
            }
        },
    }
}

/// What the rule registry returns at `pos`: a checkpoint is recorded, then
/// each rule is tried in registration order, whitespace skipped first; the
/// first success wins, and when every rule fails the checkpoint is restored
/// and the error of the last rule tried is reported.
pub open spec fn sp_parse_one(text: Seq<char>, pos: int) -> (Result<SpecNode, ParseError>, int)
    decreases text.len() - pos, 1int,
    when 0 <= pos <= text.len()
{
    let p1 = ({
        proof {
            lemma_skip_ws_bounds(text, pos);
        }
        skip_ws_from(text, pos)
    });
    let (r1, q1) = sp_rule_builtin(text, p1);
    if r1 is Ok {
        (r1, q1)
    } else {
        let (r2, q2) = sp_rule_group(text, p1);
        if r2 is Ok {
            (r2, q2)
        } else {
            let (r3, q3) = sp_rule_operator(text, p1);
            if r3 is Ok {
                (r3, q3)
            } else {
                let (r4, q4) = sp_rule_time(text, p1);
                if r4 is Ok {
                    (r4, q4)
                } else {
                    let (r5, q5) = sp_rule_axis(text, p1, 'x', SpecNode::PointX);
                    if r5 is Ok {
                        (r5, q5)
                    } else {
                        let (r6, q6) = sp_rule_axis(text, p1, 'y', SpecNode::PointY);
                        if r6 is Ok {
                            (r6, q6)
                        } else {
                            let (r7, q7) = sp_rule_axis(text, p1, 'z', SpecNode::PointZ);
                            if r7 is Ok {
                                (r7, q7)
                            } else {
                                let (r8, q8) = sp_rule_integer(text, p1);
                                if r8 is Ok {
                                    (r8, q8)
                                } else {
                                    (r8, pos)
                                }
                            }
                        }
                    }
                }
            }
        }
    }
}

/// What parsing a whole source text from `pos` returns: tokens collected
/// until the end of the text, or the first dispatch failure.
pub open spec fn sp_compile_tokens(text: Seq<char>, pos: int) -> Result<Seq<SpecNode>, ParseError>
    decreases text.len() - pos, 3int,
    when 0 <= pos <= text.len()
{
    if pos == text.len() {
        Ok(Seq::empty())
    } else {
        let (r, p2) = sp_parse_one(text, pos);
        match r {
            Ok(tok) => {
                if pos < p2 <= text.len() {
                    match sp_compile_tokens(text, p2) {
                        Ok(rest) => Ok(seq![tok] + rest),
                        Err(e) => Err(e),
                    }
                } else {
                    // dead branch: a successful rule always consumes at least
                    // one character
                    arbitrary()
                }
            },
            Err(e) => Err(e),
        }
    }
}

/// What compiling a whole source text returns.
pub open spec fn sp_compile(text: Seq<char>) -> Result<Seq<SpecNode>, ParseError> {
    sp_compile_tokens(text, 0)
}

/// The model of an exec rule result.
pub open spec fn res_node_view(r: Result<FuncNode, ParseError>) -> Result<SpecNode, ParseError> {
    match r {
        Ok(n) => Ok(node_view(n)),
        Err(e) => Err(e),
    }
}

/// The model of an exec token-list result.
pub open spec fn res_nodes_view(r: Result<Vec<FuncNode>, ParseError>) -> Result<
    Seq<SpecNode>,
    ParseError,
> {
    match r {
        Ok(v) => Ok(nodes_view(v@)),
        Err(e) => Err(e),
    }
}

/// Consing one node onto a list models as consing its view.
pub proof fn lemma_nodes_view_cons(x: FuncNode, s: Seq<FuncNode>)
    ensures
        nodes_view(seq![x] + s) == seq![node_view(x)] + nodes_view(s),
{
    let t = seq![x] + s;
    assert(t.len() == 1 + s.len());
    assert(t[0] == x);
    assert(t.drop_first() =~= s);
}

/// Recognizes the literal word `time`.
pub fn parse_time(input: &mut Cursor) -> (r: Result<FuncNode, ParseError>)
    requires
        old(input).wf(),
    ensures
        final(input).wf(),
        final(input).text() == old(input).text(),
        ({
            let (sr, sp) = sp_rule_time(old(input).text(), old(input).pos());
            res_node_view(r) == sr && final(input).pos() == sp
        }),
        r is Ok ==> old(input).pos() < final(input).pos(),
        r is Err ==> old(input).pos() == final(input).pos(),
{
    let w = vec!['t', 'i', 'm', 'e'];
    proof {
        assert(w@ =~= kw_time());
    }
    match input.skip_word(&w) {
        Ok(_) => Ok(FuncNode::Time),
        Err(e) => Err(e),
    }
}

/// Recognizes the axis reference `x`.
pub fn parse_point_x(input: &mut Cursor) -> (r: Result<FuncNode, ParseError>)
    requires
        old(input).wf(),
    ensures
        final(input).wf(),
        final(input).text() == old(input).text(),
        ({
            let (sr, sp) = sp_rule_axis(old(input).text(), old(input).pos(), 'x', SpecNode::PointX);
            res_node_view(r) == sr && final(input).pos() == sp
        }),
        r is Ok ==> old(input).pos() < final(input).pos(),
        r is Err ==> old(input).pos() == final(input).pos(),
{
    match input.skip_char('x') {
        Ok(_) => Ok(FuncNode::PointX),
        Err(e) => Err(e),
    }
}

/// Recognizes the axis reference `y`.
pub fn parse_point_y(input: &mut Cursor) -> (r: Result<FuncNode, ParseError>)
    requires
        old(input).wf(),
    ensures
        final(input).wf(),
        final(input).text() == old(input).text(),
        ({
            let (sr, sp) = sp_rule_axis(old(input).text(), old(input).pos(), 'y', SpecNode::PointY);
            res_node_view(r) == sr && final(input).pos() == sp
        }),
        r is Ok ==> old(input).pos() < final(input).pos(),
        r is Err ==> old(input).pos() == final(input).pos(),
{
    match input.skip_char('y') {
        Ok(_) => Ok(FuncNode::PointY),
        Err(e) => Err(e),
    }
}

/// Recognizes the axis reference `z`.
pub fn parse_point_z(input: &mut Cursor) -> (r: Result<FuncNode, ParseError>)
    requires
        old(input).wf(),
    ensures
        final(input).wf(),
        final(input).text() == old(input).text(),
        ({
            let (sr, sp) = sp_rule_axis(old(input).text(), old(input).pos(), 'z', SpecNode::PointZ);
            res_node_view(r) == sr && final(input).pos() == sp
        }),
        r is Ok ==> old(input).pos() < final(input).pos(),
        r is Err ==> old(input).pos() == final(input).pos(),
{
    match input.skip_char('z') {
        Ok(_) => Ok(FuncNode::PointZ),
        Err(e) => Err(e),
    }
}

/// Recognizes one of the five operator symbols.
pub fn parse_binary_operation_symbol(input: &mut Cursor) -> (r: Result<FuncNode, ParseError>)
    requires
        old(input).wf(),
    ensures
        final(input).wf(),
        final(input).text() == old(input).text(),
        ({
            let (sr, sp) = sp_rule_operator(old(input).text(), old(input).pos());
            res_node_view(r) == sr && final(input).pos() == sp
        }),
        r is Ok ==> old(input).pos() < final(input).pos(),
        r is Err ==> old(input).pos() == final(input).pos(),
{
    if input.skip_char('+').is_ok() {
        Ok(FuncNode::BinaryOperationSymbol(Operator::Addition))
    } else if input.skip_char('*').is_ok() {
        Ok(FuncNode::BinaryOperationSymbol(Operator::Multiplication))
    } else if input.skip_char('-').is_ok() {
        Ok(FuncNode::BinaryOperationSymbol(Operator::Subtraction))
    } else if input.skip_char('/').is_ok() {
        Ok(FuncNode::BinaryOperationSymbol(Operator::Division))
    } else if input.skip_char('^').is_ok() {
        Ok(FuncNode::BinaryOperationSymbol(Operator::Exponentiation))
    } else {
        Err(ParseError::ExpectedOperator(input.get_next_char()))
    }
}

/// An ASCII digit stands at `pos`.
pub open spec fn digit_ahead_spec(text: Seq<char>, pos: int) -> bool {
    peek_at(text, pos) is Some && is_digit_char(peek_at(text, pos)->0)
}

/// Exec counterpart of [`digit_ahead_spec`], peeking without consuming.
fn digit_ahead(c: &Cursor) -> (r: bool)
    requires
        c.wf(),
    ensures
        r == digit_ahead_spec(c.text(), c.pos()),
{
    match c.get_next_char() {
        Some(d) => d >= '0' && d <= '9',
        None => false,
    }
}

/// Recognizes an integer literal: one or more consecutive ASCII digits
/// parsed as a base-10 value; a run whose value does not fit the literal
/// type fails with the overflow error, after consuming the whole run.
pub fn parse_integer(input: &mut Cursor) -> (r: Result<FuncNode, ParseError>)
    requires
        old(input).wf(),
    ensures
        final(input).wf(),
        final(input).text() == old(input).text(),
        ({
            let (sr, sp) = sp_rule_integer(old(input).text(), old(input).pos());
            res_node_view(r) == sr && final(input).pos() == sp
        }),
        r is Ok ==> old(input).pos() < final(input).pos(),
        r is Err ==> old(input).pos() <= final(input).pos(),
{
    let ghost text = old(input).text();
    let ghost p0 = old(input).pos();
    proof {
        lemma_digit_run_spec(text, p0);
    }
    let ghost n = digit_run(text, p0);

    let first = match input.pop_next_char_numerical() {
        Ok(c) => c,
        Err(e) => {
            return Err(e);
        },
    };
    let mut acc: i64 = digit_value_exec(first);
    let mut overflow: bool = false;
    let ghost mut k: int = 1;
    proof {
        assert(digits_value(text, p0, 0) == 0);
        assert(digits_value(text, p0, 1) == digit_value(text[p0]));
        assert(1 <= n);
    }

    while digit_ahead(input)
        invariant
            input.wf(),
            input.text() == text,
            n == digit_run(text, p0),
            0 <= p0,
            p0 + n <= text.len(),
            forall|i: int| p0 <= i < p0 + n ==> is_digit_char(text[i]),
            p0 + n == text.len() || !is_digit_char(text[p0 + n]),
            1 <= k <= n,
            input.pos() == p0 + k,
            !overflow ==> acc == digits_value(text, p0, k) && 0 <= acc,
            overflow ==> digits_value(text, p0, k) > i64::MAX,
        decreases text.len() - input.pos(),
    {
        let c = match input.pop_next_char_numerical() {
            Ok(c) => c,
            Err(_) => {
                proof {
                    assert(false);
                }
                '0'
            },
        };
        let d = digit_value_exec(c);
        proof {
            // the digit just consumed stands inside the run
            assert(k < n) by {
                if k == n {
                    assert(is_digit_char(text[p0 + n]));
                }
            }
            lemma_digits_value_nonneg(text, p0, k);
            assert(digits_value(text, p0, k + 1) == digits_value(text, p0, k) * 10 + digit_value(
                text[p0 + k],
            ));
        }
        if !overflow {
            match acc.checked_mul(10) {
                Some(m) => {
                    match m.checked_add(d) {
                        Some(s) => {
                            acc = s;
                        },
                        None => {
                            overflow = true;
                        },
                    }
                },
                None => {
                    overflow = true;
                },
            }
        } else {
            proof {
                // once past the limit, further digits keep it past the limit
                assert(digits_value(text, p0, k + 1) > i64::MAX);
            }
        }
        proof {
            k = k + 1;
        }
    }

    proof {
        // the loop stopped exactly at the end of the digit run
        assert(k == n) by {
            if k < n {
                assert(is_digit_char(text[p0 + k]));
            }
        }
    }
    if overflow {
        Err(ParseError::IntegerOverflow)
    } else {
        Ok(FuncNode::Int(acc))
    }
}

/// Recognizes a built-in function call: a case-insensitive three-letter
/// keyword, an opening parenthesis, zero or more interior tokens with no
/// separators, and a closing parenthesis.
pub fn parse_builtin_func(input: &mut Cursor) -> (r: Result<FuncNode, ParseError>)
    requires
        old(input).wf(),
    ensures
        final(input).wf(),
        final(input).text() == old(input).text(),
        ({
            let (sr, sp) = sp_rule_builtin(old(input).text(), old(input).pos());
            res_node_view(r) == sr && final(input).pos() == sp
        }),
        r is Ok ==> old(input).pos() < final(input).pos(),
    decreases input.text().len() - input.pos(), 0int,
{
    let kw1 = vec!['s', 'i', 'n'];
    let kw2 = vec!['c', 'o', 's'];
    let kw3 = vec!['t', 'a', 'n'];
    let kw4 = vec!['a', 'b', 's'];
    proof {
        assert(kw1@ =~= kw_sin());
        assert(kw2@ =~= kw_cos());
        assert(kw3@ =~= kw_tan());
        assert(kw4@ =~= kw_abs());
    }
    let func_type = if input.match_word_ci(&kw1) {
        FunctionType::Sin
    } else if input.match_word_ci(&kw2) {
        FunctionType::Cos
    } else if input.match_word_ci(&kw3) {
        FunctionType::Tan
    } else if input.match_word_ci(&kw4) {
        FunctionType::Abs
    } else {
        return Err(ParseError::ExpectedFunctionName(input.get_next_char()));
    };
    input.skip_x_chars(3);
    match input.skip_char('(') {
        Ok(_) => {},
        Err(e) => {
            return Err(e);
        },
    }
    let args = match parse_interior(input) {
        Ok(v) => v,
        Err(e) => {
            return Err(e);
        },
    };
    Ok(FuncNode::BuiltinFunction(func_type, args))
}

/// Recognizes a parenthesized group: an opening parenthesis, zero or more
/// interior tokens with no separators, and a closing parenthesis.
pub fn parse_parentheses(input: &mut Cursor) -> (r: Result<FuncNode, ParseError>)
    requires
        old(input).wf(),
    ensures
        final(input).wf(),
        final(input).text() == old(input).text(),
        ({
            let (sr, sp) = sp_rule_group(old(input).text(), old(input).pos());
            res_node_view(r) == sr && final(input).pos() == sp
        }),
        r is Ok ==> old(input).pos() < final(input).pos(),
    decreases input.text().len() - input.pos(), 0int,
{
    match input.skip_char('(') {
        Ok(_) => {},
        Err(e) => {
            return Err(e);
        },
    }
    let inner = match parse_interior(input) {
        Ok(v) => v,
        Err(e) => {
            return Err(e);
        },
    };
    Ok(FuncNode::Parentheses(inner))
}

/// The interior loop shared by the function-call and group rules: skip
/// whitespace, parse one token and continue; when no token parses, accept a
/// closing parenthesis or propagate the inner error.
pub fn parse_interior(input: &mut Cursor) -> (r: Result<Vec<FuncNode>, ParseError>)
    requires
        old(input).wf(),
    ensures
        final(input).wf(),
        final(input).text() == old(input).text(),
        ({
            let (sr, sp) = sp_parse_interior(old(input).text(), old(input).pos());
            res_nodes_view(r) == sr && final(input).pos() == sp
        }),
        r is Ok ==> old(input).pos() < final(input).pos(),
    decreases input.text().len() - input.pos(), 2int,
{
    input.skip_spaces_and_newlines();
    match parse_one(input) {
        Ok(tok) => {
            let ghost tok_g = tok;
            let mut rest = match parse_interior(input) {
                Ok(v) => v,
                Err(e) => {
                    return Err(e);
                },
            };
            let ghost rest_g = rest@;
            rest.insert(0, tok);
            proof {
                assert(rest@ =~= seq![tok_g] + rest_g);
                lemma_nodes_view_cons(tok_g, rest_g);
            }
            Ok(rest)
        },
        Err(e) => {
            if input.skip_char(')').is_ok() {
                Ok(Vec::new())
            } else {
                Err(e)
            }
        },
    }
}

/// The rule-registry dispatch: records a checkpoint, then tries each rule in
/// registration order, skipping leading whitespace before each attempt and
/// restoring the checkpoint after each failure.  The first success wins;
/// when every rule fails, the error of the last rule tried is returned and
/// the earlier errors are discarded.  The function-call and group rules come
/// first: a function name and a bare letter are not prefix-disjoint only
/// incidentally, so the order is load-bearing.
pub fn parse_one(input: &mut Cursor) -> (r: Result<FuncNode, ParseError>)
    requires
        old(input).wf(),
    ensures
        final(input).wf(),
        final(input).text() == old(input).text(),
        ({
            let (sr, sp) = sp_parse_one(old(input).text(), old(input).pos());
            res_node_view(r) == sr && final(input).pos() == sp
        }),
        r is Ok ==> old(input).pos() < final(input).pos(),
        r is Err ==> old(input).pos() == final(input).pos(),
    decreases input.text().len() - input.pos(), 1int,
{
    let save_point = input.create_save_point();

    input.skip_spaces_and_newlines();
    match parse_builtin_func(input) {
        Ok(t) => {
            return Ok(t);
        },
        Err(_) => {
            input.load_save_point(save_point);
        },
    }
    input.skip_spaces_and_newlines();
    match parse_parentheses(input) {
        Ok(t) => {
            return Ok(t);
        },
        Err(_) => {
            input.load_save_point(save_point);
        },
    }
    input.skip_spaces_and_newlines();
    match parse_binary_operation_symbol(input) {
        Ok(t) => {
            return Ok(t);
        },
        Err(_) => {
            input.load_save_point(save_point);
        },
    }
    input.skip_spaces_and_newlines();
    match parse_time(input) {
        Ok(t) => {
            return Ok(t);
        },
        Err(_) => {
            input.load_save_point(save_point);
        },
    }
    input.skip_spaces_and_newlines();
    match parse_point_x(input) {
        Ok(t) => {
            return Ok(t);
        },
        Err(_) => {
            input.load_save_point(save_point);
        },
    }
    input.skip_spaces_and_newlines();
    match parse_point_y(input) {
        Ok(t) => {
            return Ok(t);
        },
        Err(_) => {
            input.load_save_point(save_point);
        },
    }
    input.skip_spaces_and_newlines();
    match parse_point_z(input) {
        Ok(t) => {
            return Ok(t);
        },
        Err(_) => {
            input.load_save_point(save_point);
        },
    }
    input.skip_spaces_and_newlines();
    match parse_integer(input) {
        Ok(t) => {
            return Ok(t);
        },
        Err(e) => {
            input.load_save_point(save_point);
            return Err(e);
        },
    }
}

/// Parses a whole source text from the current offset: tokens are collected
/// until the end of the text, and the first dispatch failure fails the whole
/// parse.
pub fn compile_tokens(input: &mut Cursor) -> (r: Result<Vec<FuncNode>, ParseError>)
    requires
        old(input).wf(),
    ensures
        final(input).wf(),
        final(input).text() == old(input).text(),
        res_nodes_view(r) == sp_compile_tokens(old(input).text(), old(input).pos()),
    decreases input.text().len() - input.pos(), 3int,
{
    if input.finished() {
        return Ok(Vec::new());
    }
    match parse_one(input) {
        Ok(tok) => {
            let ghost tok_g = tok;
            let mut rest = match compile_tokens(input) {
                Ok(v) => v,
                Err(e) => {
                    return Err(e);
                },
            };
            let ghost rest_g = rest@;
            rest.insert(0, tok);
            proof {
                assert(rest@ =~= seq![tok_g] + rest_g);
                lemma_nodes_view_cons(tok_g, rest_g);
            }
            Ok(rest)
        },
        Err(e) => Err(e),
    }
}

} // verus!
