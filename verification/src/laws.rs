//! The stated laws of the engine, each proved once and for all.
//!
//! These proof functions are part of the library's interface: they record,
//! over the same specification functions that the executable functions are
//! proved against, the behaviour the engine guarantees — the identity
//! formula, determinism of evaluation, the exact single-look-back reduction
//! order, and the fate of malformed input.

use vstd::prelude::*;
use crate::ast::{EvalError, Operator, FunctionType, SpecNode};
use crate::cursor::{peek_at, skip_ws_from};
use crate::eval::{
    Calc, SpecCleaned, sp_drain, sp_reduce, sp_reduce_loop, sp_substitute_nodes,
};
use crate::formula::{CompiledFormula, formula_view, sp_evaluate};
use crate::parser::{
    sp_compile, sp_compile_tokens, sp_parse_interior, sp_parse_one, sp_rule_builtin,
    sp_rule_group, sp_rule_integer, digit_run, digits_value,
};

verus! {

/// Evaluation is deterministic: two evaluations of one formula on equal
/// environments return the same thing.  This holds because every evaluation
/// equals the same mathematical function of the formula and the environment.
pub proof fn lemma_evaluate_deterministic<V>(
    f: CompiledFormula,
    time_elapsed: V,
    point_x: V,
    point_y: V,
    point_z: V,
    r1: Result<Calc<V>, EvalError>,
    r2: Result<Calc<V>, EvalError>,
)
    requires
        r1 == sp_evaluate(f, time_elapsed, point_x, point_y, point_z),
        r2 == sp_evaluate(f, time_elapsed, point_x, point_y, point_z),
    ensures
        r1 == r2,
{
}

/// A formula that failed to parse fails every evaluation, on every
/// environment, with the captured parse error; it never yields a value.
pub proof fn lemma_failed_formula_always_errs<V>(
    f: CompiledFormula,
    time_elapsed: V,
    point_x: V,
    point_y: V,
    point_z: V,
)
    requires
        formula_view(f) is Err,
    ensures
        sp_evaluate(f, time_elapsed, point_x, point_y, point_z) == Err::<Calc<V>, EvalError>(
            EvalError::ParseFailed(formula_view(f)->Err_0),
        ),
{
}

/// Compiling the one-character text `x` yields the single axis-reference
/// token.
pub proof fn lemma_compile_x()
    ensures
        sp_compile("x"@) == Ok::<Seq<SpecNode>, crate::ast::ParseError>(seq![SpecNode::PointX]),
{
    reveal_strlit("x");
    let text = "x"@;
    assert(text.len() == 1);
    assert(text[0] == 'x');
    reveal_with_fuel(skip_ws_from, 2);
    assert(skip_ws_from(text, 0) == 0);
    reveal_with_fuel(crate::parser::sp_rule_builtin, 1);
    reveal_with_fuel(crate::parser::sp_rule_group, 1);
    reveal_with_fuel(crate::parser::digit_run, 1);
    assert(digit_run(text, 0) == 0);
    reveal_with_fuel(crate::parser::sp_parse_one, 1);
    assert(sp_parse_one(text, 0) == (
        Ok::<SpecNode, crate::ast::ParseError>(SpecNode::PointX),
        1int,
    ));
    reveal_with_fuel(crate::parser::sp_compile_tokens, 3);
    assert(sp_compile_tokens(text, 1) == Ok::<Seq<SpecNode>, crate::ast::ParseError>(
        Seq::empty(),
    ));
    assert(seq![SpecNode::PointX] + Seq::<SpecNode>::empty() =~= seq![SpecNode::PointX]);
}

/// Evaluating the single axis-reference token list returns the point's
/// x-coordinate unchanged, for every environment.
pub proof fn lemma_evaluate_x_token<V>(time_elapsed: V, point_x: V, point_y: V, point_z: V)
    ensures
        sp_reduce(
            sp_substitute_nodes(
                seq![SpecNode::PointX],
                time_elapsed,
                point_x,
                point_y,
                point_z,
            ),
        ) == Ok::<Calc<V>, EvalError>(Calc::Value(point_x)),
{
    let subst = sp_substitute_nodes(seq![SpecNode::PointX], time_elapsed, point_x, point_y,
        point_z);
    reveal_with_fuel(sp_substitute_nodes, 2);
    assert(seq![SpecNode::PointX].drop_first() =~= Seq::<SpecNode>::empty());
    assert(subst =~= seq![SpecCleaned::Value(point_x)]);
    reveal_with_fuel(sp_reduce, 1);
    reveal_with_fuel(sp_reduce_loop, 3);
    reveal_with_fuel(sp_drain, 2);
    let nums = Seq::<Calc<V>>::empty().push(Calc::Value(point_x));
    assert(nums.len() == 1);
    assert(nums[0] == Calc::<V>::Value(point_x));
    let empty_nums = Seq::<Calc<V>>::empty();
    let empty_ops = Seq::<Operator>::empty();
    assert(subst[0] == SpecCleaned::<V>::Value(point_x));
    assert(sp_reduce(subst) == sp_reduce_loop(subst, 0, empty_nums, empty_ops));
    assert(sp_reduce_loop(subst, 0, empty_nums, empty_ops) == sp_reduce_loop(
        subst,
        1,
        nums,
        empty_ops,
    ));
    assert(sp_reduce_loop(subst, 1, nums, empty_ops) == sp_drain(nums, empty_ops));
    assert(sp_drain(nums, empty_ops) == Ok::<Calc<V>, EvalError>(Calc::Value(point_x)));
}

/// Round-trip identity: a formula compiled from the text `x`, evaluated on
/// any environment, returns the point's x-coordinate unchanged, for all
/// elapsed times.
pub proof fn lemma_round_trip_identity<V>(
    f: CompiledFormula,
    time_elapsed: V,
    point_x: V,
    point_y: V,
    point_z: V,
)
    requires
        formula_view(f) == sp_compile("x"@),
    ensures
        sp_evaluate(f, time_elapsed, point_x, point_y, point_z) == Ok::<Calc<V>, EvalError>(
            Calc::Value(point_x),
        ),
{
    lemma_compile_x();
    lemma_evaluate_x_token(time_elapsed, point_x, point_y, point_z);
}

/// Reduction order, ascending precedence: in the token stream
/// `1 + 2 * 3`, the incoming `*` does not reduce — the stacked `+` binds
/// strictly weaker — so the drain pops `*` first and the stream folds as
/// `1 + (2 * 3)`.
pub proof fn lemma_reduction_order_ascending<V>()
    ensures
        sp_reduce::<V>(
            seq![
                SpecCleaned::Int(1),
                SpecCleaned::BinaryOperationSymbol(Operator::Addition),
                SpecCleaned::Int(2),
                SpecCleaned::BinaryOperationSymbol(Operator::Multiplication),
                SpecCleaned::Int(3),
            ],
        ) == Ok::<Calc<V>, EvalError>(
            Calc::Apply(
                Operator::Addition,
                Box::new(Calc::Int(1)),
                Box::new(
                    Calc::Apply(
                        Operator::Multiplication,
                        Box::new(Calc::Int(2)),
                        Box::new(Calc::Int(3)),
                    ),
                ),
            ),
        ),
{
    let s = seq![
        SpecCleaned::<V>::Int(1),
        SpecCleaned::BinaryOperationSymbol(Operator::Addition),
        SpecCleaned::Int(2),
        SpecCleaned::BinaryOperationSymbol(Operator::Multiplication),
        SpecCleaned::Int(3),
    ];
    reveal_with_fuel(sp_reduce, 1);
    reveal_with_fuel(sp_reduce_loop, 7);
    reveal_with_fuel(sp_drain, 4);
    let e_nums = Seq::<Calc<V>>::empty();
    let e_ops = Seq::<Operator>::empty();
    let nums1 = e_nums.push(Calc::Int(1));
    let ops1 = e_ops.push(Operator::Addition);
    let nums2 = nums1.push(Calc::Int(2));
    let ops2 = ops1.push(Operator::Multiplication);
    let nums3 = nums2.push(Calc::Int(3));
    assert(sp_reduce(s) == sp_reduce_loop(s, 0, e_nums, e_ops));
    assert(sp_reduce_loop(s, 0, e_nums, e_ops) == sp_reduce_loop(s, 1, nums1, e_ops));
    assert(sp_reduce_loop(s, 1, nums1, e_ops) == sp_reduce_loop(s, 2, nums1, ops1));
    assert(sp_reduce_loop(s, 2, nums1, ops1) == sp_reduce_loop(s, 3, nums2, ops1));
    // `+` on the stack has precedence 5, not strictly greater than 10
    assert(ops1.last() == Operator::Addition);
    assert(sp_reduce_loop(s, 3, nums2, ops1) == sp_reduce_loop(s, 4, nums2, ops2));
    assert(sp_reduce_loop(s, 4, nums2, ops2) == sp_reduce_loop(s, 5, nums3, ops2));
    assert(sp_reduce_loop(s, 5, nums3, ops2) == sp_drain(nums3, ops2));
    // drain pops `*` first: right operand 3, left operand 2
    let m = Calc::<V>::Apply(
        Operator::Multiplication,
        Box::new(Calc::Int(2)),
        Box::new(Calc::Int(3)),
    );
    let nums4 = nums3.drop_last().drop_last().push(m);
    assert(nums3.last() == Calc::<V>::Int(3));
    assert(nums3[nums3.len() - 2] == Calc::<V>::Int(2));
    assert(sp_drain(nums3, ops2) == sp_drain(nums4, ops1));
    // then `+`: right operand the product, left operand 1
    let a = Calc::<V>::Apply(Operator::Addition, Box::new(Calc::Int(1)), Box::new(m));
    let nums5 = nums4.drop_last().drop_last().push(a);
    assert(nums4.last() == m);
    assert(nums4[nums4.len() - 2] == Calc::<V>::Int(1));
    assert(sp_drain(nums4, ops1) == sp_drain(nums5, e_ops));
    assert(nums5[0] == a);
}

/// Reduction order, descending precedence: in the token stream `1 * 2 + 3`,
/// the incoming `+` reduces immediately — the stacked `*` binds strictly
/// stronger — so the stream folds as `(1 * 2) + 3`.
pub proof fn lemma_reduction_order_descending<V>()
    ensures
        sp_reduce::<V>(
            seq![
                SpecCleaned::Int(1),
                SpecCleaned::BinaryOperationSymbol(Operator::Multiplication),
                SpecCleaned::Int(2),
                SpecCleaned::BinaryOperationSymbol(Operator::Addition),
                SpecCleaned::Int(3),
            ],
        ) == Ok::<Calc<V>, EvalError>(
            Calc::Apply(
                Operator::Addition,
                Box::new(
                    Calc::Apply(
                        Operator::Multiplication,
                        Box::new(Calc::Int(1)),
                        Box::new(Calc::Int(2)),
                    ),
                ),
                Box::new(Calc::Int(3)),
            ),
        ),
{
    let s = seq![
        SpecCleaned::<V>::Int(1),
        SpecCleaned::BinaryOperationSymbol(Operator::Multiplication),
        SpecCleaned::Int(2),
        SpecCleaned::BinaryOperationSymbol(Operator::Addition),
        SpecCleaned::Int(3),
    ];
    reveal_with_fuel(sp_reduce, 1);
    reveal_with_fuel(sp_reduce_loop, 7);
    reveal_with_fuel(sp_drain, 3);
    let e_nums = Seq::<Calc<V>>::empty();
    let e_ops = Seq::<Operator>::empty();
    let nums1 = e_nums.push(Calc::Int(1));
    let ops1 = e_ops.push(Operator::Multiplication);
    let nums2 = nums1.push(Calc::Int(2));
    let m = Calc::<V>::Apply(
        Operator::Multiplication,
        Box::new(Calc::Int(1)),
        Box::new(Calc::Int(2)),
    );
    // `*` on the stack has precedence 10, strictly greater than 5: reduce now
    let nums3 = nums2.drop_last().drop_last().push(m);
    let ops2 = ops1.drop_last().push(Operator::Addition);
    let nums4 = nums3.push(Calc::Int(3));
    assert(sp_reduce(s) == sp_reduce_loop(s, 0, e_nums, e_ops));
    assert(sp_reduce_loop(s, 0, e_nums, e_ops) == sp_reduce_loop(s, 1, nums1, e_ops));
    assert(sp_reduce_loop(s, 1, nums1, e_ops) == sp_reduce_loop(s, 2, nums1, ops1));
    assert(sp_reduce_loop(s, 2, nums1, ops1) == sp_reduce_loop(s, 3, nums2, ops1));
    assert(ops1.last() == Operator::Multiplication);
    assert(nums2.last() == Calc::<V>::Int(2));
    assert(nums2[nums2.len() - 2] == Calc::<V>::Int(1));
    assert(sp_reduce_loop(s, 3, nums2, ops1) == sp_reduce_loop(s, 4, nums3, ops2));
    assert(sp_reduce_loop(s, 4, nums3, ops2) == sp_reduce_loop(s, 5, nums4, ops2));
    assert(sp_reduce_loop(s, 5, nums4, ops2) == sp_drain(nums4, ops2));
    // drain pops the single `+`: right operand 3, left the product
    let a = Calc::<V>::Apply(Operator::Addition, Box::new(m), Box::new(Calc::Int(3)));
    let nums5 = nums4.drop_last().drop_last().push(a);
    assert(nums4.last() == Calc::<V>::Int(3));
    assert(nums4[nums4.len() - 2] == m);
    assert(ops2.last() == Operator::Addition);
    assert(sp_drain(nums4, ops2) == sp_drain(nums5, e_ops));
    assert(nums5[0] == a);
}

/// Checkpoint restore: loading a save point sets the cursor's offset to
/// exactly the offset recorded when the save point was created, whatever
/// consumption happened in between, and leaves the text unchanged.  Here
/// `start` is the cursor at the save, `wandered` the same cursor after any
/// consumption, and `restored` the cursor after loading the save point.
pub proof fn lemma_checkpoint_restore(
    start: crate::cursor::Cursor,
    wandered: crate::cursor::Cursor,
    restored: crate::cursor::Cursor,
    p: crate::cursor::SavePoint,
)
    requires
        p.offset() == start.pos(),
        wandered.text() == start.text(),
        restored.text() == wandered.text(),
        restored.pos() == p.offset(),
    ensures
        restored.pos() == start.pos(),
        restored.text() == start.text(),
{
}

/// The dispatch fails, consuming nothing, wherever the character at `pos`
/// (or the end of the input) can start no rule; the reported error is the
/// error of the integer rule, the last one tried.
proof fn lemma_parse_one_fails_at_stop(text: Seq<char>, pos: int)
    requires
        0 <= pos <= text.len(),
        skip_ws_from(text, pos) == pos,
        ({
            let nxt = peek_at(text, pos);
            nxt is None || {
                let c = nxt->0;
                &&& crate::cursor::lower_char(c) != 's'
                &&& crate::cursor::lower_char(c) != 'c'
                &&& crate::cursor::lower_char(c) != 't'
                &&& crate::cursor::lower_char(c) != 'a'
                &&& c != '(' && c != '+' && c != '*' && c != '-' && c != '/' && c != '^'
                &&& c != 't' && c != 'x' && c != 'y' && c != 'z'
                &&& !crate::cursor::is_digit_char(c)
            }
        }),
    ensures
        sp_parse_one(text, pos) == (
            Err::<SpecNode, crate::ast::ParseError>(
                crate::ast::ParseError::ExpectedDigit(peek_at(text, pos)),
            ),
            pos,
        ),
{
    reveal_with_fuel(sp_parse_one, 1);
    reveal_with_fuel(sp_rule_builtin, 1);
    reveal_with_fuel(sp_rule_group, 1);
    reveal_with_fuel(digit_run, 1);
    assert(!crate::cursor::word_at_ci(text, pos, crate::parser::kw_sin()));
    assert(!crate::cursor::word_at_ci(text, pos, crate::parser::kw_cos()));
    assert(!crate::cursor::word_at_ci(text, pos, crate::parser::kw_tan()));
    assert(!crate::cursor::word_at_ci(text, pos, crate::parser::kw_abs()));
    assert(!crate::cursor::word_at(text, pos, crate::parser::kw_time()));
    assert(digit_run(text, pos) == 0);
}

/// Malformed input: compiling the text `q` fails, so the resulting formula
/// is a failing formula.
pub proof fn lemma_compile_malformed()
    ensures
        sp_compile("q"@) is Err,
{
    reveal_strlit("q");
    let text = "q"@;
    assert(text.len() == 1 && text[0] == 'q');
    reveal_with_fuel(skip_ws_from, 1);
    assert(skip_ws_from(text, 0) == 0);
    lemma_parse_one_fails_at_stop(text, 0);
    reveal_with_fuel(sp_compile_tokens, 1);
}

/// An unterminated group: compiling the text `(x` fails (the closing
/// parenthesis is missing).
pub proof fn lemma_compile_unterminated_group()
    ensures
        sp_compile("(x"@) is Err,
{
    reveal_strlit("(x");
    let text = "(x"@;
    assert(text.len() == 2 && text[0] == '(' && text[1] == 'x');
    reveal_with_fuel(skip_ws_from, 1);
    assert(skip_ws_from(text, 0) == 0);
    assert(skip_ws_from(text, 1) == 1);
    assert(skip_ws_from(text, 2) == 2);
    // inside the group, `x` parses and the cursor reaches the end
    reveal_with_fuel(sp_parse_one, 1);
    reveal_with_fuel(sp_rule_builtin, 1);
    reveal_with_fuel(sp_rule_group, 1);
    reveal_with_fuel(digit_run, 1);
    assert(digit_run(text, 1) == 0) by {
        assert(!crate::cursor::is_digit_char('x'));
    }
    assert(sp_parse_one(text, 1) == (
        Ok::<SpecNode, crate::ast::ParseError>(SpecNode::PointX),
        2int,
    ));
    // at the end of the input no rule applies and no `)` can be consumed
    lemma_parse_one_fails_at_stop(text, 2);
    reveal_with_fuel(sp_parse_interior, 2);
    assert(sp_parse_interior(text, 2).0 is Err);
    assert(sp_parse_interior(text, 1).0 is Err);
    // so the group rule fails, and with it every other rule at the start
    reveal_with_fuel(sp_compile_tokens, 1);
    assert(sp_compile_tokens(text, 0) is Err);
}

/// The dispatch returns the integer literal `1` wherever `1` stands
/// followed by a closing parenthesis.
proof fn lemma_parse_one_digit_one(text: Seq<char>, pos: int)
    requires
        0 <= pos,
        pos + 2 <= text.len(),
        text[pos] == '1',
        text[pos + 1] == ')',
    ensures
        sp_parse_one(text, pos) == (
            Ok::<SpecNode, crate::ast::ParseError>(SpecNode::Int(1)),
            pos + 1,
        ),
{
    reveal_with_fuel(skip_ws_from, 1);
    assert(skip_ws_from(text, pos) == pos);
    reveal_with_fuel(sp_parse_one, 1);
    reveal_with_fuel(sp_rule_builtin, 1);
    reveal_with_fuel(sp_rule_group, 1);
    reveal_with_fuel(digit_run, 2);
    assert(digit_run(text, pos + 1) == 0);
    assert(digit_run(text, pos) == 1);
    assert(digits_value(text, pos, 0) == 0);
    assert(digits_value(text, pos, 1) == 1);
    assert(sp_rule_integer(text, pos) == (
        Ok::<SpecNode, crate::ast::ParseError>(SpecNode::Int(1)),
        pos + 1,
    ));
    assert(!crate::cursor::word_at_ci(text, pos, crate::parser::kw_sin()));
    assert(!crate::cursor::word_at_ci(text, pos, crate::parser::kw_cos()));
    assert(!crate::cursor::word_at_ci(text, pos, crate::parser::kw_tan()));
    assert(!crate::cursor::word_at_ci(text, pos, crate::parser::kw_abs()));
    assert(!crate::cursor::word_at(text, pos, crate::parser::kw_time()));
}

/// The dispatch returns the axis reference wherever `x` stands followed by
/// a closing parenthesis.
proof fn lemma_parse_one_x_then_close(text: Seq<char>, pos: int)
    requires
        0 <= pos,
        pos + 2 <= text.len(),
        text[pos] == 'x',
        text[pos + 1] == ')',
    ensures
        sp_parse_one(text, pos) == (
            Ok::<SpecNode, crate::ast::ParseError>(SpecNode::PointX),
            pos + 1,
        ),
{
    reveal_with_fuel(skip_ws_from, 1);
    assert(skip_ws_from(text, pos) == pos);
    reveal_with_fuel(sp_parse_one, 1);
    reveal_with_fuel(sp_rule_builtin, 1);
    reveal_with_fuel(sp_rule_group, 1);
    assert(!crate::cursor::word_at_ci(text, pos, crate::parser::kw_sin()));
    assert(!crate::cursor::word_at_ci(text, pos, crate::parser::kw_cos()));
    assert(!crate::cursor::word_at_ci(text, pos, crate::parser::kw_tan()));
    assert(!crate::cursor::word_at_ci(text, pos, crate::parser::kw_abs()));
    assert(!crate::cursor::word_at(text, pos, crate::parser::kw_time()));
}

/// Compiling a six-character text that spells a sine call — the keyword in
/// any letter case — around one interior token yields exactly that call.
proof fn lemma_compile_sin_call(text: Seq<char>, tok: SpecNode)
    requires
        text.len() == 6,
        crate::cursor::lower_char(text[0]) == 's',
        crate::cursor::lower_char(text[1]) == 'i',
        crate::cursor::lower_char(text[2]) == 'n',
        text[3] == '(',
        text[5] == ')',
        skip_ws_from(text, 4) == 4,
        sp_parse_one(text, 4) == (Ok::<SpecNode, crate::ast::ParseError>(tok), 5int),
    ensures
        sp_compile(text) == Ok::<Seq<SpecNode>, crate::ast::ParseError>(
            seq![SpecNode::BuiltinFunction(FunctionType::Sin, seq![tok])],
        ),
{
    reveal_with_fuel(skip_ws_from, 1);
    assert(skip_ws_from(text, 0) == 0);
    assert(skip_ws_from(text, 5) == 5);
    assert(crate::cursor::word_at_ci(text, 0, crate::parser::kw_sin())) by {
        assert(crate::parser::kw_sin()[0] == 's');
        assert(crate::parser::kw_sin()[1] == 'i');
        assert(crate::parser::kw_sin()[2] == 'n');
    }
    // at the closing parenthesis no rule applies, and the interior loop
    // consumes the parenthesis and completes with one token
    lemma_parse_one_fails_at_stop(text, 5);
    reveal_with_fuel(sp_parse_interior, 2);
    assert(sp_parse_interior(text, 5) == (
        Ok::<Seq<SpecNode>, crate::ast::ParseError>(Seq::empty()),
        6int,
    ));
    assert(sp_parse_interior(text, 4) == (
        Ok::<Seq<SpecNode>, crate::ast::ParseError>(seq![tok] + Seq::empty()),
        6int,
    ));
    assert(seq![tok] + Seq::<SpecNode>::empty() =~= seq![tok]);
    reveal_with_fuel(sp_rule_builtin, 1);
    assert(sp_rule_builtin(text, 0) == (
        Ok::<SpecNode, crate::ast::ParseError>(
            SpecNode::BuiltinFunction(FunctionType::Sin, seq![tok]),
        ),
        6int,
    ));
    reveal_with_fuel(sp_parse_one, 1);
    assert(sp_parse_one(text, 0) == (
        Ok::<SpecNode, crate::ast::ParseError>(
            SpecNode::BuiltinFunction(FunctionType::Sin, seq![tok]),
        ),
        6int,
    ));
    reveal_with_fuel(sp_compile_tokens, 2);
    assert(sp_compile_tokens(text, 6) == Ok::<Seq<SpecNode>, crate::ast::ParseError>(
        Seq::empty(),
    ));
    let bf = SpecNode::BuiltinFunction(FunctionType::Sin, seq![tok]);
    assert(seq![bf] + Seq::<SpecNode>::empty() =~= seq![bf]);
}

/// Case-insensitive function names: the texts `SIN(1)` and `sin(1)` compile
/// to the same formula, so they evaluate identically on every environment.
pub proof fn lemma_case_insensitive_function_names()
    ensures
        sp_compile("SIN(1)"@) == sp_compile("sin(1)"@),
        sp_compile("SIN(1)"@) is Ok,
{
    reveal_strlit("SIN(1)");
    reveal_strlit("sin(1)");
    let upper = "SIN(1)"@;
    let lower = "sin(1)"@;
    assert(upper.len() == 6 && lower.len() == 6);
    reveal_with_fuel(skip_ws_from, 1);
    assert(skip_ws_from(upper, 4) == 4);
    assert(skip_ws_from(lower, 4) == 4);
    lemma_parse_one_digit_one(upper, 4);
    lemma_parse_one_digit_one(lower, 4);
    lemma_compile_sin_call(upper, SpecNode::Int(1));
    lemma_compile_sin_call(lower, SpecNode::Int(1));
}

/// A single value token reduces to itself.
proof fn lemma_reduce_single_value<V>(v: V)
    ensures
        sp_reduce(seq![SpecCleaned::Value(v)]) == Ok::<Calc<V>, EvalError>(Calc::Value(v)),
{
    let s = seq![SpecCleaned::<V>::Value(v)];
    reveal_with_fuel(sp_reduce, 1);
    reveal_with_fuel(sp_reduce_loop, 3);
    reveal_with_fuel(sp_drain, 2);
    let nums = Seq::<Calc<V>>::empty().push(Calc::Value(v));
    let e_ops = Seq::<Operator>::empty();
    assert(sp_reduce_loop(s, 0, Seq::<Calc<V>>::empty(), e_ops) == sp_reduce_loop(
        s,
        1,
        nums,
        e_ops,
    ));
    assert(sp_reduce_loop(s, 1, nums, e_ops) == sp_drain(nums, e_ops));
    assert(nums[0] == Calc::<V>::Value(v));
}

/// A nested function call: the text `sin(x)` compiles to a sine call around
/// the axis reference, and evaluating it on any environment yields the sine
/// applied to the point's x-coordinate — numerically, the host then folds
/// `sin` over that coordinate.
pub proof fn lemma_nested_function<V>(
    f: CompiledFormula,
    time_elapsed: V,
    point_x: V,
    point_y: V,
    point_z: V,
)
    requires
        formula_view(f) == sp_compile("sin(x)"@),
    ensures
        sp_evaluate(f, time_elapsed, point_x, point_y, point_z) == Ok::<Calc<V>, EvalError>(
            Calc::Call(FunctionType::Sin, Box::new(Calc::Value(point_x))),
        ),
{
    reveal_strlit("sin(x)");
    let text = "sin(x)"@;
    assert(text.len() == 6);
    reveal_with_fuel(skip_ws_from, 1);
    assert(skip_ws_from(text, 4) == 4);
    lemma_parse_one_x_then_close(text, 4);
    lemma_compile_sin_call(text, SpecNode::PointX);
    let tokens = seq![SpecNode::BuiltinFunction(FunctionType::Sin, seq![SpecNode::PointX])];
    let subst = sp_substitute_nodes(tokens, time_elapsed, point_x, point_y, point_z);
    reveal_with_fuel(sp_substitute_nodes, 2);
    assert(tokens.drop_first() =~= Seq::<SpecNode>::empty());
    assert(seq![SpecNode::PointX].drop_first() =~= Seq::<SpecNode>::empty());
    let inner_subst = sp_substitute_nodes(seq![SpecNode::PointX], time_elapsed, point_x, point_y,
        point_z);
    assert(inner_subst =~= seq![SpecCleaned::Value(point_x)]);
    let call_clean = SpecCleaned::BuiltinFunction(
        FunctionType::Sin,
        seq![SpecCleaned::Value(point_x)],
    );
    assert(subst =~= seq![call_clean]);
    lemma_reduce_single_value(point_x);
    reveal_with_fuel(sp_reduce, 1);
    reveal_with_fuel(sp_reduce_loop, 3);
    reveal_with_fuel(sp_drain, 2);
    let s = seq![call_clean];
    let e_nums = Seq::<Calc<V>>::empty();
    let e_ops = Seq::<Operator>::empty();
    let result_call = Calc::Call(FunctionType::Sin, Box::new(Calc::<V>::Value(point_x)));
    let nums = e_nums.push(result_call);
    assert(sp_reduce_loop(s, 0, e_nums, e_ops) == sp_reduce_loop(s, 1, nums, e_ops));
    assert(sp_reduce_loop(s, 1, nums, e_ops) == sp_drain(nums, e_ops));
    assert(nums[0] == result_call);
}

} // verus!
