//! End-to-end tests of the formula engine: compiling source text and
//! folding the reduced arithmetic term over `f32`, the way a host does.

use graph_formula::ast::{EvalError, FuncNode, FunctionType, Operator};
use graph_formula::eval::Calc;
use graph_formula::formula::{apply_axis_result, compile, CompiledFormula, FormulaParser};
use graph_formula::cursor::Cursor;

fn run_op(op: &Operator, x: f32, y: f32) -> f32 {
    match op {
        Operator::Addition => x + y,
        Operator::Multiplication => x * y,
        Operator::Subtraction => x - y,
        Operator::Division => x / y,
        Operator::Exponentiation => x.powf(y),
    }
}

fn run_func(f: &FunctionType, x: f32) -> f32 {
    match f {
        FunctionType::Sin => x.sin(),
        FunctionType::Cos => x.cos(),
        FunctionType::Tan => x.tan(),
        FunctionType::Abs => x.abs(),
    }
}

fn fold(c: &Calc<f32>) -> f32 {
    match c {
        Calc::Value(v) => *v,
        Calc::Int(i) => *i as f32,
        Calc::Apply(op, l, r) => run_op(op, fold(l), fold(r)),
        Calc::Call(f, a) => run_func(f, fold(a)),
    }
}

fn eval_f32(f: &CompiledFormula, time: f32, point: (f32, f32, f32)) -> Result<f32, String> {
    match f.evaluate(time, point.0, point.1, point.2) {
        Ok(c) => Ok(fold(&c)),
        Err(e) => Err(e.message()),
    }
}

#[test]
fn identity_formula_returns_x() {
    let f = compile("x");
    assert_eq!(eval_f32(&f, 0.0, (1.5, 2.0, 3.0)), Ok(1.5));
    assert_eq!(eval_f32(&f, 99.25, (-7.0, 0.0, 4.0)), Ok(-7.0));
    assert_eq!(eval_f32(&f, -3.0, (0.0, 5.0, 6.0)), Ok(0.0));
}

#[test]
fn identity_formula_parses_to_single_token() {
    let f = compile("x");
    assert!(matches!(&f, CompiledFormula::Parsed(v)
        if v.len() == 1 && matches!(v[0], FuncNode::PointX)));
}

#[test]
fn evaluation_is_deterministic() {
    let f = compile("sin(x - time) * 10");
    let a = eval_f32(&f, 2.5, (1.0, 2.0, 3.0));
    let b = eval_f32(&f, 2.5, (1.0, 2.0, 3.0));
    assert_eq!(a, b);
    assert!(a.is_ok());
}

#[test]
fn checkpoint_restore_returns_to_saved_offset() {
    let mut cursor = Cursor::new("abc");
    let save = cursor.create_save_point();
    assert!(cursor.skip_char('a').is_ok());
    assert_eq!(cursor.offset(), 1);
    cursor.load_save_point(save);
    assert_eq!(cursor.offset(), 0);
    assert_eq!(cursor.get_next_char(), Some('a'));

    // a failed consumption also leaves the saved offset valid
    let save2 = cursor.create_save_point();
    assert!(cursor.skip_char('z').is_err());
    cursor.load_save_point(save2);
    assert_eq!(cursor.offset(), 0);
}

#[test]
fn case_insensitive_function_names() {
    let upper = compile("SIN(1)");
    let lower = compile("sin(1)");
    let a = eval_f32(&upper, 0.0, (0.0, 0.0, 0.0)).unwrap();
    let b = eval_f32(&lower, 0.0, (0.0, 0.0, 0.0)).unwrap();
    assert_eq!(a, b);
    assert!((a - 1.0f32.sin()).abs() < 1e-6);
}

#[test]
fn reduction_order_ascending_precedence() {
    // token stream [1, +, 2, *, 3]: `*` is pushed on top of `+`, the drain
    // pops `*` first, and the result is 1 + (2 * 3) = 7
    let f = compile("1+2*3");
    assert_eq!(eval_f32(&f, 0.0, (0.0, 0.0, 0.0)), Ok(7.0));

    let direct = CompiledFormula::Parsed(vec![
        FuncNode::Int(1),
        FuncNode::BinaryOperationSymbol(Operator::Addition),
        FuncNode::Int(2),
        FuncNode::BinaryOperationSymbol(Operator::Multiplication),
        FuncNode::Int(3),
    ]);
    assert_eq!(eval_f32(&direct, 0.0, (0.0, 0.0, 0.0)), Ok(7.0));
}

#[test]
fn reduction_order_descending_precedence() {
    // token stream [1, *, 2, +, 3]: the incoming `+` reduces the stacked
    // `*` immediately, and the result is (1 * 2) + 3 = 5
    let f = compile("1*2+3");
    assert_eq!(eval_f32(&f, 0.0, (0.0, 0.0, 0.0)), Ok(5.0));

    let direct = CompiledFormula::Parsed(vec![
        FuncNode::Int(1),
        FuncNode::BinaryOperationSymbol(Operator::Multiplication),
        FuncNode::Int(2),
        FuncNode::BinaryOperationSymbol(Operator::Addition),
        FuncNode::Int(3),
    ]);
    assert_eq!(eval_f32(&direct, 0.0, (0.0, 0.0, 0.0)), Ok(5.0));
}

#[test]
fn malformed_input_always_errors() {
    let f = compile("q");
    assert!(f.is_failed());
    assert!(eval_f32(&f, 0.0, (0.0, 0.0, 0.0)).is_err());
    assert!(eval_f32(&f, 1.0, (2.0, 3.0, 4.0)).is_err());
    assert!(eval_f32(&f, -5.0, (0.5, -0.5, 9.0)).is_err());
}

#[test]
fn unterminated_group_fails() {
    let f = compile("(x");
    assert!(f.is_failed());
    assert!(eval_f32(&f, 0.0, (1.0, 2.0, 3.0)).is_err());
}

#[test]
fn nested_function_sin_of_x() {
    let f = compile("sin(x)");
    let half_pi = std::f32::consts::FRAC_PI_2;
    let r = eval_f32(&f, 12345.0, (half_pi, 0.0, 0.0)).unwrap();
    assert!((r - 1.0).abs() < 1e-6);
}

#[test]
fn empty_input_is_an_evaluation_error() {
    let f = compile("");
    assert!(!f.is_failed());
    let r = eval_f32(&f, 0.0, (0.0, 0.0, 0.0));
    assert_eq!(r, Err(String::from("Input is empty.")));
}

#[test]
fn lone_operator_is_a_stack_error() {
    let f = compile("+");
    assert!(!f.is_failed());
    let r = eval_f32(&f, 0.0, (0.0, 0.0, 0.0));
    assert_eq!(r, Err(String::from("Erroneous binary operation attempted")));
}

#[test]
fn integer_literals_parse_in_base_ten() {
    assert_eq!(eval_f32(&compile("42"), 0.0, (0.0, 0.0, 0.0)), Ok(42.0));
    assert_eq!(eval_f32(&compile("007"), 0.0, (0.0, 0.0, 0.0)), Ok(7.0));
    assert_eq!(eval_f32(&compile("0"), 0.0, (0.0, 0.0, 0.0)), Ok(0.0));
}

#[test]
fn oversized_integer_literal_fails_the_parse() {
    let f = compile("99999999999999999999");
    assert!(f.is_failed());
}

#[test]
fn largest_integer_literal_parses() {
    let f = compile("9223372036854775807");
    assert!(!f.is_failed());
    let g = compile("9223372036854775808");
    assert!(g.is_failed());
}

#[test]
fn time_keyword_is_case_sensitive() {
    let f = compile("time");
    assert_eq!(eval_f32(&f, 3.5, (0.0, 0.0, 0.0)), Ok(3.5));
    assert!(compile("TIME").is_failed());
    assert!(compile("Time").is_failed());
}

#[test]
fn axis_references_are_lowercase_only() {
    assert_eq!(eval_f32(&compile("y"), 0.0, (1.0, 2.0, 3.0)), Ok(2.0));
    assert_eq!(eval_f32(&compile("z"), 0.0, (1.0, 2.0, 3.0)), Ok(3.0));
    assert!(compile("X").is_failed());
    assert!(compile("Y").is_failed());
}

#[test]
fn whitespace_is_skipped_before_every_rule() {
    assert_eq!(eval_f32(&compile("1 + 2"), 0.0, (0.0, 0.0, 0.0)), Ok(3.0));
    assert_eq!(eval_f32(&compile("  x"), 0.0, (4.0, 0.0, 0.0)), Ok(4.0));
    assert_eq!(eval_f32(&compile("sin( 1 )"), 0.0, (0.0, 0.0, 0.0)).unwrap(), 1.0f32.sin());
}

#[test]
fn trailing_whitespace_fails_the_parse() {
    // whitespace is skipped before each rule attempt, but a trailing run
    // leaves the cursor unfinished with no rule to consume it
    assert!(compile("x ").is_failed());
}

#[test]
fn groups_reduce_before_their_surroundings() {
    assert_eq!(eval_f32(&compile("(1+2)*3"), 0.0, (0.0, 0.0, 0.0)), Ok(9.0));
    assert_eq!(eval_f32(&compile("((x))"), 0.0, (5.0, 0.0, 0.0)), Ok(5.0));
}

#[test]
fn exponentiation_binds_strongest() {
    assert_eq!(eval_f32(&compile("2^3"), 0.0, (0.0, 0.0, 0.0)), Ok(8.0));
    // [2, *, 2, ^, 3]: `^` (15) is pushed over `*` (10); drain pops `^`
    // first: 2 * (2 ^ 3) = 16
    assert_eq!(eval_f32(&compile("2*2^3"), 0.0, (0.0, 0.0, 0.0)), Ok(16.0));
}

#[test]
fn division_by_zero_propagates_infinity() {
    let r = eval_f32(&compile("1/0"), 0.0, (0.0, 0.0, 0.0)).unwrap();
    assert!(r.is_infinite() && r > 0.0);
}

#[test]
fn function_call_with_no_arguments_is_an_evaluation_error() {
    let f = compile("sin()");
    assert!(!f.is_failed());
    let r = eval_f32(&f, 0.0, (0.0, 0.0, 0.0));
    assert_eq!(r, Err(String::from("Input is empty.")));
}

#[test]
fn function_call_takes_first_of_several_arguments() {
    // interior tokens need no separators; with no operator between them the
    // reduction keeps the first remaining value
    let f = compile("abs(1 2)");
    assert_eq!(eval_f32(&f, 0.0, (0.0, 0.0, 0.0)), Ok(1.0));
}

#[test]
fn operator_precedence_values() {
    assert_eq!(Operator::Addition.get_precedence(), 5);
    assert_eq!(Operator::Subtraction.get_precedence(), 5);
    assert_eq!(Operator::Multiplication.get_precedence(), 10);
    assert_eq!(Operator::Division.get_precedence(), 10);
    assert_eq!(Operator::Exponentiation.get_precedence(), 15);
}

#[test]
fn parser_facade_matches_free_compile() {
    let parser = FormulaParser::new();
    let via_parser = parser.parse("sin(x - time) * 10");
    let via_compile = compile("sin(x - time) * 10");
    let env = (1.25f32, (0.5f32, 0.0f32, 0.0f32));
    assert_eq!(
        eval_f32(&via_parser, env.0, env.1),
        eval_f32(&via_compile, env.0, env.1),
    );
}

#[test]
fn default_scene_formula_evaluates() {
    // the default animation formula of the scene host
    let f = compile("sin(x - time) * 10");
    let x = 2.0f32;
    let t = 0.75f32;
    let r = eval_f32(&f, t, (x, 0.0, 0.0)).unwrap();
    assert!((r - (x - t).sin() * 10.0).abs() < 1e-5);
}

#[test]
fn all_four_functions_evaluate() {
    let x = 0.7f32;
    let p = (x, 0.0, 0.0);
    assert!((eval_f32(&compile("sin(x)"), 0.0, p).unwrap() - x.sin()).abs() < 1e-6);
    assert!((eval_f32(&compile("cos(x)"), 0.0, p).unwrap() - x.cos()).abs() < 1e-6);
    assert!((eval_f32(&compile("tan(x)"), 0.0, p).unwrap() - x.tan()).abs() < 1e-6);
    let n = (-3.25f32, 0.0, 0.0);
    assert_eq!(eval_f32(&compile("abs(x)"), 0.0, n), Ok(3.25));
}

#[test]
fn equal_precedence_drains_from_the_top() {
    // equal precedences never trigger the look-back, so the drain folds
    // from the top of the stack: [10, -, 3, -, 2] drains the second `-`
    // first, 10 - (3 - 2) = 9, and [8, /, 2, /, 2] gives 8 / (2 / 2) = 8
    assert_eq!(eval_f32(&compile("10-3-2"), 0.0, (0.0, 0.0, 0.0)), Ok(9.0));
    assert_eq!(eval_f32(&compile("8/2/2"), 0.0, (0.0, 0.0, 0.0)), Ok(8.0));
}

#[test]
fn error_slot_keeps_coordinate_and_last_error_wins() {
    // a successful axis replaces the coordinate and leaves the slot alone
    let (v, e) = apply_axis_result(1.0f32, Ok(9.0f32), None);
    assert_eq!(v, 9.0);
    assert!(e.is_none());
    // a failing axis keeps the coordinate and overwrites the slot
    let (v, e) = apply_axis_result(
        1.0f32,
        Err(EvalError::EmptyInput),
        Some(EvalError::OperationMismatch),
    );
    assert_eq!(v, 1.0);
    assert_eq!(e, Some(EvalError::EmptyInput));
}

#[test]
fn parse_errors_render_messages() {
    let f = compile("q");
    match &f {
        CompiledFormula::Failed(e) => {
            assert!(!e.message().is_empty());
        },
        CompiledFormula::Parsed(_) => panic!("the parse should have failed"),
    }
}
