//! The two-phase evaluator.
//!
//! Phase one substitutes the environment (the elapsed time and the three
//! coordinates of the evaluation point) into the token tree, replacing every
//! variable reference by its value.  Phase two folds the resulting flat
//! value/operator stream with a value stack and an operator stack: an
//! incoming operator performs at most one look-back reduction — only when
//! the operator on top of the stack binds strictly stronger — and the
//! operator stack is drained top-down at the end.  This is deliberately not
//! a textbook precedence parser: chains of three or more operators of mixed
//! precedence fold in the specific left-to-right order that the single-step
//! look-back produces, and that order is part of the contract.
//!
//! The engine is generic in the scalar type `V`.  Reduction does not compute
//! with scalars at all: it returns the reduced arithmetic term, a
//! [`Calc`] tree whose shape records exactly which operation combines which
//! operands, and the host folds that term numerically.

use vstd::prelude::*;
use crate::ast::{EvalError, FuncNode, FunctionType, Operator, SpecNode};

verus! {

broadcast use vstd::std_specs::vec::group_vec_axioms;

/// A resolved token: the same shape as [`FuncNode`] but with every
/// environment reference replaced by a value of the scalar type.
#[derive(Debug)]
pub enum FuncNodeCleaned<V> {
    Int(i64),
    Value(V),
    BuiltinFunction(FunctionType, Vec<FuncNodeCleaned<V>>),
    BinaryOperationSymbol(Operator),
    Parentheses(Vec<FuncNodeCleaned<V>>),
}

/// The mathematical model of a [`FuncNodeCleaned`], with `Seq` in place of
/// `Vec`.
pub enum SpecCleaned<V> {
    Int(i64),
    Value(V),
    BuiltinFunction(FunctionType, Seq<SpecCleaned<V>>),
    BinaryOperationSymbol(Operator),
    Parentheses(Seq<SpecCleaned<V>>),
}

/// The model of one resolved token.
pub open spec fn clean_view<V>(n: FuncNodeCleaned<V>) -> SpecCleaned<V>
    decreases n,
{
    match n {
        FuncNodeCleaned::Int(x) => SpecCleaned::Int(x),
        FuncNodeCleaned::Value(x) => SpecCleaned::Value(x),
        FuncNodeCleaned::BuiltinFunction(ft, args) => SpecCleaned::BuiltinFunction(
            ft,
            cleans_view(args@),
        ),
        FuncNodeCleaned::BinaryOperationSymbol(op) => SpecCleaned::BinaryOperationSymbol(op),
        FuncNodeCleaned::Parentheses(inner) => SpecCleaned::Parentheses(cleans_view(inner@)),
    }
}

/// The model of a sequence of resolved tokens, element by element.
pub open spec fn cleans_view<V>(s: Seq<FuncNodeCleaned<V>>) -> Seq<SpecCleaned<V>>
    decreases s,
{
    if s.len() == 0 {
        Seq::empty()
    } else {
        seq![clean_view(s[0])] + cleans_view(s.drop_first())
    }
}

/// [`cleans_view`] maps element by element.
pub proof fn lemma_cleans_view_index<V>(s: Seq<FuncNodeCleaned<V>>)
    ensures
        cleans_view(s).len() == s.len(),
        forall|i: int| 0 <= i < s.len() ==> cleans_view(s)[i] == clean_view(s[i]),
    decreases s.len(),
{
    if s.len() > 0 {
        lemma_cleans_view_index(s.drop_first());
        assert forall|i: int| 0 <= i < s.len() implies cleans_view(s)[i] == clean_view(s[i]) by {
            if i > 0 {
                assert(cleans_view(s)[i] == cleans_view(s.drop_first())[i - 1]);
                assert(s.drop_first()[i - 1] == s[i]);
            }
        }
    }
}

/// What substituting the environment into one token yields.
pub open spec fn sp_substitute_node<V>(n: SpecNode, time: V, x: V, y: V, z: V) -> SpecCleaned<V>
    decreases n,
{
    match n {
        SpecNode::Time => SpecCleaned::Value(time),
        SpecNode::PointX => SpecCleaned::Value(x),
        SpecNode::PointY => SpecCleaned::Value(y),
        SpecNode::PointZ => SpecCleaned::Value(z),
        SpecNode::Int(i) => SpecCleaned::Int(i),
        SpecNode::BuiltinFunction(ft, args) => SpecCleaned::BuiltinFunction(
            ft,
            sp_substitute_nodes(args, time, x, y, z),
        ),
        SpecNode::Parentheses(inner) => SpecCleaned::Parentheses(
            sp_substitute_nodes(inner, time, x, y, z),
        ),
        SpecNode::BinaryOperationSymbol(op) => SpecCleaned::BinaryOperationSymbol(op),
    }
}

/// What substituting the environment into a token list yields.
pub open spec fn sp_substitute_nodes<V>(s: Seq<SpecNode>, time: V, x: V, y: V, z: V) -> Seq<
    SpecCleaned<V>,
>
    decreases s,
{
    if s.len() == 0 {
        Seq::empty()
    } else {
        seq![sp_substitute_node(s[0], time, x, y, z)] + sp_substitute_nodes(
            s.drop_first(),
            time,
            x,
            y,
            z,
        )
    }
}

/// [`sp_substitute_nodes`] maps element by element.
pub proof fn lemma_sp_substitute_nodes_index<V>(s: Seq<SpecNode>, time: V, x: V, y: V, z: V)
    ensures
        sp_substitute_nodes(s, time, x, y, z).len() == s.len(),
        forall|i: int|
            0 <= i < s.len() ==> sp_substitute_nodes(s, time, x, y, z)[i] == sp_substitute_node(
                s[i],
                time,
                x,
                y,
                z,
            ),
    decreases s.len(),
{
    if s.len() > 0 {
        lemma_sp_substitute_nodes_index(s.drop_first(), time, x, y, z);
        assert forall|i: int|
            0 <= i < s.len() implies sp_substitute_nodes(s, time, x, y, z)[i]
            == sp_substitute_node(s[i], time, x, y, z) by {
            if i > 0 {
                assert(sp_substitute_nodes(s, time, x, y, z)[i] == sp_substitute_nodes(
                    s.drop_first(),
                    time,
                    x,
                    y,
                    z,
                )[i - 1]);
                assert(s.drop_first()[i - 1] == s[i]);
            }
        }
    }
}

/// The fully reduced arithmetic term: which operation combines which
/// operands, in exactly the order the reduction performed them.  The host
/// folds this term into a number.
#[derive(Debug)]
pub enum Calc<V> {
    /// A scalar that came from the environment.
    Value(V),
    /// An integer literal from the source text.
    Int(i64),
    /// One binary operation: left and right operand in order.
    Apply(Operator, Box<Calc<V>>, Box<Calc<V>>),
    /// One unary built-in function application.
    Call(FunctionType, Box<Calc<V>>),
}

/// What draining the operator stack at the end of a reduction yields:
/// repeatedly pop one operator and the top two values, combine them, and
/// push the result; the single remaining first value is the result.  An
/// empty value stack is the empty-input error; a missing operand is the
/// stack-arity error.
pub open spec fn sp_drain<V>(nums: Seq<Calc<V>>, ops: Seq<Operator>) -> Result<Calc<V>, EvalError>
    decreases ops.len(),
{
    if ops.len() == 0 {
        if nums.len() >= 1 {
            Ok(nums[0])
        } else {
            Err(EvalError::EmptyInput)
        }
    } else {
        if nums.len() >= 2 {
            let right = nums.last();
            let left = nums[nums.len() - 2];
            let combined = Calc::Apply(ops.last(), Box::new(left), Box::new(right));
            sp_drain(nums.drop_last().drop_last().push(combined), ops.drop_last())
        } else {
            Err(EvalError::OperationMismatch)
        }
    }
}

/// One pass of the reduction from token `i` on, with the current value and
/// operator stacks.  An incoming operator reduces at most once — only when
/// the operator on top of the stack binds strictly stronger — and is then
/// pushed unconditionally; a nested call or group is reduced recursively
/// from empty stacks and its result pushed as one value.
pub open spec fn sp_reduce_loop<V>(
    nodes: Seq<SpecCleaned<V>>,
    i: int,
    nums: Seq<Calc<V>>,
    ops: Seq<Operator>,
) -> Result<Calc<V>, EvalError>
    decreases nodes, nodes.len() - i,
    when 0 <= i <= nodes.len()
{
    if i == nodes.len() {
        sp_drain(nums, ops)
    } else {
        match nodes[i] {
            SpecCleaned::BinaryOperationSymbol(op) => {
                if ops.len() > 0 && ops.last().precedence() > op.precedence() {
                    if nums.len() >= 2 {
                        let right = nums.last();
                        let left = nums[nums.len() - 2];
                        let combined = Calc::Apply(ops.last(), Box::new(left), Box::new(right));
                        sp_reduce_loop(
                            nodes,
                            i + 1,
                            nums.drop_last().drop_last().push(combined),
                            ops.drop_last().push(op),
                        )
                    } else {
                        Err(EvalError::OperationMismatch)
                    }
                } else {
                    sp_reduce_loop(nodes, i + 1, nums, ops.push(op))
                }
            },
            SpecCleaned::Int(x) => sp_reduce_loop(nodes, i + 1, nums.push(Calc::Int(x)), ops),
            SpecCleaned::Value(x) => sp_reduce_loop(nodes, i + 1, nums.push(Calc::Value(x)), ops),
            SpecCleaned::BuiltinFunction(ft, inner) => match sp_reduce(inner) {
                Ok(c) => sp_reduce_loop(nodes, i + 1, nums.push(Calc::Call(ft, Box::new(c))), ops),
                Err(e) => Err(e),
            },
            SpecCleaned::Parentheses(inner) => match sp_reduce(inner) {
                Ok(c) => sp_reduce_loop(nodes, i + 1, nums.push(c), ops),
                Err(e) => Err(e),
            },
        }
    }
}

/// What reducing a resolved token list yields: the reduction pass from the
/// first token with both stacks empty.
pub open spec fn sp_reduce<V>(nodes: Seq<SpecCleaned<V>>) -> Result<Calc<V>, EvalError>
    decreases nodes, nodes.len() + 1,
{
    sp_reduce_loop(nodes, 0, Seq::empty(), Seq::empty())
}

impl FuncNode {
    /// Phase one on one token: replaces every environment reference by the
    /// corresponding value, rebuilding nested calls and groups with
    /// substituted children.
    pub fn simplify_to_value<V: Copy>(&self, time_elapsed: V, point_x: V, point_y: V, point_z: V)
        -> (r: FuncNodeCleaned<V>)
        ensures
            clean_view(r) == sp_substitute_node(
                crate::ast::node_view(*self),
                time_elapsed,
                point_x,
                point_y,
                point_z,
            ),
        decreases *self,
    {
        match self {
            FuncNode::Time => FuncNodeCleaned::Value(time_elapsed),
            FuncNode::PointX => FuncNodeCleaned::Value(point_x),
            FuncNode::PointY => FuncNodeCleaned::Value(point_y),
            FuncNode::PointZ => FuncNodeCleaned::Value(point_z),
            FuncNode::Int(x) => FuncNodeCleaned::Int(*x),
            FuncNode::BuiltinFunction(ft, args) => FuncNodeCleaned::BuiltinFunction(
                *ft,
                substitute_nodes(args, time_elapsed, point_x, point_y, point_z),
            ),
            FuncNode::Parentheses(inner) => FuncNodeCleaned::Parentheses(
                substitute_nodes(inner, time_elapsed, point_x, point_y, point_z),
            ),
            FuncNode::BinaryOperationSymbol(op) => FuncNodeCleaned::BinaryOperationSymbol(*op),
        }
    }
}

/// Phase one on a token list, element by element.
pub fn substitute_nodes<V: Copy>(
    nodes: &Vec<FuncNode>,
    time_elapsed: V,
    point_x: V,
    point_y: V,
    point_z: V,
) -> (r: Vec<FuncNodeCleaned<V>>)
    ensures
        cleans_view(r@) == sp_substitute_nodes(
            crate::ast::nodes_view(nodes@),
            time_elapsed,
            point_x,
            point_y,
            point_z,
        ),
    decreases *nodes, 0int,
{
    let ghost sns = crate::ast::nodes_view(nodes@);
    proof {
        crate::ast::lemma_nodes_view_index(nodes@);
        lemma_sp_substitute_nodes_index(sns, time_elapsed, point_x, point_y, point_z);
    }
    let mut out: Vec<FuncNodeCleaned<V>> = Vec::new();
    let mut i: usize = 0;
    while i < nodes.len()
        invariant
            0 <= i <= nodes@.len(),
            sns == crate::ast::nodes_view(nodes@),
            sns.len() == nodes@.len(),
            forall|j: int| 0 <= j < nodes@.len() ==> sns[j] == crate::ast::node_view(nodes@[j]),
            out@.len() == i,
            forall|j: int|
                0 <= j < i ==> clean_view(out@[j]) == sp_substitute_node(
                    sns[j],
                    time_elapsed,
                    point_x,
                    point_y,
                    point_z,
                ),
        decreases nodes@.len() - i,
    {
        proof {
            assert(decreases_to!(nodes@ => nodes@[i as int]));
        }
        let cleaned = nodes[i].simplify_to_value(time_elapsed, point_x, point_y, point_z);
        out.push(cleaned);
        i = i + 1;
    }
    proof {
        lemma_cleans_view_index(out@);
        assert(cleans_view(out@) =~= sp_substitute_nodes(
            sns,
            time_elapsed,
            point_x,
            point_y,
            point_z,
        ));
    }
    out
}

/// Phase two: folds a resolved token list into its arithmetic term with a
/// value stack and an operator stack, exactly as [`sp_reduce`] says.
pub fn reduce_nodes<V: Copy>(nodes: &Vec<FuncNodeCleaned<V>>) -> (r: Result<Calc<V>, EvalError>)
    ensures
        r == sp_reduce(cleans_view(nodes@)),
    decreases *nodes,
{
    let ghost s = cleans_view(nodes@);
    proof {
        lemma_cleans_view_index(nodes@);
    }
    let mut numbers: Vec<Calc<V>> = Vec::new();
    let mut operators: Vec<Operator> = Vec::new();
    let mut i: usize = 0;
    while i < nodes.len()
        invariant
            0 <= i <= nodes@.len(),
            s == cleans_view(nodes@),
            s.len() == nodes@.len(),
            forall|j: int| 0 <= j < nodes@.len() ==> s[j] == clean_view(nodes@[j]),
            sp_reduce(s) == sp_reduce_loop(s, i as int, numbers@, operators@),
        decreases nodes@.len() - i,
    {
        match &nodes[i] {
            FuncNodeCleaned::BinaryOperationSymbol(oper) => {
                if operators.len() > 0 {
                    let stash_op = operators[operators.len() - 1];
                    if stash_op.get_precedence() > oper.get_precedence() {
                        let popped_op = operators.pop();
                        let right_operand = numbers.pop();
                        let left_operand = numbers.pop();
                        if popped_op.is_none() || right_operand.is_none()
                            || left_operand.is_none() {
                            return Err(EvalError::OperationMismatch);
                        }
                        numbers.push(
                            Calc::Apply(
                                popped_op.unwrap(),
                                Box::new(left_operand.unwrap()),
                                Box::new(right_operand.unwrap()),
                            ),
                        );
                    }
                }
                operators.push(*oper);
            },
            FuncNodeCleaned::Int(x) => {
                numbers.push(Calc::Int(*x));
            },
            FuncNodeCleaned::Value(x) => {
                numbers.push(Calc::Value(*x));
            },
            FuncNodeCleaned::BuiltinFunction(ft, inner_nodes) => {
                proof {
                    assert(decreases_to!(nodes@ => nodes@[i as int]));
                }
                match reduce_nodes(inner_nodes) {
                    Ok(c) => {
                        numbers.push(Calc::Call(*ft, Box::new(c)));
                    },
                    Err(e) => {
                        return Err(e);
                    },
                }
            },
            FuncNodeCleaned::Parentheses(inner_nodes) => {
                proof {
                    assert(decreases_to!(nodes@ => nodes@[i as int]));
                }
                match reduce_nodes(inner_nodes) {
                    Ok(c) => {
                        numbers.push(c);
                    },
                    Err(e) => {
                        return Err(e);
                    },
                }
            },
        }
        i = i + 1;
    }
    while operators.len() > 0
        invariant
            s == cleans_view(nodes@),
            sp_reduce(s) == sp_drain(numbers@, operators@),
        decreases operators@.len(),
    {
        let popped_op = operators.pop();
        let right_operand = numbers.pop();
        let left_operand = numbers.pop();
        if right_operand.is_none() || left_operand.is_none() {
            return Err(EvalError::OperationMismatch);
        }
        numbers.push(
            Calc::Apply(
                popped_op.unwrap(),
                Box::new(left_operand.unwrap()),
                Box::new(right_operand.unwrap()),
            ),
        );
    }
    if numbers.len() > 0 {
        Ok(numbers.remove(0))
    } else {
        Err(EvalError::EmptyInput)
    }
}

} // verus!
