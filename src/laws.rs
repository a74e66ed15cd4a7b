//! Laws that relate programs to the values they run to.
use vstd::prelude::*;

use crate::ast::{BinaryOperator, NodeModel};
use crate::errors::ErrorModel;
use crate::interpret::{div_trunc, eval, eval_seq, fits, run_spec, Value};
use crate::text::trimmed;

verus! {

/// The program made of the single binary expression `op l r`.
pub open spec fn binary_program(op: BinaryOperator, l: NodeModel, r: NodeModel) -> Seq<NodeModel> {
    seq![NodeModel::BinaryExpr { op, lterm: Box::new(l), rterm: Box::new(r) }]
}

/// A program of one node runs to what that node evaluates to from no
/// bindings.
pub broadcast proof fn lemma_run_single(n: NodeModel)
    ensures
        #[trigger] run_spec(seq![n]) == match eval(n, Map::empty()) {
            Ok((v, _)) => Ok(v),
            Err(e) => Err(e),
        },
{
    let s = seq![n];
    assert(s.subrange(1, 1) =~= Seq::<NodeModel>::empty());
    reveal_with_fuel(eval_seq, 2);
}

/// A program of one binary expression runs to what the operator gives on
/// what its operands evaluate to.
pub broadcast proof fn lemma_run_binary(op: BinaryOperator, l: NodeModel, r: NodeModel)
    ensures
        #[trigger] run_spec(binary_program(op, l, r)) == match eval(
            NodeModel::BinaryExpr { op, lterm: Box::new(l), rterm: Box::new(r) },
            Map::empty(),
        ) {
            Ok((v, _)) => Ok(v),
            Err(e) => Err(e),
        },
{
    lemma_run_single(NodeModel::BinaryExpr { op, lterm: Box::new(l), rterm: Box::new(r) });
}

/// Integer arithmetic runs to the exact sum, difference, product and
/// quotient rounded toward zero, whenever that result fits in 64 bits and
/// the divisor is not zero.
pub proof fn lemma_arithmetic(a: i64, b: i64)
    ensures
        fits(a + b) ==> run_spec(
            binary_program(BinaryOperator::Plus, NodeModel::Int(a), NodeModel::Int(b)),
        ) == Ok::<Value, ErrorModel>(Value::Int((a + b) as i64)),
        fits(a - b) ==> run_spec(
            binary_program(BinaryOperator::Minus, NodeModel::Int(a), NodeModel::Int(b)),
        ) == Ok::<Value, ErrorModel>(Value::Int((a - b) as i64)),
        fits(a * b) ==> run_spec(
            binary_program(BinaryOperator::Times, NodeModel::Int(a), NodeModel::Int(b)),
        ) == Ok::<Value, ErrorModel>(Value::Int((a * b) as i64)),
        b != 0 && fits(div_trunc(a as int, b as int)) ==> run_spec(
            binary_program(BinaryOperator::Divides, NodeModel::Int(a), NodeModel::Int(b)),
        ) == Ok::<Value, ErrorModel>(Value::Int(div_trunc(a as int, b as int) as i64)),
{
    broadcast use lemma_run_binary;

    reveal_with_fuel(eval, 2);
}

/// Comparisons of integers run to the booleans of the integer order.
pub proof fn lemma_comparisons(a: i64, b: i64)
    ensures
        run_spec(binary_program(BinaryOperator::More, NodeModel::Int(a), NodeModel::Int(b)))
            == Ok::<Value, ErrorModel>(Value::Bool(a > b)),
        run_spec(
            binary_program(BinaryOperator::MoreOrEqual, NodeModel::Int(a), NodeModel::Int(b)),
        ) == Ok::<Value, ErrorModel>(Value::Bool(a >= b)),
        run_spec(binary_program(BinaryOperator::Less, NodeModel::Int(a), NodeModel::Int(b)))
            == Ok::<Value, ErrorModel>(Value::Bool(a < b)),
        run_spec(
            binary_program(BinaryOperator::LessOrEqual, NodeModel::Int(a), NodeModel::Int(b)),
        ) == Ok::<Value, ErrorModel>(Value::Bool(a <= b)),
        run_spec(binary_program(BinaryOperator::Equal, NodeModel::Int(a), NodeModel::Int(b)))
            == Ok::<Value, ErrorModel>(Value::Bool(a == b)),
        run_spec(
            binary_program(BinaryOperator::Different, NodeModel::Int(a), NodeModel::Int(b)),
        ) == Ok::<Value, ErrorModel>(Value::Bool(a != b)),
{
    broadcast use lemma_run_binary;

    reveal_with_fuel(eval, 2);
}

/// `&&`, `||`, `==` and `!=` on booleans run to the booleans of logic.
pub proof fn lemma_logic(a: bool, b: bool)
    ensures
        run_spec(binary_program(BinaryOperator::And, NodeModel::Bool(a), NodeModel::Bool(b)))
            == Ok::<Value, ErrorModel>(Value::Bool(a && b)),
        run_spec(binary_program(BinaryOperator::Or, NodeModel::Bool(a), NodeModel::Bool(b)))
            == Ok::<Value, ErrorModel>(Value::Bool(a || b)),
        run_spec(binary_program(BinaryOperator::Equal, NodeModel::Bool(a), NodeModel::Bool(b)))
            == Ok::<Value, ErrorModel>(Value::Bool(a == b)),
        run_spec(
            binary_program(BinaryOperator::Different, NodeModel::Bool(a), NodeModel::Bool(b)),
        ) == Ok::<Value, ErrorModel>(Value::Bool(a != b)),
{
    broadcast use lemma_run_binary;

    reveal_with_fuel(eval, 2);
}

/// A literal runs to itself.
pub proof fn lemma_literals(n: i64, b: bool)
    ensures
        run_spec(seq![NodeModel::Int(n)]) == Ok::<Value, ErrorModel>(Value::Int(n)),
        run_spec(seq![NodeModel::Bool(b)]) == Ok::<Value, ErrorModel>(Value::Bool(b)),
{
    broadcast use lemma_run_single;

    reveal_with_fuel(eval, 2);
}

/// A `let` binding is seen by the nodes after it, and a second `let` of the
/// same name replaces the first.
pub proof fn lemma_let_persists(name: Seq<char>, n: i64, m: i64)
    ensures
        run_spec(
            seq![NodeModel::Let(name, Box::new(NodeModel::Int(n))), NodeModel::Var(name)],
        ) == Ok::<Value, ErrorModel>(Value::Int(n)),
        run_spec(
            seq![
                NodeModel::Let(name, Box::new(NodeModel::Int(n))),
                NodeModel::Let(name, Box::new(NodeModel::Int(m))),
                NodeModel::Var(name),
            ],
        ) == Ok::<Value, ErrorModel>(Value::Int(m)),
{
    let bind_n = NodeModel::Let(name, Box::new(NodeModel::Int(n)));
    let bind_m = NodeModel::Let(name, Box::new(NodeModel::Int(m)));
    let read = NodeModel::Var(name);
    let once = seq![bind_n, read];
    let twice = seq![bind_n, bind_m, read];
    assert(once.subrange(1, 2) =~= seq![read]);
    assert(twice.subrange(1, 3) =~= seq![bind_m, read]);
    assert(seq![bind_m, read].subrange(1, 2) =~= seq![read]);
    assert(seq![read].subrange(1, 1) =~= Seq::<NodeModel>::empty());
    reveal_with_fuel(eval, 2);
    reveal_with_fuel(eval_seq, 2);
    let env_n = Map::<Seq<char>, Value>::empty().insert(trimmed(name), Value::Int(n));
    assert(eval_seq(seq![read], env_n, Value::Null) == Ok::<
        (Value, Map<Seq<char>, Value>),
        ErrorModel,
    >((Value::Int(n), env_n)));
    let env_m = env_n.insert(trimmed(name), Value::Int(m));
    assert(eval_seq(seq![read], env_m, Value::Null) == Ok::<
        (Value, Map<Seq<char>, Value>),
        ErrorModel,
    >((Value::Int(m), env_m)));
    assert(once[0] == bind_n && twice[0] == bind_n && seq![bind_m, read][0] == bind_m);
    assert(eval(bind_n, Map::empty()) == Ok::<(Value, Map<Seq<char>, Value>), ErrorModel>(
        (Value::Null, env_n),
    ));
    assert(eval(bind_m, env_n) == Ok::<(Value, Map<Seq<char>, Value>), ErrorModel>(
        (Value::Null, env_m),
    ));
    assert(eval_seq(once, Map::empty(), Value::Null) == eval_seq(seq![read], env_n, Value::Null));
    assert(eval_seq(seq![bind_m, read], env_n, Value::Null) == eval_seq(
        seq![read],
        env_m,
        Value::Null,
    ));
    assert(eval_seq(twice, Map::empty(), Value::Null) == eval_seq(
        seq![bind_m, read],
        env_n,
        Value::Null,
    ));
}

/// Reading a variable that no `let` bound fails with its name.
pub proof fn lemma_undeclared(name: Seq<char>)
    ensures
        run_spec(seq![NodeModel::Var(name)]) == Err::<Value, ErrorModel>(
            ErrorModel::UndeclaredVar(trimmed(name)),
        ),
{
    broadcast use lemma_run_single;

    reveal_with_fuel(eval, 2);
}

/// Any operator on an integer and a boolean, in either order, fails with both
/// operands.
pub proof fn lemma_mixed_kinds(op: BinaryOperator, a: i64, b: bool)
    ensures
        run_spec(binary_program(op, NodeModel::Int(a), NodeModel::Bool(b))) == Err::<
            Value,
            ErrorModel,
        >(ErrorModel::TypeError(Value::Int(a), Value::Bool(b))),
        run_spec(binary_program(op, NodeModel::Bool(b), NodeModel::Int(a))) == Err::<
            Value,
            ErrorModel,
        >(ErrorModel::TypeError(Value::Bool(b), Value::Int(a))),
{
    broadcast use lemma_run_binary;

    reveal_with_fuel(eval, 2);
}

/// The boolean operators do not apply to integers, and arithmetic and order
/// do not apply to booleans.
pub proof fn lemma_operator_kinds(op: BinaryOperator, a: i64, b: i64, p: bool, q: bool)
    ensures
        op == BinaryOperator::And || op == BinaryOperator::Or ==> run_spec(
            binary_program(op, NodeModel::Int(a), NodeModel::Int(b)),
        ) == Err::<Value, ErrorModel>(ErrorModel::OperatorType("Int"@, op)),
        op != BinaryOperator::And && op != BinaryOperator::Or && op != BinaryOperator::Equal
            && op != BinaryOperator::Different ==> run_spec(
            binary_program(op, NodeModel::Bool(p), NodeModel::Bool(q)),
        ) == Err::<Value, ErrorModel>(ErrorModel::OperatorType("Bool"@, op)),
{
    broadcast use lemma_run_binary;

    reveal_with_fuel(eval, 2);
}

/// A conditional on a boolean literal runs exactly as its chosen branch does
/// alone, whatever the other branch holds.
pub proof fn lemma_if_selects(b: bool, then_term: NodeModel, else_term: NodeModel)
    ensures
        run_spec(
            seq![
                NodeModel::If {
                    cond: Box::new(NodeModel::Bool(b)),
                    then_term: Box::new(then_term),
                    else_term: Box::new(else_term),
                },
            ],
        ) == (if b {
            run_spec(seq![then_term])
        } else {
            run_spec(seq![else_term])
        }),
{
    broadcast use lemma_run_single;

    reveal_with_fuel(eval, 2);
}

} // verus!
