//! Runtime values, the operator table and the evaluator.
use vstd::prelude::*;
use vstd::string::StringExecFns;

use crate::ast::{BinaryOperator, Node, NodeModel};
use crate::env::Env;
use crate::errors::{Error, ErrorModel};
use crate::text::{trim, trimmed};

verus! {

/// A runtime value.
#[derive(Debug, Clone, Copy, PartialEq, Eq, Structural)]
pub enum Value {
    Int(i64),
    Bool(bool),
    Null,
}

/// Whether an integer fits in the runtime's integers.
pub open spec fn fits(x: int) -> bool {
    i64::MIN <= x <= i64::MAX
}

/// Integer division rounding toward zero.
pub open spec fn div_trunc(a: int, b: int) -> int
    recommends
        b != 0,
{
    let q = vstd::math::abs(a) as int / vstd::math::abs(b) as int;
    if (a < 0) == (b < 0) {
        q
    } else {
        -q
    }
}

/// An integer result, or `Overflow` when it does not fit.
pub open spec fn int_result(x: int) -> Result<Value, ErrorModel> {
    if fits(x) {
        Ok(Value::Int(x as i64))
    } else {
        Err(ErrorModel::Overflow)
    }
}

/// The operator table: what `op` gives on the operands `l` and `r`.
pub open spec fn apply_op(op: BinaryOperator, l: Value, r: Value) -> Result<Value, ErrorModel> {
    match (l, r) {
        (Value::Int(a), Value::Int(b)) => match op {
            BinaryOperator::Plus => int_result(a + b),
            BinaryOperator::Minus => int_result(a - b),
            BinaryOperator::Times => int_result(a * b),
            BinaryOperator::Divides => if b == 0 {
                Err(ErrorModel::DivisionByZero)
            } else {
                int_result(div_trunc(a as int, b as int))
            },
            BinaryOperator::More => Ok(Value::Bool(a > b)),
            BinaryOperator::MoreOrEqual => Ok(Value::Bool(a >= b)),
            BinaryOperator::Less => Ok(Value::Bool(a < b)),
            BinaryOperator::LessOrEqual => Ok(Value::Bool(a <= b)),
            BinaryOperator::Equal => Ok(Value::Bool(a == b)),
            BinaryOperator::Different => Ok(Value::Bool(a != b)),
            _ => Err(ErrorModel::OperatorType("Int"@, op)),
        },
        (Value::Bool(a), Value::Bool(b)) => match op {
            BinaryOperator::And => Ok(Value::Bool(a && b)),
            BinaryOperator::Or => Ok(Value::Bool(a || b)),
            BinaryOperator::Equal => Ok(Value::Bool(a == b)),
            BinaryOperator::Different => Ok(Value::Bool(a != b)),
            _ => Err(ErrorModel::OperatorType("Bool"@, op)),
        },
        _ => Err(ErrorModel::TypeError(l, r)),
    }
}

/// The model of a value-or-error result.
pub open spec fn value_result(r: Result<Value, Error>) -> Result<Value, ErrorModel> {
    match r {
        Ok(v) => Ok(v),
        Err(e) => Err(e@),
    }
}

/// An integer result of a checked operation, or `Overflow`.
fn int_or_overflow(r: Option<i64>) -> (out: Result<Value, Error>)
    ensures
        value_result(out) == match r {
            Some(x) => Ok(Value::Int(x)),
            None => Err(ErrorModel::Overflow),
        },
{
    match r {
        Some(x) => Ok(Value::Int(x)),
        None => Err(Error::Overflow),
    }
}

/// Applies a binary operator to two evaluated operands.
pub fn type_operator(op: BinaryOperator, t1: Value, t2: Value) -> (r: Result<Value, Error>)
    ensures
        value_result(r) == apply_op(op, t1, t2),
{
    match (t1, t2) {
        (Value::Int(a), Value::Int(b)) => match op {
            BinaryOperator::Plus => int_or_overflow(a.checked_add(b)),
            BinaryOperator::Minus => int_or_overflow(a.checked_sub(b)),
            BinaryOperator::Times => int_or_overflow(a.checked_mul(b)),
            BinaryOperator::Divides => {
                if b == 0 {
                    Err(Error::DivisionByZero)
                } else {
                    int_or_overflow(a.checked_div(b))
                }
            },
            BinaryOperator::More => Ok(Value::Bool(a > b)),
            BinaryOperator::MoreOrEqual => Ok(Value::Bool(a >= b)),
            BinaryOperator::Less => Ok(Value::Bool(a < b)),
            BinaryOperator::LessOrEqual => Ok(Value::Bool(a <= b)),
            BinaryOperator::Equal => Ok(Value::Bool(a == b)),
            BinaryOperator::Different => Ok(Value::Bool(a != b)),
            _ => Err(Error::OperatorType(String::from_str("Int"), op)),
        },
        (Value::Bool(a), Value::Bool(b)) => match op {
            BinaryOperator::And => Ok(Value::Bool(a && b)),
            BinaryOperator::Or => Ok(Value::Bool(a || b)),
            BinaryOperator::Equal => Ok(Value::Bool(a == b)),
            BinaryOperator::Different => Ok(Value::Bool(a != b)),
            _ => Err(Error::OperatorType(String::from_str("Bool"), op)),
        },
        _ => Err(Error::TypeError(t1, t2)),
    }
}

/// The models of a list of nodes.
pub open spec fn models(s: Seq<Node>) -> Seq<NodeModel> {
    Seq::new(s.len(), |i: int| s[i].model())
}

/// What evaluating `n` against the bindings `env` gives: its value and the
/// bindings that follow, or the first error met.
pub open spec fn eval(n: NodeModel, env: Map<Seq<char>, Value>) -> Result<
    (Value, Map<Seq<char>, Value>),
    ErrorModel,
>
    decreases n,
{
    match n {
        NodeModel::Int(i) => Ok((Value::Int(i), env)),
        NodeModel::Bool(b) => Ok((Value::Bool(b), env)),
        NodeModel::NodeSeq(list) => eval_seq(list, env, Value::Null),
        NodeModel::BinaryExpr { op, lterm, rterm } => match eval(*lterm, env) {
            Err(e) => Err(e),
            Ok((l, _)) => match eval(*rterm, env) {
                Err(e) => Err(e),
                Ok((r, _)) => match apply_op(op, l, r) {
                    Err(e) => Err(e),
                    Ok(v) => Ok((v, env)),
                },
            },
        },
        NodeModel::If { cond, then_term, else_term } => match eval(*cond, env) {
            Err(e) => Err(e),
            Ok((Value::Bool(b), after)) => if b {
                eval(*then_term, after)
            } else {
                eval(*else_term, after)
            },
            Ok((c, _)) => Err(ErrorModel::UnexpectedType(c, "Bool"@)),
        },
        NodeModel::Let(name, value) => match eval(*value, env) {
            Err(e) => Err(e),
            Ok((v, _)) => Ok((Value::Null, env.insert(trimmed(name), v))),
        },
        NodeModel::Var(name) => if env.contains_key(trimmed(name)) {
            Ok((env[trimmed(name)], env))
        } else {
            Err(ErrorModel::UndeclaredVar(trimmed(name)))
        },
    }
}

/// Evaluates `list` left to right, each node against the bindings that the
/// one before it left; gives the value of the last node (`last` where `list`
/// is empty), or the first error met.
pub open spec fn eval_seq(list: Seq<NodeModel>, env: Map<Seq<char>, Value>, last: Value) -> Result<
    (Value, Map<Seq<char>, Value>),
    ErrorModel,
>
    decreases list,
{
    if list.len() == 0 {
        Ok((last, env))
    } else {
        match eval(list[0], env) {
            Err(e) => Err(e),
            Ok((v, after)) => eval_seq(list.subrange(1, list.len() as int), after, v),
        }
    }
}

/// What running a program gives: its nodes evaluated in order from no
/// bindings; the value of the last one, `Null` for none, or the first error.
pub open spec fn run_spec(nodes: Seq<NodeModel>) -> Result<Value, ErrorModel> {
    match eval_seq(nodes, Map::empty(), Value::Null) {
        Ok((v, _)) => Ok(v),
        Err(e) => Err(e),
    }
}

/// The model of an evaluation result.
pub open spec fn eval_result(r: Result<(Value, Env), Error>) -> Result<
    (Value, Map<Seq<char>, Value>),
    ErrorModel,
> {
    match r {
        Ok((v, env)) => Ok((v, env@)),
        Err(e) => Err(e@),
    }
}

/// The environment of a successful evaluation is well formed.
pub open spec fn wf_result(r: Result<(Value, Env), Error>) -> bool {
    match r {
        Ok((_, env)) => env.wf(),
        Err(_) => true,
    }
}

/// Evaluates `node` against `env`, as `eval` says.
fn evaluate(node: &Node, env: Env) -> (r: Result<(Value, Env), Error>)
    requires
        env.wf(),
    ensures
        eval_result(r) == eval(node.model(), env@),
        wf_result(r),
    decreases node,
{
    match node {
        Node::Int(n) => Ok((Value::Int(*n), env)),
        Node::Bool(b) => Ok((Value::Bool(*b), env)),
        Node::NodeSeq(list) => {
            assert(node.model()->NodeSeq_0 =~= models(list@));
            evaluate_list(list, env)
        },
        Node::BinaryExpr { op, lterm, rterm } => {
            let l = match evaluate(lterm, env.snapshot()) {
                Err(e) => return Err(e),
                Ok((l, _)) => l,
            };
            let r = match evaluate(rterm, env.snapshot()) {
                Err(e) => return Err(e),
                Ok((r, _)) => r,
            };
            match type_operator(*op, l, r) {
                Err(e) => Err(e),
                Ok(v) => Ok((v, env)),
            }
        },
        Node::If { cond, then_term, else_term } => match evaluate(cond, env) {
            Err(e) => Err(e),
            Ok((Value::Bool(b), after)) => {
                if b {
                    evaluate(then_term, after)
                } else {
                    evaluate(else_term, after)
                }
            },
            Ok((c, _)) => Err(Error::UnexpectedType(c, String::from_str("Bool"))),
        },
        Node::Let(name, value) => match evaluate(value, env.snapshot()) {
            Err(e) => Err(e),
            Ok((v, _)) => {
                let mut env = env;
                env.insert(trim(name), v);
                Ok((Value::Null, env))
            },
        },
        Node::Var(name) => {
            let key = trim(name);
            match env.get(&key) {
                Some(v) => Ok((v, env)),
                None => Err(Error::UndeclaredVar(key)),
            }
        },
    }
}

/// Evaluates the nodes of `list` in order, threading the environment.
fn evaluate_list(list: &Vec<Node>, env: Env) -> (r: Result<(Value, Env), Error>)
    requires
        env.wf(),
    ensures
        eval_result(r) == eval_seq(models(list@), env@, Value::Null),
        wf_result(r),
    decreases list,
{
    let ghost all = models(list@);
    let ghost start = env@;
    let mut cur = env;
    let mut last = Value::Null;
    let mut i: usize = 0;
    assert(all.subrange(0, all.len() as int) =~= all);
    while i < list.len()
        invariant
            cur.wf(),
            i <= list@.len(),
            all == models(list@),
            start == env@,
            eval_seq(all, start, Value::Null) == eval_seq(
                all.subrange(i as int, all.len() as int),
                cur@,
                last,
            ),
        decreases list@.len() - i,
    {
        let ghost rest = all.subrange(i as int, all.len() as int);
        assert(rest[0] == list@[i as int].model());
        assert(rest.subrange(1, rest.len() as int) =~= all.subrange(i + 1, all.len() as int));
        let ghost before = cur@;
        match evaluate(&list[i], cur) {
            Err(e) => return Err(e),
            Ok((v, after)) => {
                cur = after;
                last = v;
            },
        }
        i = i + 1;
    }
    assert(all.subrange(i as int, all.len() as int) =~= Seq::<NodeModel>::empty());
    Ok((last, cur))
}

/// Evaluates `node` against `env`: its value and the environment that follows,
/// or the first error met.
pub fn interpret(node: Node, env: Env) -> (r: Result<(Value, Env), Error>)
    requires
        env.wf(),
    ensures
        eval_result(r) == eval(node.model(), env@),
        wf_result(r),
{
    evaluate(&node, env)
}

/// Runs a program: evaluates its nodes in order, from an empty environment,
/// each against the bindings that the ones before it left. Gives the value of
/// the last node, `Null` for an empty program, or the first error met.
pub fn run(nodes: Vec<Node>) -> (r: Result<Value, Error>)
    ensures
        value_result(r) == run_spec(models(nodes@)),
{
    match evaluate_list(&nodes, Env::new()) {
        Ok((v, _)) => Ok(v),
        Err(e) => Err(e),
    }
}

} // verus!
