use mylang::{interpret, parse, parse_operator, run, type_operator};
use mylang::{BinaryOperator, Env, Error, Node, Value};

fn int_node(n: i64) -> Node {
    Node::Int(n)
}

fn bool_node(b: bool) -> Node {
    Node::Bool(b)
}

fn bin(op: BinaryOperator, l: Node, r: Node) -> Node {
    Node::BinaryExpr { op, lterm: Box::new(l), rterm: Box::new(r) }
}

fn var(name: &str) -> Node {
    Node::Var(name.to_string())
}

fn let_(name: &str, value: Node) -> Node {
    Node::Let(name.to_string(), Box::new(value))
}

#[test]
fn arithmetic_on_trees() {
    assert_eq!(run(vec![bin(BinaryOperator::Plus, int_node(2), int_node(3))]), Ok(Value::Int(5)));
    assert_eq!(run(vec![bin(BinaryOperator::Minus, int_node(2), int_node(3))]), Ok(Value::Int(-1)));
    assert_eq!(run(vec![bin(BinaryOperator::Times, int_node(-4), int_node(3))]), Ok(Value::Int(-12)));
    assert_eq!(run(vec![bin(BinaryOperator::Divides, int_node(-9), int_node(4))]), Ok(Value::Int(-2)));
    assert_eq!(run(vec![bin(BinaryOperator::Divides, int_node(9), int_node(0))]), Err(Error::DivisionByZero));
    assert_eq!(run(vec![bin(BinaryOperator::Plus, int_node(i64::MAX), int_node(1))]), Err(Error::Overflow));
    assert_eq!(run(vec![bin(BinaryOperator::Minus, int_node(i64::MIN), int_node(1))]), Err(Error::Overflow));
}

#[test]
fn comparisons_on_trees() {
    let cases = [
        (BinaryOperator::More, 3, 2, true),
        (BinaryOperator::More, 2, 2, false),
        (BinaryOperator::MoreOrEqual, 2, 2, true),
        (BinaryOperator::Less, 1, 5, true),
        (BinaryOperator::LessOrEqual, 6, 5, false),
        (BinaryOperator::Equal, 4, 4, true),
        (BinaryOperator::Different, 4, 4, false),
    ];
    for (op, a, b, expected) in cases {
        assert_eq!(run(vec![bin(op, int_node(a), int_node(b))]), Ok(Value::Bool(expected)));
    }
}

#[test]
fn logic_on_trees() {
    for a in [false, true] {
        for b in [false, true] {
            assert_eq!(run(vec![bin(BinaryOperator::And, bool_node(a), bool_node(b))]), Ok(Value::Bool(a && b)));
            assert_eq!(run(vec![bin(BinaryOperator::Or, bool_node(a), bool_node(b))]), Ok(Value::Bool(a || b)));
            assert_eq!(run(vec![bin(BinaryOperator::Equal, bool_node(a), bool_node(b))]), Ok(Value::Bool(a == b)));
            assert_eq!(run(vec![bin(BinaryOperator::Different, bool_node(a), bool_node(b))]), Ok(Value::Bool(a != b)));
        }
    }
}

#[test]
fn literals_run_to_themselves() {
    assert_eq!(run(vec![int_node(42)]), Ok(Value::Int(42)));
    assert_eq!(run(vec![bool_node(false)]), Ok(Value::Bool(false)));
    assert_eq!(run(vec![]), Ok(Value::Null));
}

#[test]
fn let_persists_and_overwrites() {
    assert_eq!(run(vec![let_("x", int_node(5)), var("x")]), Ok(Value::Int(5)));
    assert_eq!(run(vec![let_("x", int_node(5)), let_("x", int_node(7)), var("x")]), Ok(Value::Int(7)));
}

#[test]
fn names_are_trimmed() {
    assert_eq!(run(vec![let_(" x\t", int_node(5)), var("x")]), Ok(Value::Int(5)));
    assert_eq!(run(vec![var("  y ")]), Err(Error::UndeclaredVar("y".to_string())));
}

#[test]
fn undeclared_variable() {
    assert_eq!(run(vec![var("x")]), Err(Error::UndeclaredVar("x".to_string())));
}

#[test]
fn mismatched_kinds() {
    assert_eq!(
        run(vec![bin(BinaryOperator::Plus, int_node(2), bool_node(true))]),
        Err(Error::TypeError(Value::Int(2), Value::Bool(true)))
    );
    assert_eq!(
        run(vec![bin(BinaryOperator::Equal, bool_node(false), int_node(0))]),
        Err(Error::TypeError(Value::Bool(false), Value::Int(0)))
    );
}

#[test]
fn operator_kind_mismatch() {
    assert_eq!(
        run(vec![bin(BinaryOperator::And, int_node(3), int_node(2))]),
        Err(Error::OperatorType("Int".to_string(), BinaryOperator::And))
    );
    assert_eq!(
        run(vec![bin(BinaryOperator::Plus, bool_node(true), bool_node(false))]),
        Err(Error::OperatorType("Bool".to_string(), BinaryOperator::Plus))
    );
}

#[test]
fn if_takes_one_branch() {
    let choose = |c: bool| Node::If {
        cond: Box::new(bool_node(c)),
        then_term: Box::new(int_node(1)),
        else_term: Box::new(var("missing")),
    };
    assert_eq!(run(vec![choose(true)]), Ok(Value::Int(1)));
    assert_eq!(run(vec![choose(false)]), Err(Error::UndeclaredVar("missing".to_string())));
    let with_int_cond = Node::If {
        cond: Box::new(int_node(0)),
        then_term: Box::new(int_node(1)),
        else_term: Box::new(int_node(2)),
    };
    assert_eq!(
        run(vec![with_int_cond]),
        Err(Error::UnexpectedType(Value::Int(0), "Bool".to_string()))
    );
}

#[test]
fn binary_operands_see_the_same_bindings() {
    // the left operand's binding is not visible to the right operand
    let left = Node::NodeSeq(vec![let_("t", int_node(1)), int_node(2)]);
    assert_eq!(
        run(vec![bin(BinaryOperator::Plus, left, var("t"))]),
        Err(Error::UndeclaredVar("t".to_string()))
    );
}

#[test]
fn sequences_thread_bindings() {
    let seq = Node::NodeSeq(vec![let_("a", int_node(2)), let_("b", int_node(3)), bin(BinaryOperator::Times, var("a"), var("b"))]);
    assert_eq!(run(vec![seq, var("a")]), Ok(Value::Int(2)));
    assert_eq!(run(vec![Node::NodeSeq(vec![])]), Ok(Value::Null));
}

#[test]
fn interpret_returns_the_environment() {
    let (value, env) = interpret(let_("k", int_node(9)), Env::new()).unwrap();
    assert_eq!(value, Value::Null);
    assert_eq!(env.get(&"k".to_string()), Some(Value::Int(9)));
    let (value, env) = interpret(var("k"), env).unwrap();
    assert_eq!(value, Value::Int(9));
    assert_eq!(env.get(&"other".to_string()), None);
}

#[test]
fn environment_overwrites_in_place() {
    let mut env = Env::new();
    env.insert("a".to_string(), Value::Int(1));
    env.insert("b".to_string(), Value::Bool(true));
    env.insert("a".to_string(), Value::Null);
    assert_eq!(env.get(&"a".to_string()), Some(Value::Null));
    assert_eq!(env.get(&"b".to_string()), Some(Value::Bool(true)));
    let copy = env.snapshot();
    assert_eq!(copy.get(&"a".to_string()), Some(Value::Null));
}

#[test]
fn operator_table_directly() {
    assert_eq!(type_operator(BinaryOperator::Times, Value::Int(6), Value::Int(7)), Ok(Value::Int(42)));
    assert_eq!(
        type_operator(BinaryOperator::Plus, Value::Null, Value::Null),
        Err(Error::TypeError(Value::Null, Value::Null))
    );
}

#[test]
fn operator_spellings() {
    let table = [
        ("+", BinaryOperator::Plus),
        ("-", BinaryOperator::Minus),
        ("*", BinaryOperator::Times),
        ("/", BinaryOperator::Divides),
        ("<", BinaryOperator::Less),
        ("<=", BinaryOperator::LessOrEqual),
        (">", BinaryOperator::More),
        (">=", BinaryOperator::MoreOrEqual),
        ("||", BinaryOperator::Or),
        ("&&", BinaryOperator::And),
        ("==", BinaryOperator::Equal),
        ("!=", BinaryOperator::Different),
    ];
    for (text, op) in table {
        assert_eq!(parse_operator(text), Some(op));
    }
    assert_eq!(parse_operator("=<"), None);
    assert_eq!(parse_operator(""), None);
}

#[test]
fn parse_builds_trees() {
    let nodes = parse("let n = 4; n >= 3").unwrap();
    assert_eq!(nodes.len(), 2);
    match &nodes[0] {
        Node::Let(name, value) => {
            assert_eq!(name, "n");
            assert!(matches!(**value, Node::Int(4)));
        }
        other => panic!("unexpected node {:?}", other),
    }
    match &nodes[1] {
        Node::BinaryExpr { op, lterm, rterm } => {
            assert_eq!(*op, BinaryOperator::MoreOrEqual);
            assert!(matches!(&**lterm, Node::Var(v) if v == "n"));
            assert!(matches!(**rterm, Node::Int(3)));
        }
        other => panic!("unexpected node {:?}", other),
    }
    assert_eq!(run(nodes), Ok(Value::Bool(true)));
}
