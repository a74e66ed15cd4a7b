use mylang::{run_source, Error, Value};

#[test]
fn simple_test() {
    assert_eq!(run_source("3"), Ok(Value::Int(3)));
    assert_eq!(run_source("((2))"), Ok(Value::Int(2)));
    assert_eq!(run_source("(26)"), Ok(Value::Int(26)));
    assert!(matches!(run_source("(2))"), Err(_)));
}

#[test]
fn binary_tests() {
    assert_eq!(run_source("3 -2"), Ok(Value::Int(1)));
    assert_eq!(run_source("4+ 3"), Ok(Value::Int(7)));
    assert_eq!(run_source("6  *7"), Ok(Value::Int(42)));
    assert_eq!(run_source(" 5/ 4"), Ok(Value::Int(1)));
    assert_eq!(run_source("(3-2)"), Ok(Value::Int(1)));
    assert_eq!(run_source("(5*4)-(60/3)"), Ok(Value::Int(0)));
}

#[test]
fn boolean_test() {
    assert_eq!(run_source("3>2"), Ok(Value::Bool(true)));
    assert_eq!(run_source("5<1"), Ok(Value::Bool(false)));
    assert_eq!(run_source("(3+2) == 5"), Ok(Value::Bool(true)));
    assert_eq!(run_source("(2+2) != 4"), Ok(Value::Bool(false)));
}

#[test]
fn type_test() {
    assert!(matches!(run_source("2+True"), Err(_)));
    assert!(matches!(run_source("False -3"), Err(_)));
    assert!(matches!(run_source("False>3"), Err(_)));
    assert!(matches!(run_source("3 && 2"), Err(_)));
    assert!(matches!(run_source("True || 24"), Err(_)));
}

#[test]
fn end_to_end_scenarios() {
    assert_eq!(run_source("3"), Ok(Value::Int(3)));
    assert_eq!(run_source("4+3"), Ok(Value::Int(7)));
    assert_eq!(run_source("(5*4)-(60/3)"), Ok(Value::Int(0)));
    assert_eq!(run_source("3>2"), Ok(Value::Bool(true)));
    assert_eq!(run_source("(3+2)==5"), Ok(Value::Bool(true)));
}

#[test]
fn type_errors_carry_operands() {
    assert_eq!(
        run_source("2+True"),
        Err(Error::TypeError(Value::Int(2), Value::Bool(true)))
    );
    assert_eq!(
        run_source("3 && 2"),
        Err(Error::OperatorType("Int".to_string(), mylang::BinaryOperator::And))
    );
    assert_eq!(
        run_source("True < False"),
        Err(Error::OperatorType("Bool".to_string(), mylang::BinaryOperator::Less))
    );
}

#[test]
fn let_bindings_in_source() {
    assert_eq!(run_source("let x = 5; x"), Ok(Value::Int(5)));
    assert_eq!(run_source("let x = 5; let x = 7; x"), Ok(Value::Int(7)));
    assert_eq!(run_source("let abc = 2; let b_2 = abc * 10; b_2 + 1"), Ok(Value::Int(21)));
    assert_eq!(run_source("let x = 5"), Ok(Value::Null));
    assert_eq!(run_source("y"), Err(Error::UndeclaredVar("y".to_string())));
}

#[test]
fn conditionals_in_source() {
    assert_eq!(run_source("if 3 > 2 { 1 } else { 2 }"), Ok(Value::Int(1)));
    assert_eq!(run_source("if False { 1 } else { 2 }"), Ok(Value::Int(2)));
    assert_eq!(run_source("if True { 1 } else { nope }"), Ok(Value::Int(1)));
    assert_eq!(
        run_source("if 1 { 1 } else { 2 }"),
        Err(Error::UnexpectedType(Value::Int(1), "Bool".to_string()))
    );
    assert_eq!(run_source("if True { let z = 4 } else { 0 }; z"), Ok(Value::Int(4)));
}

#[test]
fn blocks_and_sequences() {
    assert_eq!(run_source(""), Ok(Value::Null));
    assert_eq!(run_source("{}"), Ok(Value::Null));
    assert_eq!(run_source("1; 2; 3;"), Ok(Value::Int(3)));
    assert_eq!(run_source("{ let y = 2; y * 3 }"), Ok(Value::Int(6)));
    assert_eq!(run_source("1; nope; 3"), Err(Error::UndeclaredVar("nope".to_string())));
}

#[test]
fn integer_edges() {
    assert_eq!(run_source("-5"), Ok(Value::Int(-5)));
    assert_eq!(run_source("3 - -2"), Ok(Value::Int(5)));
    assert_eq!(run_source("-7 / 2"), Ok(Value::Int(-3)));
    assert_eq!(run_source("7 / -2"), Ok(Value::Int(-3)));
    assert_eq!(run_source("9223372036854775807"), Ok(Value::Int(i64::MAX)));
    assert_eq!(run_source("-9223372036854775808"), Ok(Value::Int(i64::MIN)));
    assert_eq!(run_source("9223372036854775807 + 1"), Err(Error::Overflow));
    assert_eq!(run_source("-9223372036854775808 / -1"), Err(Error::Overflow));
    assert_eq!(run_source("4000000000 * 4000000000"), Err(Error::Overflow));
    assert_eq!(run_source("1 / 0"), Err(Error::DivisionByZero));
    assert_eq!(
        run_source("9223372036854775808"),
        Err(Error::Parsing("9223372036854775808".to_string()))
    );
}

#[test]
fn syntax_errors() {
    assert_eq!(run_source("3 <> 2"), Err(Error::Operator("<>".to_string())));
    assert_eq!(run_source("3 = 2"), Err(Error::Operator("=".to_string())));
    assert_eq!(run_source("(1"), Err(Error::Parsing("(1".to_string())));
    assert_eq!(run_source("let if = 2"), Err(Error::Parsing("let if = 2".to_string())));
    assert_eq!(run_source("1 2"), Err(Error::Parsing("1 2".to_string())));
    assert_eq!(run_source("if True { 1 }"), Err(Error::Parsing("if True { 1 }".to_string())));
    assert!(matches!(run_source("}"), Err(Error::Parsing(_))));
}
