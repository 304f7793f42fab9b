use rlisp::data::Boolean;
use rlisp::data::Number;
use rlisp::data::Object;
use rlisp::env::Env;
use rlisp::eval::EvalError;
use rlisp::eval::run_exprs;
use rlisp::parser::parse;

fn arith_value(src: &str) -> Object {
    let exprs = parse(&String::from(src)).expect("the test program should parse");
    let mut env = Env::new();
    let mut out: Vec<String> = Vec::new();
    let (_, results) = run_exprs(&exprs, &mut env, &mut out);
    results
        .into_iter()
        .last()
        .expect("at least one result")
        .expect("evaluation should succeed")
        .expect("a value")
}

fn arith_error(src: &str) -> EvalError {
    let exprs = parse(&String::from(src)).expect("the test program should parse");
    let mut env = Env::new();
    let mut out: Vec<String> = Vec::new();
    let (_, results) = run_exprs(&exprs, &mut env, &mut out);
    match results.into_iter().last().expect("at least one result") {
        Err(e) => e,
        Ok(v) => panic!("expected an error, got {:?}", v),
    }
}

fn float_text(v: Object) -> String {
    match v {
        Object::Number(Number::Float(t)) => t,
        other => panic!("expected a float, got {:?}", other),
    }
}

#[test]
fn integer_addition_folds() {
    assert!(matches!(arith_value("(+ 1 2 3)"), Object::Number(Number::Int(6))));
}

#[test]
fn integer_subtraction_and_product() {
    assert!(matches!(arith_value("(- 10 3 2)"), Object::Number(Number::Int(5))));
    assert!(matches!(arith_value("(* 2 3 4)"), Object::Number(Number::Int(24))));
}

#[test]
fn integer_division_truncates_toward_zero() {
    assert!(matches!(arith_value("(/ 7 2)"), Object::Number(Number::Int(3))));
    assert!(matches!(arith_value("(/ -7 2)"), Object::Number(Number::Int(-3))));
}

#[test]
fn integer_remainder_follows_dividend() {
    assert!(matches!(arith_value("(% 7 2)"), Object::Number(Number::Int(1))));
    assert!(matches!(arith_value("(% -7 2)"), Object::Number(Number::Int(-1))));
}

#[test]
fn division_by_zero_is_an_error() {
    assert!(matches!(arith_error("(/ 1 0)"), EvalError::DivisionByZero));
    assert!(matches!(arith_error("(% 1 0)"), EvalError::DivisionByZero));
}

#[test]
fn integer_overflow_is_an_error() {
    assert!(matches!(
        arith_error("(+ 9223372036854775807 1)"),
        EvalError::NumericOverflow
    ));
    assert!(matches!(
        arith_error("(* 4611686018427387904 2)"),
        EvalError::NumericOverflow
    ));
}

#[test]
fn arithmetic_needs_two_numbers() {
    assert!(matches!(arith_error("(+ 1)"), EvalError::TypeMismatch));
    assert!(matches!(arith_error("(+ 1 true)"), EvalError::TypeMismatch));
}

#[test]
fn mixed_arithmetic_promotes_to_float() {
    // the integer side is promoted and the result text is regenerated
    assert_eq!(float_text(arith_value("(+ 1 2.0)")).as_str(), "3");
}

#[test]
fn float_arithmetic_regenerates_text() {
    assert_eq!(float_text(arith_value("(/ 1.0 2.0)")).as_str(), "0.5");
    assert_eq!(float_text(arith_value("(+ 0.5 0.25)")).as_str(), "0.75");
    assert_eq!(float_text(arith_value("(* 1.5 2)")).as_str(), "3");
}

#[test]
fn float_remainder() {
    assert_eq!(float_text(arith_value("(% 7.5 2)")).as_str(), "1.5");
}

#[test]
fn leading_point_literals_compute() {
    assert_eq!(float_text(arith_value("(+ .5 1.0)")).as_str(), "1.5");
}

#[test]
fn float_equality_is_textual() {
    // 1.50 and 1.5 denote the same number yet stay different values
    assert!(matches!(
        arith_value("(= 1.50 1.5)"),
        Object::Boolean(Boolean::False)
    ));
    assert!(matches!(
        arith_value("(= 1.5 1.5)"),
        Object::Boolean(Boolean::True)
    ));
}
