use rlisp::data::Boolean;
use rlisp::data::Expr;
use rlisp::data::Inhibit;
use rlisp::data::Number;
use rlisp::data::Object;
use rlisp::data::obj_eq;
use rlisp::env::Env;
use rlisp::eval::EvalError;
use rlisp::eval::run_exprs;
use rlisp::parser::parse;

type Outcome = Result<Option<Object>, EvalError>;

fn run_program(src: &str) -> (Inhibit, Vec<Outcome>, Vec<String>) {
    let exprs = parse(&String::from(src)).expect("the test program should parse");
    let mut env = Env::new();
    let mut out: Vec<String> = Vec::new();
    let (inhibit, results) = run_exprs(&exprs, &mut env, &mut out);
    (inhibit, results, out)
}

fn last_value(src: &str) -> Object {
    let (_, results, _) = run_program(src);
    results
        .into_iter()
        .last()
        .expect("at least one result")
        .expect("evaluation should succeed")
        .expect("the last form should produce a value")
}

fn last_error(src: &str) -> EvalError {
    let (_, results, _) = run_program(src);
    match results.into_iter().last().expect("at least one result") {
        Err(e) => e,
        Ok(v) => panic!("expected an error, got {:?}", v),
    }
}

#[test]
fn define_then_use() {
    let v = last_value("(define x 5) x");
    assert!(matches!(v, Object::Number(Number::Int(5))));
}

#[test]
fn redefinition_is_refused() {
    let e = last_error("(define x 5) (define x 6)");
    assert!(matches!(e, EvalError::Redefinition(ref n) if n == "x"));
}

#[test]
fn square_function() {
    let v = last_value("(define (square n) (* n n)) (square 4)");
    assert!(matches!(v, Object::Number(Number::Int(16))));
}

#[test]
fn lambda_applies() {
    let v = last_value("(define sq (lambda (n) (* n n))) (sq 3)");
    assert!(matches!(v, Object::Number(Number::Int(9))));
}

#[test]
fn cond_picks_else_branch() {
    let v = last_value("(cond [ (= 1 2) \"a\" ] [ else \"b\" ])");
    assert!(matches!(v, Object::Str(ref s) if s == "b"));
}

#[test]
fn cond_picks_first_true_case() {
    let v = last_value("(cond [ (= 1 1) 10 ] [ else 20 ])");
    assert!(matches!(v, Object::Number(Number::Int(10))));
}

#[test]
fn cond_without_final_else_is_an_error() {
    let e = last_error("(cond [ (= 1 2) \"a\" ] [ (= 1 1) \"b\" ])");
    assert!(matches!(e, EvalError::ConditionalError));
}

#[test]
fn cond_case_must_be_boolean() {
    let e = last_error("(cond [ 5 \"a\" ] [ else \"b\" ])");
    assert!(matches!(e, EvalError::ConditionalError));
}

#[test]
fn exit_short_circuits_a_sequence() {
    let (inhibit, results, _) = run_program("(list 1 (exit \"bye\") 2)");
    match inhibit {
        Inhibit::Stop(Some(m)) => assert_eq!(m.as_str(), "bye"),
        other => panic!("expected a stop with a message, got {:?}", other),
    }
    assert!(results.is_empty());
}

#[test]
fn exit_without_argument_has_no_message() {
    let (inhibit, _, _) = run_program("(exit)");
    assert!(matches!(inhibit, Inhibit::Stop(None)));
}

#[test]
fn arity_mismatch_is_an_error() {
    let e = last_error("(define (square n) (* n n)) (square 4 5)");
    assert!(matches!(e, EvalError::ArityMismatch(1, 2)));
}

#[test]
fn undefined_variable() {
    let e = last_error("nope");
    assert!(matches!(e, EvalError::UndefinedVariable(ref n) if n == "nope"));
}

#[test]
fn undefined_function() {
    let e = last_error("(nope 1)");
    assert!(matches!(e, EvalError::UndefinedFunction(ref n) if n == "nope"));
}

#[test]
fn calling_a_number_is_no_function() {
    let e = last_error("(1 2)");
    assert!(matches!(e, EvalError::NotAFunction(_)));
}

#[test]
fn cons_element_onto_list() {
    let v = last_value("(cons (list 1 2) 3)");
    let want = last_value("(list 1 2 3)");
    assert!(obj_eq(&v, &want));
}

#[test]
fn cons_element_before_list() {
    let v = last_value("(cons 1 (list 2 3))");
    let want = last_value("(list 1 2 3)");
    assert!(obj_eq(&v, &want));
}

#[test]
fn cons_two_lists_is_an_error() {
    let e = last_error("(cons (list 1) (list 2))");
    assert!(matches!(e, EvalError::CannotConsTwoLists));
}

#[test]
fn cons_two_plain_values() {
    let v = last_value("(cons 1 2)");
    let want = last_value("(list 1 2)");
    assert!(obj_eq(&v, &want));
}

#[test]
fn equals_compares_structurally() {
    let v = last_value("(= (list 1 2) (list 1 2))");
    assert!(matches!(v, Object::Boolean(Boolean::True)));
    let w = last_value("(= 1 1 2)");
    assert!(matches!(w, Object::Boolean(Boolean::False)));
}

#[test]
fn boolean_operations() {
    assert!(matches!(last_value("(and true true)"), Object::Boolean(Boolean::True)));
    assert!(matches!(last_value("(or false true)"), Object::Boolean(Boolean::True)));
    assert!(matches!(last_value("(not true)"), Object::Boolean(Boolean::False)));
    assert!(matches!(last_error("(and 1 true)"), EvalError::TypeMismatch));
    assert!(matches!(last_error("(not true false)"), EvalError::ArgCountError));
}

#[test]
fn print_appends_to_output() {
    let (_, _, out) = run_program("(print \"hi\") (print 42)");
    assert_eq!(out.len(), 2);
    assert_eq!(out[0].as_str(), "\"hi\"");
    assert_eq!(out[1].as_str(), "42");
}

#[test]
fn function_passed_as_argument_is_applied() {
    let v = last_value("(define (twice f x) (f (f x))) (define (inc n) (+ n 1)) (twice inc 1)");
    assert!(matches!(v, Object::Number(Number::Int(3))));
}

#[test]
fn nested_head_expression() {
    let v = last_value("((lambda (n) (* n 2)) 21)");
    assert!(matches!(v, Object::Number(Number::Int(42))));
}

#[test]
fn define_produces_no_value_and_run_goes_on() {
    let (inhibit, results, _) = run_program("(define x 1) x");
    assert!(matches!(inhibit, Inhibit::Continue));
    assert_eq!(results.len(), 2);
    assert!(matches!(results[0], Ok(None)));
}

#[test]
fn error_does_not_stop_the_run() {
    let (inhibit, results, _) = run_program("missing 7");
    assert!(matches!(inhibit, Inhibit::Continue));
    assert!(matches!(results[0], Err(EvalError::UndefinedVariable(_))));
    assert!(matches!(results[1], Ok(Some(Object::Number(Number::Int(7))))));
}

#[test]
fn redefinition_leaves_the_binding() {
    let (_, results, _) = run_program("(define x 5) (define x 6) x");
    assert!(matches!(results[1], Err(EvalError::Redefinition(_))));
    match &results[2] {
        Ok(Some(Object::Number(Number::Int(5)))) => {},
        other => panic!("x should still be 5, got {:?}", other),
    }
}
