use rlisp::data::Inhibit;
use rlisp::data::Number;
use rlisp::data::Object;
use rlisp::env::Env;
use rlisp::eval::EvalError;
use rlisp::eval::run_exprs;
use rlisp::parser::parse;

type Outcome = Result<Option<Object>, EvalError>;

fn run_src(src: &str) -> (Inhibit, Vec<Outcome>, Vec<String>) {
    let exprs = parse(&String::from(src)).expect("the test program should parse");
    let mut env = Env::new();
    let mut out: Vec<String> = Vec::new();
    let (inhibit, results) = run_exprs(&exprs, &mut env, &mut out);
    (inhibit, results, out)
}

fn final_error(src: &str) -> EvalError {
    let (_, results, _) = run_src(src);
    match results.into_iter().last().expect("at least one result") {
        Err(e) => e,
        Ok(v) => panic!("expected an error, got {:?}", v),
    }
}

#[test]
fn empty_compound_is_an_error() {
    assert!(matches!(final_error("()"), EvalError::EmptyCompound));
}

#[test]
fn define_without_arguments() {
    assert!(matches!(final_error("(define)"), EvalError::InvalidVariableIdentifier));
}

#[test]
fn define_without_a_value() {
    assert!(matches!(final_error("(define x)"), EvalError::DefineMissingValue));
}

#[test]
fn define_needs_a_symbol() {
    assert!(matches!(final_error("(define 5 1)"), EvalError::InvalidVariableIdentifier));
}

#[test]
fn define_function_needs_a_symbol_name() {
    assert!(matches!(final_error("(define (5) 1)"), EvalError::InvalidFunctionIdentifier));
}

#[test]
fn define_function_parameters_must_be_symbols() {
    assert!(matches!(final_error("(define (f 5) 1)"), EvalError::InvalidVarName));
}

#[test]
fn define_to_no_value_is_refused() {
    assert!(matches!(final_error("(define x (define y 1))"), EvalError::CannotSetToNone));
}

#[test]
fn define_with_extra_arguments_binds_the_last() {
    let (_, results, _) = run_src("(define x 1 2) x");
    match results.into_iter().last().unwrap() {
        Ok(Some(Object::Number(Number::Int(2)))) => {},
        other => panic!("expected 2, got {:?}", other),
    }
}

#[test]
fn lambda_needs_a_parameter_list() {
    assert!(matches!(final_error("(lambda 5 1)"), EvalError::InvalidLambda));
}

#[test]
fn lambda_needs_a_body() {
    assert!(matches!(final_error("(lambda (x))"), EvalError::EmptyFunctionBody));
}

#[test]
fn exit_takes_at_most_one_argument() {
    assert!(matches!(final_error("(exit 1 2)"), EvalError::ArgCountError));
}

#[test]
fn print_takes_exactly_one_argument() {
    assert!(matches!(final_error("(print 1 2)"), EvalError::ArgCountError));
}

#[test]
fn exit_message_of_a_number_is_its_text() {
    let (inhibit, _, _) = run_src("(exit 42)");
    match inhibit {
        Inhibit::Stop(Some(m)) => assert_eq!(m.as_str(), "42"),
        other => panic!("expected a stop with a message, got {:?}", other),
    }
}

#[test]
fn multi_expression_body_runs_in_order() {
    let (_, results, out) = run_src("(define (f x) (print x) (* x x)) (f 3)");
    assert_eq!(out, vec![String::from("3")]);
    match results.into_iter().last().unwrap() {
        Ok(Some(Object::Number(Number::Int(9)))) => {},
        other => panic!("expected 9, got {:?}", other),
    }
}

#[test]
fn exit_in_a_body_sequence_short_circuits() {
    let (inhibit, _, out) = run_src("(define (g) (exit \"s\") (print 1) 5) (g)");
    match inhibit {
        Inhibit::Stop(Some(m)) => assert_eq!(m.as_str(), "s"),
        other => panic!("expected a stop, got {:?}", other),
    }
    assert!(out.is_empty(), "nothing may run after the exit");
}

#[test]
fn shadowing_parameter_substitution_is_positional() {
    let (_, results, _) = run_src("(define (pick a b) b) (pick 1 2)");
    match results.into_iter().last().unwrap() {
        Ok(Some(Object::Number(Number::Int(2)))) => {},
        other => panic!("expected 2, got {:?}", other),
    }
}

#[test]
fn list_skips_valueless_arguments() {
    let (_, results, _) = run_src("(list (define a 5) a)");
    match results.into_iter().last().unwrap() {
        Ok(Some(Object::List(items))) => {
            assert_eq!(items.len(), 1);
            assert!(matches!(items[0], Object::Number(Number::Int(5))));
        },
        other => panic!("expected a one-element list, got {:?}", other),
    }
}

#[test]
fn cond_evaluates_only_the_selected_body() {
    let (_, results, out) = run_src(
        "(cond [ false (print \"no\") ] [ true (print \"yes\") 1 ] [ else 2 ])",
    );
    assert_eq!(out, vec![String::from("\"yes\"")]);
    match results.into_iter().last().unwrap() {
        Ok(Some(Object::Number(Number::Int(1)))) => {},
        other => panic!("expected 1, got {:?}", other),
    }
}

#[test]
fn empty_sequence_cannot_be_evaluated() {
    let mut env = Env::new();
    let mut out: Vec<String> = Vec::new();
    let empty: Vec<rlisp::data::Expr> = Vec::new();
    let r = rlisp::eval::eval_exprs(&empty, &mut env, &mut out);
    assert!(matches!(r, Err(EvalError::EmptyExprSequence)));
}

#[test]
fn float_arithmetic_on_unreadable_text_is_a_numeric_error() {
    // the first step overflows to an infinite value, whose regenerated text
    // the expression evaluator cannot read back
    let (_, results, _) = run_src("(+ (* 1.0e308 10) 1)");
    match results.into_iter().last().unwrap() {
        Err(EvalError::NumericError) => {},
        other => panic!("expected the numeric error, got {:?}", other),
    }
}
