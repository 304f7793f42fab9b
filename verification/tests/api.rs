use rlisp::data::Boolean;
use rlisp::data::Builtin;
use rlisp::data::BuiltinFn;
use rlisp::data::Expr;
use rlisp::data::Function;
use rlisp::data::Number;
use rlisp::data::Object;
use rlisp::data::VarMap;
use rlisp::data::expr_eq;
use rlisp::data::obj_eq;
use rlisp::env::Env;
use rlisp::eval::EvalError;
use rlisp::eval::eval_expr;
use rlisp::eval::eval_exprs;
use rlisp::parser::atomize;
use rlisp::parser::parse;

#[test]
fn builtin_fn_names() {
    assert_eq!(BuiltinFn::new(Builtin::Add).name().as_str(), "+");
    assert_eq!(BuiltinFn::new(Builtin::List).name().as_str(), "list");
}

#[test]
fn env_add_get_and_set() {
    let mut env = Env::new();
    assert!(!env.var_exists(&String::from("x")));
    env.add_variable(String::from("x"), Object::Number(Number::Int(1)));
    assert!(env.var_exists(&String::from("x")));
    assert!(matches!(
        env.get_variable(&String::from("x")),
        Object::Number(Number::Int(1))
    ));
    env.set_variable(String::from("x"), Object::Boolean(Boolean::True));
    assert!(matches!(
        env.get_variable(&String::from("x")),
        Object::Boolean(Boolean::True)
    ));
}

#[test]
fn env_seeds_the_builtins() {
    let env = Env::new();
    for name in ["list", "cons", "print", "exit", "cond", "=", "and", "or", "not", "+", "-", "*", "/", "%"] {
        assert!(env.var_exists(&String::from(name)), "{} should be bound", name);
        assert!(matches!(
            env.get_variable(&String::from(name)),
            Object::Function(_)
        ));
    }
    assert_eq!(env.variables().len(), 14);
}

#[test]
fn env_with_functions_binds_them() {
    let f = Function::from_exprs(
        &[Expr::Expr(Object::Symbol(String::from("n")))],
        &[Expr::Expr(Object::Symbol(String::from("n")))],
    )
    .expect("a one-parameter identity function");
    let env = Env::with_functions(vec![(String::from("id"), f)]);
    assert!(env.var_exists(&String::from("id")));
}

#[test]
fn from_exprs_refuses_bad_parameters() {
    let r = Function::from_exprs(
        &[Expr::Expr(Object::Number(Number::Int(1)))],
        &[Expr::Expr(Object::Number(Number::Int(1)))],
    );
    assert!(matches!(r, Err(EvalError::InvalidVarName)));
}

#[test]
fn from_exprs_refuses_an_empty_body() {
    let r = Function::from_exprs(&[Expr::Expr(Object::Symbol(String::from("n")))], &[]);
    assert!(matches!(r, Err(EvalError::EmptyFunctionBody)));
}

#[test]
fn replace_all_substitutes_atoms() {
    let es = parse(&String::from("(* n n)")).unwrap();
    let mut m = VarMap::new();
    m.insert_pair(
        Object::Symbol(String::from("n")),
        Object::Number(Number::Int(4)),
    );
    let substituted = es[0].replace_all(&m);
    let want = parse(&String::from("(* 4 4)")).unwrap();
    assert!(expr_eq(&substituted, &want[0]));
}

#[test]
fn replace_all_enters_conditional_cases() {
    let es = parse(&String::from("[ (= n 1) n ]")).unwrap();
    let mut m = VarMap::new();
    m.insert_pair(
        Object::Symbol(String::from("n")),
        Object::Number(Number::Int(2)),
    );
    let substituted = es[0].replace_all(&m);
    let want = parse(&String::from("[ (= 2 1) 2 ]")).unwrap();
    assert!(expr_eq(&substituted, &want[0]));
}

#[test]
fn accessors_expose_the_wrapped_values() {
    let atom = Expr::Expr(Object::Number(Number::Int(3)));
    let inner = atom.unwrap_expr().expect("an atom");
    assert!(matches!(inner.unwrap_number(), Some(Number::Int(3))));
    assert!(inner.unwrap_boolean().is_none());
    let b = Object::Boolean(Boolean::False);
    assert!(matches!(b.unwrap_boolean(), Some(Boolean::False)));
}

#[test]
fn duplicate_preserves_structure() {
    let es = parse(&String::from("(list 1 2.5 \"s\" [ true 1 ])")).unwrap();
    let copy = es[0].duplicate();
    assert!(expr_eq(&es[0], &copy));
}

#[test]
fn obj_eq_distinguishes_builtins_by_name() {
    let env = Env::new();
    let plus = env.get_variable(&String::from("+"));
    let plus2 = env.get_variable(&String::from("+"));
    let minus = env.get_variable(&String::from("-"));
    assert!(obj_eq(&plus, &plus2));
    assert!(!obj_eq(&plus, &minus));
}

#[test]
fn eval_exprs_returns_the_last_value() {
    let es = parse(&String::from("1 2 3")).unwrap();
    let mut env = Env::new();
    let mut out: Vec<String> = Vec::new();
    let r = eval_exprs(&es, &mut env, &mut out);
    assert!(matches!(r, Ok(Some(Object::Number(Number::Int(3))))));
}

#[test]
fn runaway_recursion_hits_the_budget() {
    let es = parse(&String::from("(define (f n) (f n)) (f 1)")).unwrap();
    let mut env = Env::new();
    let mut out: Vec<String> = Vec::new();
    let r0 = eval_expr(&es[0], &mut env, &mut out, 50);
    assert!(matches!(r0, Ok(None)));
    let r1 = eval_expr(&es[1], &mut env, &mut out, 50);
    assert!(matches!(r1, Err(EvalError::RecursionLimit)));
}

#[test]
fn atomize_classifies_tokens() {
    assert!(matches!(
        atomize(String::from("12")),
        Object::Number(Number::Int(12))
    ));
    assert!(matches!(atomize(String::from("1.5e3")), Object::Number(Number::Float(_))));
    assert!(matches!(atomize(String::from("true")), Object::Boolean(Boolean::True)));
    assert!(matches!(atomize(String::from("+")), Object::Symbol(_)));
    assert!(matches!(atomize(String::from("1.2.3")), Object::Symbol(_)));
}
