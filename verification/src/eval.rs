//! The executable evaluator.
//!
//! Each function mirrors one function of the evaluation semantics and is
//! proved to return exactly its result, for the same step budget, while
//! leaving the environment and the printed output exactly as the semantics
//! says.

use vstd::prelude::*;

use crate::data::Boolean;
use crate::data::Builtin;
use crate::data::Expr;
use crate::data::ExprV;
use crate::data::Function;
use crate::data::Inhibit;
use crate::data::LispFn;
use crate::data::Object;
use crate::data::ObjectV;
use crate::data::VarMap;
use crate::data::size_expr;
use crate::data::size_list_from;
use crate::data::lemma_size_elem_le;
use crate::data::lemma_size_expr_pos;
use crate::data::view_expr;
use crate::data::view_exprs;
use crate::data::view_obj;
use crate::data::view_objs;
use crate::env::Env;
use crate::semantics::ArgsResV;
use crate::semantics::EvalErrorV;
use crate::semantics::InhibitV;
use crate::semantics::StateV;
use crate::semantics::apply_spec;
use crate::semantics::builtin_spec;
use crate::semantics::cond_cases_spec;
use crate::semantics::eval_args_spec;
use crate::semantics::eval_body_spec;
use crate::semantics::eval_call;
use crate::semantics::eval_expr_spec;
use crate::semantics::eval_head_value;
use crate::semantics::eval_symbol_head;
use crate::semantics::make_function_spec;
use crate::semantics::run_spec;
use crate::semantics::subst_list;
use crate::semantics::subst_map;
use crate::text::to_text;

verus! {

/// The default step budget: it bounds the depth of function application and
/// conditional dispatch, not the size of programs.  It is set low enough
/// that a runaway recursion ends in the budget error before the host stack
/// is exhausted.
pub const DEFAULT_FUEL: u64 = 2000;

/// The evaluation errors.
#[derive(Debug)]
pub enum EvalError {
    UndefinedVariable(String),
    UndefinedFunction(String),
    NotAFunction(Option<Box<Object>>),
    ArityMismatch(usize, usize),
    InvalidVariableIdentifier,
    InvalidFunctionIdentifier,
    InvalidVarName,
    InvalidLambda,
    EmptyFunctionBody,
    DefineMissingValue,
    TypeMismatch,
    CannotConsTwoLists,
    ConditionalError,
    ArgCountError,
    CannotSetToNone,
    Redefinition(String),
    EmptyCompound,
    EmptyExprSequence,
    NumericOverflow,
    DivisionByZero,
    NumericError,
    RecursionLimit,
}

impl View for EvalError {
    type V = EvalErrorV;

    open spec fn view(&self) -> EvalErrorV {
        match self {
            EvalError::UndefinedVariable(s) => EvalErrorV::UndefinedVariable(s@),
            EvalError::UndefinedFunction(s) => EvalErrorV::UndefinedFunction(s@),
            EvalError::NotAFunction(o) => EvalErrorV::NotAFunction(
                match o {
                    Option::Some(b) => Option::Some(view_obj(**b)),
                    Option::None => Option::None,
                },
            ),
            EvalError::ArityMismatch(e, g) => EvalErrorV::ArityMismatch(*e as nat, *g as nat),
            EvalError::InvalidVariableIdentifier => EvalErrorV::InvalidVariableIdentifier,
            EvalError::InvalidFunctionIdentifier => EvalErrorV::InvalidFunctionIdentifier,
            EvalError::InvalidVarName => EvalErrorV::InvalidVarName,
            EvalError::InvalidLambda => EvalErrorV::InvalidLambda,
            EvalError::EmptyFunctionBody => EvalErrorV::EmptyFunctionBody,
            EvalError::DefineMissingValue => EvalErrorV::DefineMissingValue,
            EvalError::TypeMismatch => EvalErrorV::TypeMismatch,
            EvalError::CannotConsTwoLists => EvalErrorV::CannotConsTwoLists,
            EvalError::ConditionalError => EvalErrorV::ConditionalError,
            EvalError::ArgCountError => EvalErrorV::ArgCountError,
            EvalError::CannotSetToNone => EvalErrorV::CannotSetToNone,
            EvalError::Redefinition(s) => EvalErrorV::Redefinition(s@),
            EvalError::EmptyCompound => EvalErrorV::EmptyCompound,
            EvalError::EmptyExprSequence => EvalErrorV::EmptyExprSequence,
            EvalError::NumericOverflow => EvalErrorV::NumericOverflow,
            EvalError::DivisionByZero => EvalErrorV::DivisionByZero,
            EvalError::NumericError => EvalErrorV::NumericError,
            EvalError::RecursionLimit => EvalErrorV::RecursionLimit,
        }
    }
}

/// The model of an evaluation result.
pub open spec fn res_view(r: Result<Option<Object>, EvalError>) -> Result<
    Option<ObjectV>,
    EvalErrorV,
> {
    match r {
        Result::Ok(Option::Some(o)) => Result::Ok(Option::Some(view_obj(o))),
        Result::Ok(Option::None) => Result::Ok(Option::None),
        Result::Err(e) => Result::Err(e@),
    }
}

/// The context before a call.
pub open spec fn st_of(env: Map<Seq<char>, ObjectV>, out: Seq<Seq<char>>) -> StateV {
    StateV { env, out }
}

/// The outcome of evaluating an argument list.
enum ArgsOut {
    Done(Vec<Object>),
    Halted(Option<String>),
}

spec fn args_view(r: Result<ArgsOut, EvalError>) -> ArgsResV {
    match r {
        Result::Ok(ArgsOut::Done(vs)) => ArgsResV::Done(view_objs(vs@)),
        Result::Ok(ArgsOut::Halted(m)) => ArgsResV::Halted(
            match m {
                Option::Some(s) => Option::Some(s@),
                Option::None => Option::None,
            },
        ),
        Result::Err(e) => ArgsResV::Failed(e@),
    }
}

impl Expr {
    /// Evaluates this expression against the environment with the default
    /// step budget; printed lines are appended to `out`.
    pub fn eval(&self, env: &mut Env, out: &mut Vec<String>) -> (r: Result<
        Option<Object>,
        EvalError,
    >)
        ensures
            ({
                let o = eval_expr_spec(
                    self@,
                    st_of(old(env)@, old(out).deep_view()),
                    DEFAULT_FUEL as nat,
                );
                res_view(r) == o.res && final(env)@ == o.st.env && final(out).deep_view()
                    == o.st.out
            }),
    {
        eval_expr(self, env, out, DEFAULT_FUEL)
    }
}

/// Evaluates one expression for the given step budget.
pub fn eval_expr(e: &Expr, env: &mut Env, out: &mut Vec<String>, fuel: u64) -> (r: Result<
    Option<Object>,
    EvalError,
>)
    ensures
        ({
            let o = eval_expr_spec(e@, st_of(old(env)@, old(out).deep_view()), fuel as nat);
            res_view(r) == o.res && final(env)@ == o.st.env && final(out).deep_view() == o.st.out
        }),
    decreases fuel, size_expr(e@), 0int,
{
    match e {
        Expr::Expr(o) => match o {
            Object::Symbol(name) => {
                if env.var_exists(name) {
                    Result::Ok(Option::Some(env.get_variable(name)))
                } else {
                    Result::Err(EvalError::UndefinedVariable(name.clone()))
                }
            },
            _ => Result::Ok(Option::Some(o.duplicate())),
        },
        Expr::Exprs(es) => {
            if es.len() == 0 {
                return Result::Err(EvalError::EmptyCompound);
            }
            let ghost ev = view_exprs(es@);
            match &es[0] {
                Expr::Exprs(_) => {
                    proof {
                        lemma_size_expr_pos(ev[0]);
                    }
                    let h = eval_expr(&es[0], env, out, fuel);
                    match h {
                        Result::Err(er) => Result::Err(er),
                        Result::Ok(Option::None) => Result::Err(
                            EvalError::NotAFunction(Option::None),
                        ),
                        Result::Ok(Option::Some(v)) => {
                            proof {
                                lemma_size_expr_pos(ev[0]);
                            }
                            eval_head_value_exec(v, es, env, out, fuel)
                        },
                    }
                },
                Expr::Expr(Object::Symbol(name)) => {
                    let nm = name.clone();
                    eval_symbol_head_exec(&nm, es, env, out, fuel)
                },
                Expr::Expr(Object::Function(f)) => {
                    let g = f.duplicate();
                    eval_call_exec(&g, es, env, out, fuel)
                },
                Expr::Expr(other) => Result::Err(
                    EvalError::NotAFunction(Option::Some(Box::new(other.duplicate()))),
                ),
            }
        },
    }
}

/// Dispatch on the value an evaluated head produced.
fn eval_head_value_exec(
    v: Object,
    es: &Vec<Expr>,
    env: &mut Env,
    out: &mut Vec<String>,
    fuel: u64,
) -> (r: Result<Option<Object>, EvalError>)
    requires
        es@.len() >= 1,
    ensures
        ({
            let o = eval_head_value(
                v@,
                view_exprs(es@),
                st_of(old(env)@, old(out).deep_view()),
                fuel as nat,
            );
            res_view(r) == o.res && final(env)@ == o.st.env && final(out).deep_view() == o.st.out
        }),
    decreases fuel, size_list_from(view_exprs(es@), 1) + 2, 1int,
{
    match v {
        Object::Symbol(name) => eval_symbol_head_exec(&name, es, env, out, fuel),
        Object::Function(f) => eval_call_exec(&f, es, env, out, fuel),
        other => Result::Err(EvalError::NotAFunction(Option::Some(Box::new(other)))),
    }
}

/// A named head: the special forms, or a function looked up by name.
fn eval_symbol_head_exec(
    name: &String,
    es: &Vec<Expr>,
    env: &mut Env,
    out: &mut Vec<String>,
    fuel: u64,
) -> (r: Result<Option<Object>, EvalError>)
    requires
        es@.len() >= 1,
    ensures
        ({
            let o = eval_symbol_head(
                name@,
                view_exprs(es@),
                st_of(old(env)@, old(out).deep_view()),
                fuel as nat,
            );
            res_view(r) == o.res && final(env)@ == o.st.env && final(out).deep_view() == o.st.out
        }),
    decreases fuel, size_list_from(view_exprs(es@), 1) + 1, 2int,
{
    let ghost ev = view_exprs(es@);
    let ghost st0 = st_of(old(env)@, old(out).deep_view());
    let ghost o_spec = eval_symbol_head(name@, ev, st0, fuel as nat);
    if *name == String::from_str("define") {
        if es.len() < 2 {
            return Result::Err(EvalError::InvalidVariableIdentifier);
        }
        match &es[1] {
            Expr::Expr(Object::Symbol(var)) => {
                if es.len() == 2 {
                    proof {
                        assert(name@ == "define"@);
                        assert(ev.len() == es@.len());
                        assert(ev[1] == view_expr(es@[1]));
                        assert(ev[1] is Atom);
                        assert(ev[1]->Atom_0 is Symbol);
                        assert(eval_symbol_head(name@, ev, st0, fuel as nat).res == Result::<
                            Option<ObjectV>,
                            EvalErrorV,
                        >::Err(EvalErrorV::DefineMissingValue));
                    }
                    return Result::Err(EvalError::DefineMissingValue);
                }
                proof {
                    lemma_size_elem_le(ev, 1, ev.len() - 1);
                }
                let ghost rs = crate::semantics::eval_expr_spec(
                    ev[ev.len() - 1],
                    st0,
                    fuel as nat,
                );
                let r = eval_expr(&es[es.len() - 1], env, out, fuel);
                proof {
                    assert(ev[ev.len() - 1] == view_expr(es@[es@.len() - 1]));
                    assert(res_view(r) == rs.res);
                }
                match r {
                    Result::Err(er) => {
                        proof {
                            assert(o_spec.res == Result::<Option<ObjectV>, EvalErrorV>::Err(er@));
                            assert(o_spec.st == rs.st);
                        }
                        Result::Err(er)
                    },
                    Result::Ok(Option::None) => {
                        proof {
                            assert(o_spec.res == Result::<Option<ObjectV>, EvalErrorV>::Err(
                                EvalErrorV::CannotSetToNone,
                            ));
                        }
                        Result::Err(EvalError::CannotSetToNone)
                    },
                    Result::Ok(Option::Some(value)) => {
                        if env.var_exists(var) {
                            proof {
                                assert(o_spec.res == Result::<Option<ObjectV>, EvalErrorV>::Err(
                                    EvalErrorV::Redefinition(var@),
                                ));
                            }
                            Result::Err(EvalError::Redefinition(var.clone()))
                        } else {
                            env.add_variable(var.clone(), value);
                            proof {
                                assert(o_spec.res == Result::<Option<ObjectV>, EvalErrorV>::Ok(
                                    Option::None,
                                ));
                                assert(o_spec.st.env == env@);
                                assert(o_spec.st.out == out.deep_view());
                            }
                            Result::Ok(Option::None)
                        }
                    },
                }
            },
            Expr::Expr(_) => Result::Err(EvalError::InvalidVariableIdentifier),
            Expr::Exprs(fndef) => {
                if fndef.len() == 0 {
                    return Result::Err(EvalError::InvalidFunctionIdentifier);
                }
                match &fndef[0] {
                    Expr::Expr(Object::Symbol(fname)) => {
                        let params = vstd::slice::slice_subrange(
                            fndef.as_slice(),
                            1,
                            fndef.len(),
                        );
                        let body = vstd::slice::slice_subrange(es.as_slice(), 2, es.len());
                        proof {
                            assert(view_exprs(params@) =~= view_exprs(fndef@).subrange(
                                1,
                                fndef@.len() as int,
                            ));
                            assert(view_exprs(body@) =~= ev.subrange(2, ev.len() as int));
                            assert(ev[1] == ExprV::Compound(view_exprs(fndef@)));
                            let sfndef = view_exprs(fndef@);
                            assert(sfndef.len() > 0);
                            assert(fndef@[0] == Expr::Expr(Object::Symbol(*fname)));
                            assert(view_expr(Expr::Expr(Object::Symbol(*fname)))
                                == ExprV::Atom(ObjectV::Symbol(fname@)));
                            assert(sfndef[0] == ExprV::Atom(ObjectV::Symbol(fname@)));
                            let mf = make_function_spec(
                                sfndef.subrange(1, sfndef.len() as int),
                                ev.subrange(2, ev.len() as int),
                            );
                            assert(view_exprs(params@) == sfndef.subrange(
                                1,
                                sfndef.len() as int,
                            ));
                            assert(view_exprs(body@) == ev.subrange(2, ev.len() as int));
                            assert(mf == make_function_spec(view_exprs(params@), view_exprs(body@)));
                        }
                        match Function::from_exprs(params, body) {
                            Result::Ok(f) => {
                                if env.var_exists(fname) {
                                    proof {
                                        assert(o_spec.res == Result::<
                                            Option<ObjectV>,
                                            EvalErrorV,
                                        >::Err(EvalErrorV::Redefinition(fname@)));
                                    }
                                    Result::Err(EvalError::Redefinition(fname.clone()))
                                } else {
                                    env.add_variable(fname.clone(), Object::Function(f));
                                    proof {
                                        assert(o_spec.res == Result::<
                                            Option<ObjectV>,
                                            EvalErrorV,
                                        >::Ok(Option::None));
                                        assert(o_spec.st.env == env@);
                                    }
                                    Result::Ok(Option::None)
                                }
                            },
                            Result::Err(e2) => {
                                proof {
                                    assert(o_spec.res == Result::<Option<ObjectV>, EvalErrorV>::Err(
                                        e2@,
                                    ));
                                }
                                Result::Err(e2)
                            },
                        }
                    },
                    _ => Result::Err(EvalError::InvalidFunctionIdentifier),
                }
            },
        }
    } else if *name == String::from_str("lambda") {
        if es.len() < 2 {
            return Result::Err(EvalError::InvalidLambda);
        }
        match &es[1] {
            Expr::Exprs(params) => {
                let body = vstd::slice::slice_subrange(es.as_slice(), 2, es.len());
                proof {
                    assert(view_exprs(body@) =~= ev.subrange(2, ev.len() as int));
                }
                match Function::from_exprs(params.as_slice(), body) {
                    Result::Ok(f) => {
                        proof {
                            assert(o_spec.res == Result::<Option<ObjectV>, EvalErrorV>::Ok(
                                Option::Some(ObjectV::Function(f@)),
                            ));
                        }
                        Result::Ok(Option::Some(Object::Function(f)))
                    },
                    Result::Err(e2) => {
                        proof {
                            assert(o_spec.res == Result::<Option<ObjectV>, EvalErrorV>::Err(e2@));
                        }
                        Result::Err(e2)
                    },
                }
            },
            _ => Result::Err(EvalError::InvalidLambda),
        }
    } else {
        proof {
            assert(name@ != "define"@ && name@ != "lambda"@);
        }
        if env.var_exists(name) {
            let v = env.get_variable(name);
            match v {
                Object::Function(f) => {
                    proof {
                        assert(old(env)@[name@] is Function);
                        assert(old(env)@[name@]->Function_0 == f@);
                        assert(eval_symbol_head(name@, ev, st0, fuel as nat) == eval_call(
                            f@,
                            ev,
                            st0,
                            fuel as nat,
                        ));
                    }
                    eval_call_exec(&f, es, env, out, fuel)
                },
                _ => {
                    proof {
                        assert(!(old(env)@[name@] is Function));
                        assert(eval_symbol_head(name@, ev, st0, fuel as nat).res == Result::<
                            Option<ObjectV>,
                            EvalErrorV,
                        >::Err(EvalErrorV::UndefinedFunction(name@)));
                    }
                    Result::Err(EvalError::UndefinedFunction(name.clone()))
                },
            }
        } else {
            proof {
                assert(!old(env)@.contains_key(name@));
                assert(eval_symbol_head(name@, ev, st0, fuel as nat).res == Result::<
                    Option<ObjectV>,
                    EvalErrorV,
                >::Err(EvalErrorV::UndefinedFunction(name@)));
            }
            Result::Err(EvalError::UndefinedFunction(name.clone()))
        }
    }
}

/// Evaluation of the argument forms, then application of the function.
fn eval_call_exec(
    f: &Function,
    es: &Vec<Expr>,
    env: &mut Env,
    out: &mut Vec<String>,
    fuel: u64,
) -> (r: Result<Option<Object>, EvalError>)
    requires
        es@.len() >= 1,
    ensures
        ({
            let o = eval_call(
                f@,
                view_exprs(es@),
                st_of(old(env)@, old(out).deep_view()),
                fuel as nat,
            );
            res_view(r) == o.res && final(env)@ == o.st.env && final(out).deep_view() == o.st.out
        }),
    decreases fuel, size_list_from(view_exprs(es@), 1) + 1, 1int,
{
    match eval_args_exec(es, 1, env, out, fuel) {
        Result::Err(er) => Result::Err(er),
        Result::Ok(ArgsOut::Halted(m)) => Result::Ok(Option::Some(Object::Exit(m))),
        Result::Ok(ArgsOut::Done(vals)) => apply_exec(f, vals, env, out, fuel),
    }
}

/// Left-to-right evaluation of the argument forms `es[i..]`.
fn eval_args_exec(
    es: &Vec<Expr>,
    i: usize,
    env: &mut Env,
    out: &mut Vec<String>,
    fuel: u64,
) -> (r: Result<ArgsOut, EvalError>)
    ensures
        ({
            let o = eval_args_spec(
                view_exprs(es@),
                i as int,
                st_of(old(env)@, old(out).deep_view()),
                fuel as nat,
            );
            args_view(r) == o.res && final(env)@ == o.st.env && final(out).deep_view() == o.st.out
        }),
    decreases fuel, size_list_from(view_exprs(es@), i as int), 1int,
{
    let ghost ev = view_exprs(es@);
    if i >= es.len() {
        let empty_args: Vec<Object> = Vec::new();
        proof {
            assert(view_objs(empty_args@) =~= Seq::<ObjectV>::empty());
        }
        return Result::Ok(ArgsOut::Done(empty_args));
    }
    proof {
        lemma_size_expr_pos(ev[i as int]);
    }
    let r0 = eval_expr(&es[i], env, out, fuel);
    match r0 {
        Result::Err(er) => Result::Err(er),
        Result::Ok(Option::Some(v)) => {
            match v {
                Object::Exit(m) => Result::Ok(ArgsOut::Halted(m)),
                _ => {
                    match eval_args_exec(es, i + 1, env, out, fuel) {
                        Result::Err(er) => Result::Err(er),
                        Result::Ok(ArgsOut::Halted(m)) => Result::Ok(ArgsOut::Halted(m)),
                        Result::Ok(ArgsOut::Done(mut vs)) => {
                            let ghost pre = view_objs(vs@);
                            let ghost vv = view_obj(v);
                            vs.insert(0, v);
                            proof {
                                assert(view_objs(vs@) =~= seq![vv] + pre);
                            }
                            Result::Ok(ArgsOut::Done(vs))
                        },
                    }
                },
            }
        },
        Result::Ok(Option::None) => eval_args_exec(es, i + 1, env, out, fuel),
    }
}

/// Application of a function value to evaluated arguments.
fn apply_exec(
    f: &Function,
    args: Vec<Object>,
    env: &mut Env,
    out: &mut Vec<String>,
    fuel: u64,
) -> (r: Result<Option<Object>, EvalError>)
    ensures
        ({
            let o = apply_spec(
                f@,
                view_objs(args@),
                st_of(old(env)@, old(out).deep_view()),
                fuel as nat,
            );
            res_view(r) == o.res && final(env)@ == o.st.env && final(out).deep_view() == o.st.out
        }),
    decreases fuel, 1int, 0int,
{
    match &*f.procedure {
        LispFn::Builtin(b) => builtin_exec(b.which, args, env, out, fuel),
        LispFn::UserDef(params, body) => {
            if args.len() != params.len() {
                return Result::Err(EvalError::ArityMismatch(params.len(), args.len()));
            }
            if fuel == 0 {
                return Result::Err(EvalError::RecursionLimit);
            }
            let ghost pv = view_objs(params@);
            let ghost av = view_objs(args@);
            let mut m = VarMap::new();
            let n = params.len();
            proof {
                assert(pv.subrange(0, 0) =~= Seq::<ObjectV>::empty());
                assert(av.subrange(0, 0) =~= Seq::<ObjectV>::empty());
                assert(m@ =~= subst_map(pv.subrange(0, 0), av.subrange(0, 0)));
            }
            for k in 0..n
                invariant
                    n == params@.len(),
                    n == args@.len(),
                    pv == view_objs(params@),
                    av == view_objs(args@),
                    m@ == subst_map(pv.subrange(0, k as int), av.subrange(0, k as int)),
                decreases n - k,
            {
                m.insert_pair(params[k].duplicate(), args[k].duplicate());
                proof {
                    assert(pv.subrange(0, k + 1).drop_last() =~= pv.subrange(0, k as int));
                    assert(av.subrange(0, k + 1).drop_last() =~= av.subrange(0, k as int));
                    assert(pv.subrange(0, k + 1).last() == pv[k as int]);
                    assert(av.subrange(0, k + 1).last() == av[k as int]);
                }
            }
            proof {
                assert(pv.subrange(0, n as int) =~= pv);
                assert(av.subrange(0, n as int) =~= av);
            }
            let bn = body.len();
            let mut newbody: Vec<Expr> = Vec::new();
            for k in 0..bn
                invariant
                    bn == body@.len(),
                    newbody@.len() == k,
                    m@ == subst_map(pv, av),
                    pv == view_objs(params@),
                    av == view_objs(args@),
                    forall|j: int| 0 <= j < k ==> view_expr(newbody@[j])
                        == crate::semantics::subst_expr(view_expr(body@[j]), m@),
                decreases bn - k,
            {
                newbody.push(body[k].replace_all(&m));
            }
            proof {
                assert(view_exprs(newbody@) =~= subst_list(view_exprs(body@), subst_map(pv, av)));
            }
            eval_body_exec(&newbody, 0, env, out, fuel - 1)
        },
    }
}

/// A body sequence: the last expression's value, earlier ones for effect.
fn eval_body_exec(
    es: &Vec<Expr>,
    i: usize,
    env: &mut Env,
    out: &mut Vec<String>,
    fuel: u64,
) -> (r: Result<Option<Object>, EvalError>)
    ensures
        ({
            let o = eval_body_spec(
                view_exprs(es@),
                i as int,
                st_of(old(env)@, old(out).deep_view()),
                fuel as nat,
            );
            res_view(r) == o.res && final(env)@ == o.st.env && final(out).deep_view() == o.st.out
        }),
    decreases fuel, size_list_from(view_exprs(es@), i as int), 1int,
{
    let ghost ev = view_exprs(es@);
    if i >= es.len() {
        return Result::Err(EvalError::EmptyExprSequence);
    }
    proof {
        lemma_size_expr_pos(ev[i as int]);
    }
    if i == es.len() - 1 {
        return eval_expr(&es[i], env, out, fuel);
    }
    let r0 = eval_expr(&es[i], env, out, fuel);
    match r0 {
        Result::Err(er) => Result::Err(er),
        Result::Ok(Option::Some(v)) => match v {
            Object::Exit(m) => Result::Ok(Option::Some(Object::Exit(m))),
            _ => eval_body_exec(es, i + 1, env, out, fuel),
        },
        Result::Ok(Option::None) => eval_body_exec(es, i + 1, env, out, fuel),
    }
}

/// Dispatch over the builtin procedures.
fn builtin_exec(
    b: Builtin,
    args: Vec<Object>,
    env: &mut Env,
    out: &mut Vec<String>,
    fuel: u64,
) -> (r: Result<Option<Object>, EvalError>)
    ensures
        ({
            let o = builtin_spec(
                b,
                view_objs(args@),
                st_of(old(env)@, old(out).deep_view()),
                fuel as nat,
            );
            res_view(r) == o.res && final(env)@ == o.st.env && final(out).deep_view() == o.st.out
        }),
    decreases fuel, 0int, 2int,
{
    match b {
        Builtin::List => crate::stdlisp::list(args),
        Builtin::Cons => crate::stdlisp::cons(args),
        Builtin::Equals => crate::stdlisp::equals(args),
        Builtin::And => crate::stdlisp::and(args),
        Builtin::Or => crate::stdlisp::or(args),
        Builtin::Not => crate::stdlisp::not(args),
        Builtin::Exit => crate::stdlisp::exit(args),
        Builtin::Add | Builtin::Sub | Builtin::Mul | Builtin::Div | Builtin::Rem => {
            crate::stdlisp::arith(b, args)
        },
        Builtin::Print => {
            if args.len() != 1 {
                return Result::Err(EvalError::ArgCountError);
            }
            let t = to_text(&args[0]);
            let ghost pre = out.deep_view();
            out.push(t);
            proof {
                assert(out.deep_view() =~= pre.push(crate::text::text_of_obj(view_objs(args@)[0])));
            }
            Result::Ok(Option::None)
        },
        Builtin::Cond => cond_builtin_exec(args, env, out, fuel),
    }
}

/// The cond builtin's validity checks, then its case walk.
#[verifier::rlimit(40)]
#[verifier::spinoff_prover]
fn cond_builtin_exec(
    args: Vec<Object>,
    env: &mut Env,
    out: &mut Vec<String>,
    fuel: u64,
) -> (r: Result<Option<Object>, EvalError>)
    ensures
        ({
            let o = builtin_spec(
                Builtin::Cond,
                view_objs(args@),
                st_of(old(env)@, old(out).deep_view()),
                fuel as nat,
            );
            res_view(r) == o.res && final(env)@ == o.st.env && final(out).deep_view() == o.st.out
        }),
    decreases fuel, 0int, 1int,
{
    let ghost av = view_objs(args@);
    if args.len() < 2 {
        return Result::Err(EvalError::ConditionalError);
    }
    let n = args.len();
    for k in 0..n
        invariant
            n == args@.len(),
            av == view_objs(args@),
            forall|j: int| 0 <= j < k ==> av[j] is Cond,
        decreases n - k,
    {
        match &args[k] {
            Object::ConditionalCase(_, _) => {},
            _ => {
                proof {
                    assert(!(av[k as int] is Cond));
                    assert(!crate::semantics::all_cond_cases(av));
                }
                return Result::Err(EvalError::ConditionalError);
            },
        }
    }
    proof {
        assert(crate::semantics::all_cond_cases(av));
    }
    let good_else = match &args[n - 1] {
        Object::ConditionalCase(c, _) => match &**c {
            Expr::Expr(Object::Symbol(s)) => *s == String::from_str("else"),
            _ => false,
        },
        _ => false,
    };
    proof {
        assert(av.last() == av[n - 1]);
        assert(av[n - 1] == view_obj(args@[n - 1]));
        match args@[n - 1] {
            Object::ConditionalCase(c, body) => {
                assert(av[n - 1] == ObjectV::Cond(
                    Box::new(view_expr(*c)),
                    view_exprs(body@),
                ));
            },
            _ => {},
        }
    }
    if !good_else {
        proof {
            assert(!crate::semantics::final_case_is_else(av));
        }
        return Result::Err(EvalError::ConditionalError);
    }
    proof {
        assert(crate::semantics::final_case_is_else(av));
    }
    cond_cases_exec(&args, 0, env, out, fuel)
}

/// The conditional cases in order.
fn cond_cases_exec(
    args: &Vec<Object>,
    i: usize,
    env: &mut Env,
    out: &mut Vec<String>,
    fuel: u64,
) -> (r: Result<Option<Object>, EvalError>)
    ensures
        ({
            let o = cond_cases_spec(
                view_objs(args@),
                i as int,
                st_of(old(env)@, old(out).deep_view()),
                fuel as nat,
            );
            res_view(r) == o.res && final(env)@ == o.st.env && final(out).deep_view() == o.st.out
        }),
    decreases fuel, 0int, 0int,
{
    let ghost av = view_objs(args@);
    if fuel == 0 {
        return Result::Err(EvalError::RecursionLimit);
    }
    if i >= args.len() {
        return Result::Err(EvalError::ConditionalError);
    }
    if i == args.len() - 1 {
        match &args[i] {
            Object::ConditionalCase(_, body) => {
                return eval_body_exec(body, 0, env, out, fuel - 1);
            },
            _ => {
                return Result::Err(EvalError::ConditionalError);
            },
        }
    }
    match &args[i] {
        Object::ConditionalCase(c, body) => {
            let r0 = eval_expr(c, env, out, fuel - 1);
            match r0 {
                Result::Err(er) => Result::Err(er),
                Result::Ok(Option::Some(Object::Boolean(bv))) => {
                    let istrue = match bv {
                        Boolean::True => true,
                        Boolean::False => false,
                    };
                    if istrue {
                        eval_body_exec(body, 0, env, out, fuel - 1)
                    } else {
                        cond_cases_exec(args, i + 1, env, out, fuel - 1)
                    }
                },
                _ => Result::Err(EvalError::ConditionalError),
            }
        },
        _ => Result::Err(EvalError::ConditionalError),
    }
}

/// Evaluates a sequence of expressions with body-sequence meaning: the last
/// one's value, earlier ones for effect, an exit value or an error stopping
/// the walk.
pub fn eval_exprs(es: &Vec<Expr>, env: &mut Env, out: &mut Vec<String>) -> (r: Result<
    Option<Object>,
    EvalError,
>)
    ensures
        ({
            let o = eval_body_spec(
                view_exprs(es@),
                0,
                st_of(old(env)@, old(out).deep_view()),
                DEFAULT_FUEL as nat,
            );
            res_view(r) == o.res && final(env)@ == o.st.env && final(out).deep_view() == o.st.out
        }),
{
    eval_body_exec(es, 0, env, out, DEFAULT_FUEL)
}

/// Runs a sequence of top-level expressions: each one's outcome is
/// collected; an exit value stops the run and carries its message out.
pub fn run_exprs(exprs: &Vec<Expr>, env: &mut Env, out: &mut Vec<String>) -> (r: (
    Inhibit,
    Vec<Result<Option<Object>, EvalError>>,
))
    ensures
        ({
            let o = run_spec(
                view_exprs(exprs@),
                0,
                st_of(old(env)@, old(out).deep_view()),
                DEFAULT_FUEL as nat,
            );
            &&& (match r.0 {
                Inhibit::Continue => o.inhibit is Continue,
                Inhibit::Stop(m) => o.inhibit == InhibitV::Stop(
                    match m {
                        Option::Some(s) => Option::Some(s@),
                        Option::None => Option::None,
                    },
                ),
            })
            &&& r.1@.len() == o.results.len()
            &&& (forall|j: int| 0 <= j < o.results.len() ==> res_view(#[trigger] r.1@[j])
                == o.results[j])
            &&& final(env)@ == o.st.env
            &&& final(out).deep_view() == o.st.out
        }),
{
    let ghost ev = view_exprs(exprs@);
    let ghost fuel: nat = DEFAULT_FUEL as nat;
    let mut results: Vec<Result<Option<Object>, EvalError>> = Vec::new();
    let n = exprs.len();
    let mut k: usize = 0;
    loop
        invariant
            n == exprs@.len(),
            ev == view_exprs(exprs@),
            fuel == DEFAULT_FUEL as nat,
            k <= n,
            ({
                let full = run_spec(ev, 0, st_of(old(env)@, old(out).deep_view()), fuel);
                let rest = run_spec(ev, k as int, st_of(env@, out.deep_view()), fuel);
                &&& full.inhibit == rest.inhibit
                &&& full.results == results@.map_values(|x: Result<Option<Object>, EvalError>| res_view(x)) + rest.results
                &&& full.st == rest.st
            }),
        decreases n - k,
    {
        if k >= n {
            proof {
                let rest = run_spec(ev, k as int, st_of(env@, out.deep_view()), fuel);
                assert(rest.results =~= Seq::<Result<Option<ObjectV>, EvalErrorV>>::empty());
                assert(results@.map_values(|x: Result<Option<Object>, EvalError>| res_view(x))
                    + rest.results =~= results@.map_values(
                    |x: Result<Option<Object>, EvalError>| res_view(x),
                ));
            }
            return (Inhibit::Continue, results);
        }
        proof {
            lemma_size_expr_pos(ev[k as int]);
        }
        let r0 = eval_expr(&exprs[k], env, out, DEFAULT_FUEL);
        match r0 {
            Result::Ok(Option::Some(Object::Exit(m))) => {
                return (Inhibit::Stop(m), results);
            },
            other => {
                let ghost pre = results@.map_values(
                    |x: Result<Option<Object>, EvalError>| res_view(x),
                );
                results.push(other);
                proof {
                    assert(results@.map_values(|x: Result<Option<Object>, EvalError>| res_view(x))
                        =~= pre.push(res_view(results@.last())));
                }
                k = k + 1;
                proof {
                    let rest = run_spec(ev, k as int, st_of(env@, out.deep_view()), fuel);
                    assert((pre.push(res_view(results@.last()))) + rest.results =~= pre + (seq![
                        res_view(results@.last()),
                    ] + rest.results));
                }
            },
        }
    }
}

} // verus!
