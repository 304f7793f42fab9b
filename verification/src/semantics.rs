//! The meaning of evaluation.
//!
//! A step-indexed definitional interpreter over the mathematical model:
//! expression reduction against an environment mapping, substitution-based
//! application of user-defined functions, and the builtin procedures.  The
//! executable evaluator is proved to return exactly what these functions
//! say, for the same step budget.
//!
//! The budget (`fuel`) bounds the depth of function application and
//! conditional dispatch; a run that exhausts it ends in the budget error.
//! All other recursion is structural.

use vstd::prelude::*;

use crate::data::Builtin;
use crate::data::ExprV;
use crate::data::FunctionV;
use crate::data::NumberV;
use crate::data::ObjectV;
use crate::data::size_expr;
use crate::data::size_list_from;
use crate::data::lemma_size_elem_le;
use crate::text::message_of_obj;
use crate::text::text_of_num;
use crate::text::text_of_obj;
use crate::outside::float_eval_of;

verus! {

/// The evaluation errors.
pub enum EvalErrorV {
    UndefinedVariable(Seq<char>),
    UndefinedFunction(Seq<char>),
    NotAFunction(Option<ObjectV>),
    ArityMismatch(nat, nat),
    InvalidVariableIdentifier,
    InvalidFunctionIdentifier,
    InvalidVarName,
    InvalidLambda,
    EmptyFunctionBody,
    DefineMissingValue,
    TypeMismatch,
    CannotConsTwoLists,
    ConditionalError,
    ArgCountError,
    CannotSetToNone,
    Redefinition(Seq<char>),
    EmptyCompound,
    EmptyExprSequence,
    NumericOverflow,
    DivisionByZero,
    NumericError,
    RecursionLimit,
}

/// The mutable context of a run: the environment mapping and the text lines
/// printed so far.
pub struct StateV {
    pub env: Map<Seq<char>, ObjectV>,
    pub out: Seq<Seq<char>>,
}

/// The outcome of evaluating one expression or body sequence.
pub struct EvalOutV {
    pub res: Result<Option<ObjectV>, EvalErrorV>,
    pub st: StateV,
}

/// The outcome of evaluating an argument list.
pub enum ArgsResV {
    Done(Seq<ObjectV>),
    Halted(Option<Seq<char>>),
    Failed(EvalErrorV),
}

/// The outcome of evaluating an argument list, with the context after it.
pub struct ArgsOutV {
    pub res: ArgsResV,
    pub st: StateV,
}

// ---------------------------------------------------------------------------
// Substitution
// ---------------------------------------------------------------------------

/// Substitutes mapped atoms throughout an expression: an atom whose object
/// equals a key becomes an atom of the mapped value; conditional-case atoms
/// are entered and rewritten inside instead.
pub open spec fn subst_expr(e: ExprV, m: Map<ObjectV, ObjectV>) -> ExprV
    decreases e,
{
    match e {
        ExprV::Atom(o) => match o {
            ObjectV::Cond(c, body) => ExprV::Atom(
                ObjectV::Cond(Box::new(subst_expr(*c, m)), subst_list(body, m)),
            ),
            _ => if m.contains_key(o) {
                ExprV::Atom(m[o])
            } else {
                e
            },
        },
        ExprV::Compound(es) => ExprV::Compound(subst_list(es, m)),
    }
}

/// Substitution applied to each expression of a sequence.
pub open spec fn subst_list(es: Seq<ExprV>, m: Map<ObjectV, ObjectV>) -> Seq<ExprV>
    decreases es,
{
    Seq::new(
        es.len(),
        |i: int|
            if 0 <= i < es.len() {
                subst_expr(es[i], m)
            } else {
                ExprV::Compound(Seq::empty())
            },
    )
}

/// The positional parameter-to-argument mapping; with a repeated parameter
/// name, the later position wins.
pub open spec fn subst_map(params: Seq<ObjectV>, args: Seq<ObjectV>) -> Map<ObjectV, ObjectV>
    decreases params.len(),
{
    if params.len() == 0 || args.len() == 0 {
        Map::empty()
    } else {
        subst_map(params.drop_last(), args.drop_last()).insert(params.last(), args.last())
    }
}

// ---------------------------------------------------------------------------
// Function construction
// ---------------------------------------------------------------------------

/// Whether a parameter declaration is a bare symbol atom.
pub open spec fn param_is_symbol(e: ExprV) -> bool {
    e is Atom && e->Atom_0 is Symbol
}

/// Whether every parameter declaration is a bare symbol atom.
pub open spec fn params_all_symbols(ps: Seq<ExprV>) -> bool {
    forall|i: int| 0 <= i < ps.len() ==> #[trigger] param_is_symbol(ps[i])
}

/// The parameter objects of a declaration list.
pub open spec fn params_objs(ps: Seq<ExprV>) -> Seq<ObjectV> {
    Seq::new(
        ps.len(),
        |i: int|
            if 0 <= i < ps.len() {
                ps[i]->Atom_0
            } else {
                ObjectV::Boolean(false)
            },
    )
}

/// A user-defined function from a parameter declaration list and a body
/// sequence: every parameter must be a bare symbol and the body must hold at
/// least one expression.
pub open spec fn make_function_spec(params: Seq<ExprV>, body: Seq<ExprV>) -> Result<
    FunctionV,
    EvalErrorV,
> {
    if !params_all_symbols(params) {
        Result::Err(EvalErrorV::InvalidVarName)
    } else if body.len() == 0 {
        Result::Err(EvalErrorV::EmptyFunctionBody)
    } else {
        Result::Ok(FunctionV::UserDef(params_objs(params), body))
    }
}

// ---------------------------------------------------------------------------
// Builtin procedures: the pure ones
// ---------------------------------------------------------------------------

/// All arguments wrapped into a list value.
pub open spec fn list_spec(args: Seq<ObjectV>) -> Result<Option<ObjectV>, EvalErrorV> {
    Result::Ok(Option::Some(ObjectV::List(args)))
}

/// Joining two values: a list head takes the element appended, a list tail
/// takes the element prepended, two non-lists make a pair list; two lists
/// cannot be joined.
pub open spec fn cons_spec(args: Seq<ObjectV>) -> Result<Option<ObjectV>, EvalErrorV> {
    if args.len() != 2 {
        Result::Err(EvalErrorV::ArgCountError)
    } else {
        let a = args[0];
        let b = args[1];
        match a {
            ObjectV::List(xs) => match b {
                ObjectV::List(_) => Result::Err(EvalErrorV::CannotConsTwoLists),
                _ => Result::Ok(Option::Some(ObjectV::List(xs.push(b)))),
            },
            _ => match b {
                ObjectV::List(ys) => Result::Ok(Option::Some(ObjectV::List(seq![a] + ys))),
                _ => Result::Ok(Option::Some(ObjectV::List(seq![a, b]))),
            },
        }
    }
}

/// Whether every argument equals the first.
pub open spec fn all_equal_first(args: Seq<ObjectV>) -> bool {
    forall|i: int| 0 <= i < args.len() ==> #[trigger] args[i] == args[0]
}

/// Structural equality of all arguments, as a boolean value.
pub open spec fn equals_spec(args: Seq<ObjectV>) -> Result<Option<ObjectV>, EvalErrorV> {
    if args.len() == 0 {
        Result::Err(EvalErrorV::ArgCountError)
    } else {
        Result::Ok(Option::Some(ObjectV::Boolean(all_equal_first(args))))
    }
}

/// Whether every argument is a boolean value.
pub open spec fn all_booleans(args: Seq<ObjectV>) -> bool {
    forall|i: int| 0 <= i < args.len() ==> args[i] is Boolean
}

/// Whether every argument is the true value.
pub open spec fn all_true(args: Seq<ObjectV>) -> bool {
    forall|i: int| 0 <= i < args.len() ==> args[i] == ObjectV::Boolean(true)
}

/// Whether some argument is the true value.
pub open spec fn any_true(args: Seq<ObjectV>) -> bool {
    exists|i: int| 0 <= i < args.len() && args[i] == ObjectV::Boolean(true)
}

/// Logical conjunction of boolean arguments.
pub open spec fn and_spec(args: Seq<ObjectV>) -> Result<Option<ObjectV>, EvalErrorV> {
    if !all_booleans(args) {
        Result::Err(EvalErrorV::TypeMismatch)
    } else {
        Result::Ok(Option::Some(ObjectV::Boolean(all_true(args))))
    }
}

/// Logical disjunction of boolean arguments.
pub open spec fn or_spec(args: Seq<ObjectV>) -> Result<Option<ObjectV>, EvalErrorV> {
    if !all_booleans(args) {
        Result::Err(EvalErrorV::TypeMismatch)
    } else {
        Result::Ok(Option::Some(ObjectV::Boolean(any_true(args))))
    }
}

/// Logical negation of one boolean argument.
pub open spec fn not_spec(args: Seq<ObjectV>) -> Result<Option<ObjectV>, EvalErrorV> {
    if !all_booleans(args) {
        Result::Err(EvalErrorV::TypeMismatch)
    } else if args.len() != 1 {
        Result::Err(EvalErrorV::ArgCountError)
    } else {
        Result::Ok(Option::Some(ObjectV::Boolean(args[0] != ObjectV::Boolean(true))))
    }
}

/// The exit sentinel: no message without an argument, the argument's message
/// text with one.
pub open spec fn exit_spec(args: Seq<ObjectV>) -> Result<Option<ObjectV>, EvalErrorV> {
    if args.len() > 1 {
        Result::Err(EvalErrorV::ArgCountError)
    } else if args.len() == 1 {
        Result::Ok(Option::Some(ObjectV::Exit(Option::Some(message_of_obj(args[0])))))
    } else {
        Result::Ok(Option::Some(ObjectV::Exit(Option::None)))
    }
}

// ---------------------------------------------------------------------------
// Builtin procedures: arithmetic
// ---------------------------------------------------------------------------

/// Whether every argument is a number.
pub open spec fn all_numbers(args: Seq<ObjectV>) -> bool {
    forall|i: int| 0 <= i < args.len() ==> args[i] is Number
}

/// The operator character of an arithmetic builtin.
pub open spec fn op_char(b: Builtin) -> char {
    match b {
        Builtin::Add => '+',
        Builtin::Sub => '-',
        Builtin::Mul => '*',
        Builtin::Div => '/',
        Builtin::Rem => '%',
        _ => '?',
    }
}

/// A float literal text acceptable to the expression evaluator: a leading
/// point, bare or after the sign, takes a zero before it.
pub open spec fn norm_float_text(t: Seq<char>) -> Seq<char> {
    if t.len() >= 1 && t[0] == '.' {
        seq!['0'] + t
    } else if t.len() >= 2 && (t[0] == '+' || t[0] == '-') && t[1] == '.' {
        seq![t[0], '0'] + t.drop_first()
    } else {
        t
    }
}

/// The arithmetic expression text handed to the float evaluator for one step.
pub open spec fn float_expr_text(op: char, a: Seq<char>, b: Seq<char>) -> Seq<char> {
    seq!['('] + norm_float_text(a) + seq![')', ' ', op, ' ', '('] + norm_float_text(b) + seq![')']
}

/// Division truncated toward zero, as machine division behaves.
pub open spec fn trunc_div(x: int, y: int) -> int {
    let q = abs_int(x) / abs_int(y);
    if (x < 0) != (y < 0) {
        -q
    } else {
        q
    }
}

/// Remainder of truncated division; its sign follows the dividend.
pub open spec fn trunc_rem(x: int, y: int) -> int {
    let m = abs_int(x) % abs_int(y);
    if x < 0 {
        -m
    } else {
        m
    }
}

pub open spec fn abs_int(x: int) -> int {
    if x < 0 {
        -x
    } else {
        x
    }
}

pub open spec fn i64_min() -> int {
    -0x8000_0000_0000_0000
}

pub open spec fn i64_max() -> int {
    0x7fff_ffff_ffff_ffff
}

/// One step of integer arithmetic: overflow and division by zero are errors.
pub open spec fn int_step(op: Builtin, x: int, y: int) -> Result<NumberV, EvalErrorV> {
    match op {
        Builtin::Add => if i64_min() <= x + y <= i64_max() {
            Result::Ok(NumberV::Int(x + y))
        } else {
            Result::Err(EvalErrorV::NumericOverflow)
        },
        Builtin::Sub => if i64_min() <= x - y <= i64_max() {
            Result::Ok(NumberV::Int(x - y))
        } else {
            Result::Err(EvalErrorV::NumericOverflow)
        },
        Builtin::Mul => if i64_min() <= x * y <= i64_max() {
            Result::Ok(NumberV::Int(x * y))
        } else {
            Result::Err(EvalErrorV::NumericOverflow)
        },
        Builtin::Div => if y == 0 {
            Result::Err(EvalErrorV::DivisionByZero)
        } else if x == i64_min() && y == -1 {
            Result::Err(EvalErrorV::NumericOverflow)
        } else {
            Result::Ok(NumberV::Int(trunc_div(x, y)))
        },
        Builtin::Rem => if y == 0 {
            Result::Err(EvalErrorV::DivisionByZero)
        } else if x == i64_min() && y == -1 {
            Result::Err(EvalErrorV::NumericOverflow)
        } else {
            Result::Ok(NumberV::Int(trunc_rem(x, y)))
        },
        _ => Result::Err(EvalErrorV::TypeMismatch),
    }
}

/// One step of arithmetic: integers stay integers; a float operand promotes
/// the step to text-level float arithmetic through the expression evaluator.
pub open spec fn num_step(op: Builtin, a: NumberV, b: NumberV) -> Result<NumberV, EvalErrorV> {
    match (a, b) {
        (NumberV::Int(x), NumberV::Int(y)) => int_step(op, x, y),
        _ => {
            let t = float_expr_text(op_char(op), text_of_num(a), text_of_num(b));
            match float_eval_of(t) {
                Option::Some(r) => Result::Ok(NumberV::Float(r)),
                Option::None => Result::Err(EvalErrorV::NumericError),
            }
        },
    }
}

/// Left fold of an arithmetic step over the arguments after the first.
pub open spec fn arith_fold(op: Builtin, acc: NumberV, args: Seq<ObjectV>, i: int) -> Result<
    NumberV,
    EvalErrorV,
>
    decreases args.len() - i,
{
    if i < 0 || i >= args.len() {
        Result::Ok(acc)
    } else {
        match num_step(op, acc, args[i]->Number_0) {
            Result::Ok(n2) => arith_fold(op, n2, args, i + 1),
            Result::Err(e) => Result::Err(e),
        }
    }
}

/// An arithmetic builtin: at least two arguments, all numbers, folded left
/// to right.
pub open spec fn arith_spec(op: Builtin, args: Seq<ObjectV>) -> Result<
    Option<ObjectV>,
    EvalErrorV,
> {
    if !(args.len() > 1 && all_numbers(args)) {
        Result::Err(EvalErrorV::TypeMismatch)
    } else {
        match arith_fold(op, args[0]->Number_0, args, 1) {
            Result::Ok(n) => Result::Ok(Option::Some(ObjectV::Number(n))),
            Result::Err(e) => Result::Err(e),
        }
    }
}

// ---------------------------------------------------------------------------
// The evaluator
// ---------------------------------------------------------------------------

/// Whether every argument is a conditional case.
pub open spec fn all_cond_cases(args: Seq<ObjectV>) -> bool {
    forall|i: int| 0 <= i < args.len() ==> args[i] is Cond
}

/// Whether the final case's condition is the bare symbol `else`, checked
/// syntactically.
pub open spec fn final_case_is_else(args: Seq<ObjectV>) -> bool {
    (args.last() matches ObjectV::Cond(c, _) && *c == ExprV::Atom(
        ObjectV::Symbol("else"@),
    ))
}

/// Evaluation of one expression.
pub open spec fn eval_expr_spec(e: ExprV, st: StateV, fuel: nat) -> EvalOutV
    decreases fuel, size_expr(e), 0int,
    via eval_expr_spec_dec
{
    match e {
        ExprV::Atom(o) => match o {
            ObjectV::Symbol(name) => if st.env.contains_key(name) {
                EvalOutV { res: Result::Ok(Option::Some(st.env[name])), st }
            } else {
                EvalOutV { res: Result::Err(EvalErrorV::UndefinedVariable(name)), st }
            },
            _ => EvalOutV { res: Result::Ok(Option::Some(o)), st },
        },
        ExprV::Compound(es) => {
            if es.len() == 0 {
                EvalOutV { res: Result::Err(EvalErrorV::EmptyCompound), st }
            } else {
                match es[0] {
                    ExprV::Compound(_) => {
                        let h = eval_expr_spec(es[0], st, fuel);
                        match h.res {
                            Result::Err(er) => EvalOutV { res: Result::Err(er), st: h.st },
                            Result::Ok(Option::None) => EvalOutV {
                                res: Result::Err(EvalErrorV::NotAFunction(Option::None)),
                                st: h.st,
                            },
                            Result::Ok(Option::Some(v)) => eval_head_value(v, es, h.st, fuel),
                        }
                    },
                    ExprV::Atom(ObjectV::Symbol(name)) => eval_symbol_head(name, es, st, fuel),
                    ExprV::Atom(ObjectV::Function(f)) => eval_call(f, es, st, fuel),
                    ExprV::Atom(other) => EvalOutV {
                        res: Result::Err(EvalErrorV::NotAFunction(Option::Some(other))),
                        st,
                    },
                }
            }
        },
    }
}

/// Dispatch on the value an evaluated head produced: a symbol continues as a
/// named head, a function value is applied, anything else is no function.
pub open spec fn eval_head_value(v: ObjectV, es: Seq<ExprV>, st: StateV, fuel: nat) -> EvalOutV
    decreases fuel, size_list_from(es, 1) + 2, 1int,
{
    match v {
        ObjectV::Symbol(name) => eval_symbol_head(name, es, st, fuel),
        ObjectV::Function(f) => eval_call(f, es, st, fuel),
        other => EvalOutV { res: Result::Err(EvalErrorV::NotAFunction(Option::Some(other))), st },
    }
}

/// A named head: the special forms, or a function looked up by name before
/// the arguments are evaluated.
pub open spec fn eval_symbol_head(name: Seq<char>, es: Seq<ExprV>, st: StateV, fuel: nat) -> EvalOutV
    decreases fuel, size_list_from(es, 1) + 1, 2int,
    via eval_symbol_head_dec
{
    if name == "define"@ {
        if es.len() < 2 {
            EvalOutV { res: Result::Err(EvalErrorV::InvalidVariableIdentifier), st }
        } else {
            match es[1] {
                ExprV::Atom(ObjectV::Symbol(var)) => {
                    if es.len() == 2 {
                        EvalOutV { res: Result::Err(EvalErrorV::DefineMissingValue), st }
                    } else {
                        let r = eval_expr_spec(es[es.len() - 1], st, fuel);
                        match r.res {
                            Result::Err(er) => EvalOutV { res: Result::Err(er), st: r.st },
                            Result::Ok(Option::None) => EvalOutV {
                                res: Result::Err(EvalErrorV::CannotSetToNone),
                                st: r.st,
                            },
                            Result::Ok(Option::Some(v)) => {
                                if r.st.env.contains_key(var) {
                                    EvalOutV {
                                        res: Result::Err(EvalErrorV::Redefinition(var)),
                                        st: r.st,
                                    }
                                } else {
                                    EvalOutV {
                                        res: Result::Ok(Option::None),
                                        st: StateV { env: r.st.env.insert(var, v), out: r.st.out },
                                    }
                                }
                            },
                        }
                    }
                },
                ExprV::Atom(_) => EvalOutV {
                    res: Result::Err(EvalErrorV::InvalidVariableIdentifier),
                    st,
                },
                ExprV::Compound(fndef) => {
                    if fndef.len() == 0 {
                        EvalOutV { res: Result::Err(EvalErrorV::InvalidFunctionIdentifier), st }
                    } else {
                        match fndef[0] {
                            ExprV::Atom(ObjectV::Symbol(fname)) => {
                                match make_function_spec(
                                    fndef.subrange(1, fndef.len() as int),
                                    es.subrange(2, es.len() as int),
                                ) {
                                    Result::Ok(f) => {
                                        if st.env.contains_key(fname) {
                                            EvalOutV {
                                                res: Result::Err(
                                                    EvalErrorV::Redefinition(fname),
                                                ),
                                                st,
                                            }
                                        } else {
                                            EvalOutV {
                                                res: Result::Ok(Option::None),
                                                st: StateV {
                                                    env: st.env.insert(
                                                        fname,
                                                        ObjectV::Function(f),
                                                    ),
                                                    out: st.out,
                                                },
                                            }
                                        }
                                    },
                                    Result::Err(er) => EvalOutV { res: Result::Err(er), st },
                                }
                            },
                            _ => EvalOutV {
                                res: Result::Err(EvalErrorV::InvalidFunctionIdentifier),
                                st,
                            },
                        }
                    }
                },
            }
        }
    } else if name == "lambda"@ {
        if es.len() < 2 {
            EvalOutV { res: Result::Err(EvalErrorV::InvalidLambda), st }
        } else {
            match es[1] {
                ExprV::Compound(params) => {
                    match make_function_spec(params, es.subrange(2, es.len() as int)) {
                        Result::Ok(f) => EvalOutV {
                            res: Result::Ok(Option::Some(ObjectV::Function(f))),
                            st,
                        },
                        Result::Err(er) => EvalOutV { res: Result::Err(er), st },
                    }
                },
                _ => EvalOutV { res: Result::Err(EvalErrorV::InvalidLambda), st },
            }
        }
    } else {
        if st.env.contains_key(name) && st.env[name] is Function {
            eval_call(st.env[name]->Function_0, es, st, fuel)
        } else {
            EvalOutV { res: Result::Err(EvalErrorV::UndefinedFunction(name)), st }
        }
    }
}

#[via_fn]
proof fn eval_expr_spec_dec(e: ExprV, st: StateV, fuel: nat) {
    match e {
        ExprV::Compound(es) => {
            if es.len() > 0 {
                crate::data::lemma_size_expr_pos(es[0]);
            }
        },
        _ => {},
    }
}

#[via_fn]
proof fn eval_symbol_head_dec(name: Seq<char>, es: Seq<ExprV>, st: StateV, fuel: nat) {
    if es.len() >= 3 {
        lemma_size_elem_le(es, 1, es.len() - 1);
    }
}

/// Evaluation of the argument forms, then application of the function.
pub open spec fn eval_call(f: FunctionV, es: Seq<ExprV>, st: StateV, fuel: nat) -> EvalOutV
    decreases fuel, size_list_from(es, 1) + 1, 1int,
{
    let a = eval_args_spec(es, 1, st, fuel);
    match a.res {
        ArgsResV::Failed(er) => EvalOutV { res: Result::Err(er), st: a.st },
        ArgsResV::Halted(m) => EvalOutV {
            res: Result::Ok(Option::Some(ObjectV::Exit(m))),
            st: a.st,
        },
        ArgsResV::Done(vals) => apply_spec(f, vals, a.st, fuel),
    }
}

/// Left-to-right evaluation of `es[i..]` as arguments: an error or an exit
/// value stops the walk at once; a valueless result contributes nothing.
pub open spec fn eval_args_spec(es: Seq<ExprV>, i: int, st: StateV, fuel: nat) -> ArgsOutV
    decreases fuel, size_list_from(es, i), 1int,
    via eval_args_spec_dec
{
    if i < 0 || i >= es.len() {
        ArgsOutV { res: ArgsResV::Done(Seq::empty()), st }
    } else {
        let r = eval_expr_spec(es[i], st, fuel);
        match r.res {
            Result::Err(er) => ArgsOutV { res: ArgsResV::Failed(er), st: r.st },
            Result::Ok(Option::Some(v)) => match v {
                ObjectV::Exit(m) => ArgsOutV { res: ArgsResV::Halted(m), st: r.st },
                _ => {
                    let rest = eval_args_spec(es, i + 1, r.st, fuel);
                    match rest.res {
                        ArgsResV::Done(vs) => ArgsOutV {
                            res: ArgsResV::Done(seq![v] + vs),
                            st: rest.st,
                        },
                        _ => rest,
                    }
                },
            },
            Result::Ok(Option::None) => eval_args_spec(es, i + 1, r.st, fuel),
        }
    }
}

#[via_fn]
proof fn eval_args_spec_dec(es: Seq<ExprV>, i: int, st: StateV, fuel: nat) {
    if 0 <= i < es.len() {
        crate::data::lemma_size_expr_pos(es[i]);
    }
}

/// Application: a builtin dispatches on which procedure it is; a
/// user-defined function checks arity, substitutes the arguments into its
/// body, and evaluates the body as a sequence for one unit of budget.
pub open spec fn apply_spec(f: FunctionV, args: Seq<ObjectV>, st: StateV, fuel: nat) -> EvalOutV
    decreases fuel, 1int, 0int,
{
    match f {
        FunctionV::Builtin(b) => builtin_spec(b, args, st, fuel),
        FunctionV::UserDef(params, body) => {
            if args.len() != params.len() {
                EvalOutV {
                    res: Result::Err(EvalErrorV::ArityMismatch(params.len(), args.len())),
                    st,
                }
            } else if fuel == 0 {
                EvalOutV { res: Result::Err(EvalErrorV::RecursionLimit), st }
            } else {
                eval_body_spec(subst_list(body, subst_map(params, args)), 0, st, (fuel - 1) as nat)
            }
        },
    }
}

/// A body sequence: all but the last expression run for effect, though an
/// exit value or an error stops the walk; the last one's value is the
/// result.
pub open spec fn eval_body_spec(es: Seq<ExprV>, i: int, st: StateV, fuel: nat) -> EvalOutV
    decreases fuel, size_list_from(es, i), 1int,
    via eval_body_spec_dec
{
    if i < 0 || i >= es.len() {
        EvalOutV { res: Result::Err(EvalErrorV::EmptyExprSequence), st }
    } else if i == es.len() - 1 {
        eval_expr_spec(es[i], st, fuel)
    } else {
        let r = eval_expr_spec(es[i], st, fuel);
        match r.res {
            Result::Err(er) => EvalOutV { res: Result::Err(er), st: r.st },
            Result::Ok(Option::Some(ObjectV::Exit(m))) => EvalOutV {
                res: Result::Ok(Option::Some(ObjectV::Exit(m))),
                st: r.st,
            },
            _ => eval_body_spec(es, i + 1, r.st, fuel),
        }
    }
}

#[via_fn]
proof fn eval_body_spec_dec(es: Seq<ExprV>, i: int, st: StateV, fuel: nat) {
    if 0 <= i < es.len() {
        crate::data::lemma_size_expr_pos(es[i]);
    }
}

/// Dispatch over the builtin procedures.
pub open spec fn builtin_spec(b: Builtin, args: Seq<ObjectV>, st: StateV, fuel: nat) -> EvalOutV
    decreases fuel, 0int, 1int,
{
    match b {
        Builtin::List => EvalOutV { res: list_spec(args), st },
        Builtin::Cons => EvalOutV { res: cons_spec(args), st },
        Builtin::Equals => EvalOutV { res: equals_spec(args), st },
        Builtin::And => EvalOutV { res: and_spec(args), st },
        Builtin::Or => EvalOutV { res: or_spec(args), st },
        Builtin::Not => EvalOutV { res: not_spec(args), st },
        Builtin::Exit => EvalOutV { res: exit_spec(args), st },
        Builtin::Add | Builtin::Sub | Builtin::Mul | Builtin::Div | Builtin::Rem => EvalOutV {
            res: arith_spec(b, args),
            st,
        },
        Builtin::Print => if args.len() != 1 {
            EvalOutV { res: Result::Err(EvalErrorV::ArgCountError), st }
        } else {
            EvalOutV {
                res: Result::Ok(Option::None),
                st: StateV { env: st.env, out: st.out.push(text_of_obj(args[0])) },
            }
        },
        Builtin::Cond => {
            if args.len() < 2 {
                EvalOutV { res: Result::Err(EvalErrorV::ConditionalError), st }
            } else if !all_cond_cases(args) {
                EvalOutV { res: Result::Err(EvalErrorV::ConditionalError), st }
            } else if !final_case_is_else(args) {
                EvalOutV { res: Result::Err(EvalErrorV::ConditionalError), st }
            } else {
                cond_cases_spec(args, 0, st, fuel)
            }
        },
    }
}

/// Outcome of a sequence of top-level expressions: go on, or stop at an
/// exit sentinel with its message.
pub enum InhibitV {
    Continue,
    Stop(Option<Seq<char>>),
}

/// The outcome of a whole run: whether it stopped, each expression's
/// outcome, and the context after it.
pub struct RunOutV {
    pub inhibit: InhibitV,
    pub results: Seq<Result<Option<ObjectV>, EvalErrorV>>,
    pub st: StateV,
}

/// A sequence of top-level expressions, each evaluated in turn: an exit
/// value stops the run at once and carries its message; every other
/// outcome, error or value, is collected and the run goes on.
pub open spec fn run_spec(es: Seq<ExprV>, i: int, st: StateV, fuel: nat) -> RunOutV
    decreases es.len() - i,
{
    if i < 0 || i >= es.len() {
        RunOutV { inhibit: InhibitV::Continue, results: Seq::empty(), st }
    } else {
        let r = eval_expr_spec(es[i], st, fuel);
        match r.res {
            Result::Ok(Option::Some(ObjectV::Exit(m))) => RunOutV {
                inhibit: InhibitV::Stop(m),
                results: Seq::empty(),
                st: r.st,
            },
            _ => {
                let rest = run_spec(es, i + 1, r.st, fuel);
                RunOutV {
                    inhibit: rest.inhibit,
                    results: seq![r.res] + rest.results,
                    st: rest.st,
                }
            },
        }
    }
}

/// The conditional cases in order: each condition must reduce to a boolean;
/// the first true one selects its case's body; the final case is the `else`
/// and its body runs when no earlier condition held.
pub open spec fn cond_cases_spec(args: Seq<ObjectV>, i: int, st: StateV, fuel: nat) -> EvalOutV
    decreases fuel, 0int, 0int,
{
    if fuel == 0 {
        EvalOutV { res: Result::Err(EvalErrorV::RecursionLimit), st }
    } else if i < 0 || i >= args.len() {
        EvalOutV { res: Result::Err(EvalErrorV::ConditionalError), st }
    } else if i == args.len() - 1 {
        match args[i] {
            ObjectV::Cond(_, body) => eval_body_spec(body, 0, st, (fuel - 1) as nat),
            _ => EvalOutV { res: Result::Err(EvalErrorV::ConditionalError), st },
        }
    } else {
        match args[i] {
            ObjectV::Cond(c, body) => {
                let r = eval_expr_spec(*c, st, (fuel - 1) as nat);
                match r.res {
                    Result::Ok(Option::Some(ObjectV::Boolean(bv))) => if bv {
                        eval_body_spec(body, 0, r.st, (fuel - 1) as nat)
                    } else {
                        cond_cases_spec(args, i + 1, r.st, (fuel - 1) as nat)
                    },
                    Result::Err(er) => EvalOutV { res: Result::Err(er), st: r.st },
                    _ => EvalOutV { res: Result::Err(EvalErrorV::ConditionalError), st: r.st },
                }
            },
            _ => EvalOutV { res: Result::Err(EvalErrorV::ConditionalError), st },
        }
    }
}

} // verus!
