//! The builtin procedures that need no evaluation: list building, joining,
//! structural equality, the boolean operations, arithmetic, and the exit
//! sentinel.

use vstd::prelude::*;

use crate::data::Boolean;
use crate::data::Builtin;
use crate::data::Number;
use crate::data::NumberV;
use crate::data::Object;
use crate::data::ObjectV;
use crate::data::obj_eq;
use crate::data::view_obj;
use crate::data::view_objs;
use crate::eval::EvalError;
use crate::eval::res_view;
use crate::outside::eval_float_text;
use crate::semantics::EvalErrorV;
use crate::semantics::all_booleans;
use crate::semantics::all_equal_first;
use crate::semantics::all_numbers;
use crate::semantics::all_true;
use crate::semantics::and_spec;
use crate::semantics::any_true;
use crate::semantics::arith_fold;
use crate::semantics::arith_spec;
use crate::semantics::cons_spec;
use crate::semantics::equals_spec;
use crate::semantics::exit_spec;
use crate::semantics::float_expr_text;
use crate::semantics::list_spec;
use crate::semantics::norm_float_text;
use crate::semantics::not_spec;
use crate::semantics::num_step;
use crate::semantics::op_char;
use crate::semantics::or_spec;
use crate::semantics::int_step;
use crate::text::int_to_string;
use crate::text::message_text;
use crate::text::text_of_num;

verus! {

/// Wraps the arguments into a list value.
pub fn list(args: Vec<Object>) -> (r: Result<Option<Object>, EvalError>)
    ensures
        res_view(r) == list_spec(view_objs(args@)),
{
    Result::Ok(Option::Some(Object::List(args)))
}

/// Joins a value onto a list, or two values into a pair list; two lists
/// cannot be joined.
pub fn cons(mut args: Vec<Object>) -> (r: Result<Option<Object>, EvalError>)
    ensures
        res_view(r) == cons_spec(view_objs(args@)),
{
    let ghost av = view_objs(args@);
    if args.len() != 2 {
        return Result::Err(EvalError::ArgCountError);
    }
    let b = args.pop().unwrap();
    let a = args.pop().unwrap();
    proof {
        assert(av[0] == view_obj(a) && av[1] == view_obj(b));
    }
    match a {
        Object::List(mut xs) => match b {
            Object::List(_) => Result::Err(EvalError::CannotConsTwoLists),
            _ => {
                let ghost xv = view_objs(xs@);
                xs.push(b);
                proof {
                    assert(view_objs(xs@) =~= xv.push(av[1]));
                }
                Result::Ok(Option::Some(Object::List(xs)))
            },
        },
        _ => match b {
            Object::List(ys) => {
                let mut r: Vec<Object> = Vec::new();
                r.push(a);
                let n = ys.len();
                let ghost yv = view_objs(ys@);
                for k in 0..n
                    invariant
                        n == ys@.len(),
                        yv == view_objs(ys@),
                        r@.len() == k + 1,
                        view_obj(r@[0]) == av[0],
                        forall|j: int| 1 <= j < k + 1 ==> view_obj(#[trigger] r@[j]) == yv[j - 1],
                    decreases n - k,
                {
                    r.push(ys[k].duplicate());
                }
                proof {
                    assert(view_objs(r@) =~= seq![av[0]] + yv);
                }
                Result::Ok(Option::Some(Object::List(r)))
            },
            _ => {
                let mut r: Vec<Object> = Vec::new();
                r.push(a);
                r.push(b);
                proof {
                    assert(view_objs(r@) =~= seq![av[0], av[1]]);
                }
                Result::Ok(Option::Some(Object::List(r)))
            },
        },
    }
}

/// Structural equality of all arguments to the first.
pub fn equals(args: Vec<Object>) -> (r: Result<Option<Object>, EvalError>)
    ensures
        res_view(r) == equals_spec(view_objs(args@)),
{
    let ghost av = view_objs(args@);
    if args.len() == 0 {
        return Result::Err(EvalError::ArgCountError);
    }
    let n = args.len();
    for k in 1..n
        invariant
            n == args@.len(),
            av == view_objs(args@),
            n >= 1,
            forall|j: int| 0 <= j < k ==> #[trigger] av[j] == av[0],
        decreases n - k,
    {
        if !obj_eq(&args[k], &args[0]) {
            proof {
                assert(av[k as int] != av[0]);
                assert(!all_equal_first(av));
            }
            return Result::Ok(Option::Some(Object::Boolean(Boolean::False)));
        }
    }
    proof {
        assert(all_equal_first(av));
    }
    Result::Ok(Option::Some(Object::Boolean(Boolean::True)))
}

fn check_all_booleans(args: &Vec<Object>) -> (r: bool)
    ensures
        r == all_booleans(view_objs(args@)),
{
    let ghost av = view_objs(args@);
    let n = args.len();
    for k in 0..n
        invariant
            n == args@.len(),
            av == view_objs(args@),
            forall|j: int| 0 <= j < k ==> av[j] is Boolean,
        decreases n - k,
    {
        match &args[k] {
            Object::Boolean(_) => {},
            _ => {
                proof {
                    assert(!(av[k as int] is Boolean));
                }
                return false;
            },
        }
    }
    true
}

/// Logical conjunction of boolean arguments.
pub fn and(args: Vec<Object>) -> (r: Result<Option<Object>, EvalError>)
    ensures
        res_view(r) == and_spec(view_objs(args@)),
{
    let ghost av = view_objs(args@);
    if !check_all_booleans(&args) {
        return Result::Err(EvalError::TypeMismatch);
    }
    let n = args.len();
    for k in 0..n
        invariant
            n == args@.len(),
            av == view_objs(args@),
            all_booleans(av),
            forall|j: int| 0 <= j < k ==> av[j] == ObjectV::Boolean(true),
        decreases n - k,
    {
        match &args[k] {
            Object::Boolean(Boolean::True) => {},
            _ => {
                proof {
                    assert(av[k as int] != ObjectV::Boolean(true));
                    assert(!all_true(av));
                }
                return Result::Ok(Option::Some(Object::Boolean(Boolean::False)));
            },
        }
    }
    proof {
        assert(all_true(av));
    }
    Result::Ok(Option::Some(Object::Boolean(Boolean::True)))
}

/// Logical disjunction of boolean arguments.
pub fn or(args: Vec<Object>) -> (r: Result<Option<Object>, EvalError>)
    ensures
        res_view(r) == or_spec(view_objs(args@)),
{
    let ghost av = view_objs(args@);
    if !check_all_booleans(&args) {
        return Result::Err(EvalError::TypeMismatch);
    }
    let n = args.len();
    for k in 0..n
        invariant
            n == args@.len(),
            av == view_objs(args@),
            all_booleans(av),
            forall|j: int| 0 <= j < k ==> av[j] != ObjectV::Boolean(true),
        decreases n - k,
    {
        match &args[k] {
            Object::Boolean(Boolean::True) => {
                proof {
                    assert(av[k as int] == ObjectV::Boolean(true));
                    assert(any_true(av));
                }
                return Result::Ok(Option::Some(Object::Boolean(Boolean::True)));
            },
            _ => {},
        }
    }
    proof {
        assert(!any_true(av));
    }
    Result::Ok(Option::Some(Object::Boolean(Boolean::False)))
}

/// Logical negation of one boolean argument.
pub fn not(args: Vec<Object>) -> (r: Result<Option<Object>, EvalError>)
    ensures
        res_view(r) == not_spec(view_objs(args@)),
{
    let ghost av = view_objs(args@);
    if !check_all_booleans(&args) {
        return Result::Err(EvalError::TypeMismatch);
    }
    if args.len() != 1 {
        return Result::Err(EvalError::ArgCountError);
    }
    match &args[0] {
        Object::Boolean(Boolean::True) => Result::Ok(
            Option::Some(Object::Boolean(Boolean::False)),
        ),
        _ => Result::Ok(Option::Some(Object::Boolean(Boolean::True))),
    }
}

/// The exit sentinel for the given arguments.
pub fn exit(args: Vec<Object>) -> (r: Result<Option<Object>, EvalError>)
    ensures
        res_view(r) == exit_spec(view_objs(args@)),
{
    if args.len() > 1 {
        Result::Err(EvalError::ArgCountError)
    } else if args.len() == 1 {
        let m = message_text(&args[0]);
        Result::Ok(Option::Some(Object::Exit(Option::Some(m))))
    } else {
        Result::Ok(Option::Some(Object::Exit(Option::None)))
    }
}

// ---------------------------------------------------------------------------
// Arithmetic
// ---------------------------------------------------------------------------

fn magnitude(x: i64) -> (r: u64)
    ensures
        r == crate::semantics::abs_int(x as int),
{
    if x >= 0 {
        x as u64
    } else {
        ((-(x + 1)) as u64) + 1
    }
}

/// One integer step of an arithmetic builtin.
fn int_step_exec(op: Builtin, x: i64, y: i64) -> (r: Result<i64, EvalError>)
    requires
        op is Add || op is Sub || op is Mul || op is Div || op is Rem,
    ensures
        match r {
            Result::Ok(v) => int_step(op, x as int, y as int) == Result::Ok::<
                NumberV,
                EvalErrorV,
            >(NumberV::Int(v as int)),
            Result::Err(e) => int_step(op, x as int, y as int) == Result::Err::<
                NumberV,
                EvalErrorV,
            >(e@),
        },
{
    match op {
        Builtin::Add => {
            let z: i128 = (x as i128) + (y as i128);
            if z < -0x8000_0000_0000_0000i128 || z > 0x7fff_ffff_ffff_ffffi128 {
                Result::Err(EvalError::NumericOverflow)
            } else {
                Result::Ok(z as i64)
            }
        },
        Builtin::Sub => {
            let z: i128 = (x as i128) - (y as i128);
            if z < -0x8000_0000_0000_0000i128 || z > 0x7fff_ffff_ffff_ffffi128 {
                Result::Err(EvalError::NumericOverflow)
            } else {
                Result::Ok(z as i64)
            }
        },
        Builtin::Mul => {
            proof {
                assert((x as int) * (y as int) <= 0x8000_0000_0000_0000 * 0x8000_0000_0000_0000
                    && (x as int) * (y as int) >= -(0x8000_0000_0000_0000 * 0x8000_0000_0000_0000))
                    by (nonlinear_arith)
                    requires
                        -0x8000_0000_0000_0000 <= x as int <= 0x7fff_ffff_ffff_ffff,
                        -0x8000_0000_0000_0000 <= y as int <= 0x7fff_ffff_ffff_ffff,
                ;
            }
            let z: i128 = (x as i128) * (y as i128);
            if z < -0x8000_0000_0000_0000i128 || z > 0x7fff_ffff_ffff_ffffi128 {
                Result::Err(EvalError::NumericOverflow)
            } else {
                Result::Ok(z as i64)
            }
        },
        Builtin::Div => {
            if y == 0 {
                Result::Err(EvalError::DivisionByZero)
            } else if x == i64::MIN && y == -1 {
                Result::Err(EvalError::NumericOverflow)
            } else {
                let mx = magnitude(x);
                let my = magnitude(y);
                let q = mx / my;
                proof {
                    assert(q <= mx) by (nonlinear_arith)
                        requires
                            my >= 1,
                            q == mx as nat / my as nat,
                    ;
                    if x == i64::MIN && y < 0 {
                        assert(q <= mx / 2) by (nonlinear_arith)
                            requires
                                my >= 2,
                                q == mx as nat / my as nat,
                        ;
                    }
                }
                let neg = (x < 0) != (y < 0);
                if neg {
                    assert(q <= 0x8000_0000_0000_0000u64);
                    if q == 0x8000_0000_0000_0000u64 {
                        Result::Ok(i64::MIN)
                    } else {
                        Result::Ok(-(q as i64))
                    }
                } else {
                    assert(q < 0x8000_0000_0000_0000u64);
                    Result::Ok(q as i64)
                }
            }
        },
        _ => {
            if y == 0 {
                Result::Err(EvalError::DivisionByZero)
            } else if x == i64::MIN && y == -1 {
                Result::Err(EvalError::NumericOverflow)
            } else {
                let mx = magnitude(x);
                let my = magnitude(y);
                let m = mx % my;
                proof {
                    assert(m <= mx) by (nonlinear_arith)
                        requires
                            my >= 1,
                            m == mx as nat % my as nat,
                    ;
                }
                if x < 0 {
                    assert(m <= 0x8000_0000_0000_0000u64);
                    if m == 0x8000_0000_0000_0000u64 {
                        Result::Ok(i64::MIN)
                    } else {
                        Result::Ok(-(m as i64))
                    }
                } else {
                    assert(m < 0x8000_0000_0000_0000u64);
                    Result::Ok(m as i64)
                }
            }
        },
    }
}

fn norm_float_exec(t: &String) -> (r: String)
    ensures
        r@ == norm_float_text(t@),
{
    let s = t.as_str();
    let n = s.unicode_len();
    if n >= 1 && s.get_char(0) == '.' {
        let mut r = String::from_str("0");
        proof {
            reveal_strlit("0");
        }
        r.append(s);
        assert(r@ =~= norm_float_text(t@));
        r
    } else if n >= 2 && (s.get_char(0) == '+' || s.get_char(0) == '-') && s.get_char(1) == '.' {
        let mut r = String::new();
        r.push(s.get_char(0));
        r.push('0');
        let rest = s.substring_char(1, n);
        r.append(rest);
        proof {
            assert(t@.drop_first() =~= t@.subrange(1, n as int));
            assert(r@ =~= norm_float_text(t@));
        }
        r
    } else {
        let r = s.to_owned();
        assert(r@ =~= norm_float_text(t@));
        r
    }
}

fn op_char_exec(op: Builtin) -> (r: char)
    ensures
        r == op_char(op),
{
    match op {
        Builtin::Add => '+',
        Builtin::Sub => '-',
        Builtin::Mul => '*',
        Builtin::Div => '/',
        Builtin::Rem => '%',
        _ => '?',
    }
}

fn num_text(n: &Number) -> (r: String)
    ensures
        r@ == text_of_num(n@),
{
    match n {
        Number::Int(i) => int_to_string(*i),
        Number::Float(t) => t.clone(),
    }
}

/// One step of arithmetic on two numbers.
fn num_step_exec(op: Builtin, a: &Number, b: &Number) -> (r: Result<Number, EvalError>)
    requires
        op is Add || op is Sub || op is Mul || op is Div || op is Rem,
    ensures
        match r {
            Result::Ok(v) => num_step(op, a@, b@) == Result::Ok::<NumberV, EvalErrorV>(v@),
            Result::Err(e) => num_step(op, a@, b@) == Result::Err::<NumberV, EvalErrorV>(e@),
        },
{
    match (a, b) {
        (Number::Int(x), Number::Int(y)) => match int_step_exec(op, *x, *y) {
            Result::Ok(v) => Result::Ok(Number::Int(v)),
            Result::Err(e) => Result::Err(e),
        },
        _ => {
            let ta = num_text(a);
            let tb = num_text(b);
            let na = norm_float_exec(&ta);
            let nb = norm_float_exec(&tb);
            let mut s = String::from_str("(");
            s.append(na.as_str());
            s.append(") ");
            s.push(op_char_exec(op));
            s.append(" (");
            s.append(nb.as_str());
            s.append(")");
            proof {
                reveal_strlit("(");
                reveal_strlit(") ");
                reveal_strlit(" (");
                reveal_strlit(")");
                assert(s@ =~= float_expr_text(op_char(op), text_of_num(a@), text_of_num(b@)));
                assert(s@.len() > 0 && s@[s@.len() - 1] == ')');
                assert(!crate::outside::meval_space(')'));
            }
            match eval_float_text(&s) {
                Option::Some(t) => Result::Ok(Number::Float(t)),
                Option::None => Result::Err(EvalError::NumericError),
            }
        },
    }
}

/// An arithmetic builtin: at least two numeric arguments folded left to
/// right; integers stay exact, float operands go through the expression
/// evaluator on their texts.
pub fn arith(op: Builtin, args: Vec<Object>) -> (r: Result<Option<Object>, EvalError>)
    requires
        op is Add || op is Sub || op is Mul || op is Div || op is Rem,
    ensures
        res_view(r) == arith_spec(op, view_objs(args@)),
{
    let ghost av = view_objs(args@);
    let n = args.len();
    // every argument must be a number and there must be at least two
    let mut all_num = true;
    for k in 0..n
        invariant
            n == args@.len(),
            av == view_objs(args@),
            all_num == (forall|j: int| 0 <= j < k ==> av[j] is Number),
        decreases n - k,
    {
        match &args[k] {
            Object::Number(_) => {
                proof {
                    assert(av[k as int] is Number);
                }
            },
            _ => {
                proof {
                    assert(!(av[k as int] is Number));
                }
                all_num = false;
            },
        }
    }
    if !(n > 1 && all_num) {
        proof {
            if n > 1 {
                assert(!all_numbers(av));
            }
        }
        return Result::Err(EvalError::TypeMismatch);
    }
    proof {
        assert(all_numbers(av));
    }
    let mut acc: Number = match &args[0] {
        Object::Number(x) => match x {
            Number::Int(i) => Number::Int(*i),
            Number::Float(t) => Number::Float(t.clone()),
        },
        _ => {
            proof {
                assert(false);
            }
            Number::Int(0)
        },
    };
    let mut k: usize = 1;
    while k < n
        invariant
            n == args@.len(),
            av == view_objs(args@),
            all_numbers(av),
            n > 1,
            1 <= k <= n,
            op is Add || op is Sub || op is Mul || op is Div || op is Rem,
            arith_fold(op, av[0]->Number_0, av, 1) == arith_fold(op, acc@, av, k as int),
        decreases n - k,
    {
        let b = match &args[k] {
            Object::Number(x) => x,
            _ => {
                proof {
                    assert(false);
                }
                &Number::Int(0)
            },
        };
        match num_step_exec(op, &acc, b) {
            Result::Ok(n2) => {
                acc = n2;
            },
            Result::Err(e) => {
                return Result::Err(e);
            },
        }
        k = k + 1;
    }
    Result::Ok(Option::Some(Object::Number(acc)))
}

} // verus!
