//! Textual form of values.
//!
//! Literal atoms print as their source form: integers in decimal, floats as
//! their retained literal text, strings in double quotes, booleans as
//! `true` / `false`, symbols as themselves.  Lists print as a `(list ...)`
//! form and conditional cases in bracket syntax, so that printed data reads
//! back as the forms that build it.

use vstd::prelude::*;

use crate::data::Expr;
use crate::data::ExprV;
use crate::data::Number;
use crate::data::NumberV;
use crate::data::Object;
use crate::data::ObjectV;
use crate::data::view_exprs;
use crate::data::view_objs;

verus! {

/// The decimal digit character for `d`.
pub open spec fn digit_char(d: nat) -> char {
    if d == 0 { '0' }
    else if d == 1 { '1' }
    else if d == 2 { '2' }
    else if d == 3 { '3' }
    else if d == 4 { '4' }
    else if d == 5 { '5' }
    else if d == 6 { '6' }
    else if d == 7 { '7' }
    else if d == 8 { '8' }
    else if d == 9 { '9' }
    else { '?' }
}

/// Decimal digits of `n`, most significant first, no sign, no leading zeros
/// (except for `0` itself).
pub open spec fn nat_digits(n: nat) -> Seq<char>
    decreases n,
{
    if n < 10 {
        seq![digit_char(n)]
    } else {
        nat_digits(n / 10) + seq![digit_char(n % 10)]
    }
}

/// Decimal text of an integer, with a leading minus sign when negative.
pub open spec fn int_text(i: int) -> Seq<char> {
    if i < 0 {
        seq!['-'] + nat_digits((-i) as nat)
    } else {
        nat_digits(i as nat)
    }
}

/// Source text of a number: decimal for integers, the retained literal text
/// for floats.
pub open spec fn text_of_num(n: NumberV) -> Seq<char> {
    match n {
        NumberV::Int(i) => int_text(i),
        NumberV::Float(t) => t,
    }
}

/// Printed text of a value.
pub open spec fn text_of_obj(o: ObjectV) -> Seq<char>
    decreases o, 0int,
{
    match o {
        ObjectV::Symbol(s) => s,
        ObjectV::Str(s) => seq!['"'] + s + seq!['"'],
        ObjectV::Number(n) => text_of_num(n),
        ObjectV::Boolean(b) => if b { seq!['t', 'r', 'u', 'e'] } else { seq!['f', 'a', 'l', 's', 'e'] },
        ObjectV::List(xs) => seq!['(', 'l', 'i', 's', 't'] + text_of_objs_from(xs, 0) + seq![')'],
        ObjectV::Cond(c, body) => seq!['['] + text_of_expr(*c) + text_of_exprs_from(body, 0) + seq![']'],
        ObjectV::Function(_) => seq!['<', 'f', 'u', 'n', 'c', 't', 'i', 'o', 'n', '>'],
        ObjectV::Exit(m) => match m {
            Option::Some(s) => seq!['<', 'e', 'x', 'i', 't', ' '] + s + seq!['>'],
            Option::None => seq!['<', 'e', 'x', 'i', 't', '>'],
        },
    }
}

/// Printed text of an expression.
pub open spec fn text_of_expr(e: ExprV) -> Seq<char>
    decreases e, 0int,
{
    match e {
        ExprV::Atom(o) => text_of_obj(o),
        ExprV::Compound(es) => seq!['('] + (
            if es.len() == 0 {
                Seq::<char>::empty()
            } else {
                text_of_expr(es[0]) + text_of_exprs_from(es, 1)
            }
        ) + seq![')'],
    }
}

/// The texts of `es[i..]`, each preceded by one space.
pub open spec fn text_of_exprs_from(es: Seq<ExprV>, i: int) -> Seq<char>
    decreases es, es.len() - i + 1, 1int,
{
    if i < 0 || i >= es.len() {
        Seq::empty()
    } else {
        seq![' '] + text_of_expr(es[i]) + text_of_exprs_from(es, i + 1)
    }
}

/// The texts of `os[i..]`, each preceded by one space.
pub open spec fn text_of_objs_from(os: Seq<ObjectV>, i: int) -> Seq<char>
    decreases os, os.len() - i + 1, 1int,
{
    if i < 0 || i >= os.len() {
        Seq::empty()
    } else {
        seq![' '] + text_of_obj(os[i]) + text_of_objs_from(os, i + 1)
    }
}

/// Message text carried by the exit sentinel for an argument: the bare
/// contents for a string, the printed text otherwise.
pub open spec fn message_of_obj(o: ObjectV) -> Seq<char> {
    match o {
        ObjectV::Str(s) => s,
        _ => text_of_obj(o),
    }
}

fn digit_string(d: u64) -> (r: String)
    requires
        d < 10,
    ensures
        r@ == seq![digit_char(d as nat)],
{
    let r = if d == 0 { "0" } else if d == 1 { "1" } else if d == 2 { "2" } else if d == 3 { "3" }
        else if d == 4 { "4" } else if d == 5 { "5" } else if d == 6 { "6" } else if d == 7 { "7" }
        else if d == 8 { "8" } else { "9" };
    proof {
        reveal_strlit("0");
        reveal_strlit("1");
        reveal_strlit("2");
        reveal_strlit("3");
        reveal_strlit("4");
        reveal_strlit("5");
        reveal_strlit("6");
        reveal_strlit("7");
        reveal_strlit("8");
        reveal_strlit("9");
    }
    assert(r@ =~= seq![digit_char(d as nat)]);
    r.to_owned()
}

fn u64_digits(n: u64) -> (r: String)
    ensures
        r@ == nat_digits(n as nat),
    decreases n,
{
    if n < 10 {
        digit_string(n)
    } else {
        let mut s = u64_digits(n / 10);
        let d = digit_string(n % 10);
        s.append(d.as_str());
        assert(s@ =~= nat_digits(n as nat));
        s
    }
}

/// Printed text of a value.
pub fn to_text(o: &Object) -> (r: String)
    ensures
        r@ == text_of_obj(o@),
    decreases *o, 0int, 0int,
{
    match o {
        Object::Symbol(s) => s.clone(),
        Object::Str(s) => {
            let mut r = String::from_str("\"");
            r.append(s.as_str());
            r.append("\"");
            proof {
                reveal_strlit("\"");
            }
            assert(r@ =~= text_of_obj(o@));
            r
        },
        Object::Number(n) => match n {
            Number::Int(i) => int_to_string(*i),
            Number::Float(t) => t.clone(),
        },
        Object::Boolean(b) => {
            let r = match b {
                crate::data::Boolean::True => String::from_str("true"),
                crate::data::Boolean::False => String::from_str("false"),
            };
            proof {
                reveal_strlit("true");
                reveal_strlit("false");
            }
            assert(r@ =~= text_of_obj(o@));
            r
        },
        Object::List(xs) => {
            let mut r = String::from_str("(list");
            append_objs_text(&mut r, xs, 0);
            r.append(")");
            proof {
                reveal_strlit("(list");
                reveal_strlit(")");
            }
            assert(r@ =~= text_of_obj(o@));
            r
        },
        Object::ConditionalCase(c, body) => {
            let mut r = String::from_str("[");
            let ct = expr_to_text(c);
            r.append(ct.as_str());
            append_exprs_text(&mut r, body, 0);
            r.append("]");
            proof {
                reveal_strlit("[");
                reveal_strlit("]");
            }
            assert(r@ =~= text_of_obj(o@));
            r
        },
        Object::Function(_) => {
            let r = String::from_str("<function>");
            proof {
                reveal_strlit("<function>");
            }
            assert(r@ =~= text_of_obj(o@));
            r
        },
        Object::Exit(m) => match m {
            Option::Some(s) => {
                let mut r = String::from_str("<exit ");
                r.append(s.as_str());
                r.append(">");
                proof {
                    reveal_strlit("<exit ");
                    reveal_strlit(">");
                }
                assert(r@ =~= text_of_obj(o@));
                r
            },
            Option::None => {
                let r = String::from_str("<exit>");
                proof {
                    reveal_strlit("<exit>");
                }
                assert(r@ =~= text_of_obj(o@));
                r
            },
        },
    }
}

/// Printed text of an expression.
pub fn expr_to_text(e: &Expr) -> (r: String)
    ensures
        r@ == text_of_expr(e@),
    decreases *e, 0int, 0int,
{
    match e {
        Expr::Expr(o) => to_text(o),
        Expr::Exprs(es) => {
            let mut r = String::from_str("(");
            if es.len() > 0 {
                let h = expr_to_text(&es[0]);
                r.append(h.as_str());
                append_exprs_text(&mut r, es, 1);
            }
            r.append(")");
            proof {
                reveal_strlit("(");
                reveal_strlit(")");
            }
            assert(r@ =~= text_of_expr(e@));
            r
        },
    }
}

fn append_exprs_text(r: &mut String, es: &Vec<Expr>, i: usize)
    requires
        i <= es@.len(),
    ensures
        final(r)@ == old(r)@ + text_of_exprs_from(view_exprs(es@), i as int),
    decreases *es, es@.len() - i + 1, 1int,
{
    if i < es.len() {
        r.append(" ");
        let t = expr_to_text(&es[i]);
        r.append(t.as_str());
        append_exprs_text(r, es, i + 1);
        proof {
            reveal_strlit(" ");
        }
        assert(r@ =~= old(r)@ + text_of_exprs_from(view_exprs(es@), i as int));
    } else {
        assert(r@ =~= old(r)@ + text_of_exprs_from(view_exprs(es@), i as int));
    }
}

fn append_objs_text(r: &mut String, os: &Vec<Object>, i: usize)
    requires
        i <= os@.len(),
    ensures
        final(r)@ == old(r)@ + text_of_objs_from(view_objs(os@), i as int),
    decreases *os, os@.len() - i + 1, 1int,
{
    if i < os.len() {
        r.append(" ");
        let t = to_text(&os[i]);
        r.append(t.as_str());
        append_objs_text(r, os, i + 1);
        proof {
            reveal_strlit(" ");
        }
        assert(r@ =~= old(r)@ + text_of_objs_from(view_objs(os@), i as int));
    } else {
        assert(r@ =~= old(r)@ + text_of_objs_from(view_objs(os@), i as int));
    }
}

/// Message text of a value handed to the exit builtin.
pub fn message_text(o: &Object) -> (r: String)
    ensures
        r@ == message_of_obj(o@),
{
    match o {
        Object::Str(s) => s.clone(),
        _ => to_text(o),
    }
}

/// Decimal text of a 64-bit signed integer.
pub fn int_to_string(i: i64) -> (r: String)
    ensures
        r@ == int_text(i as int),
{
    if i >= 0 {
        u64_digits(i as u64)
    } else {
        let mag: u64 = ((-(i + 1)) as u64) + 1;
        assert(mag as nat == (-(i as int)) as nat);
        let mut s = String::from_str("-");
        proof {
            reveal_strlit("-");
        }
        let d = u64_digits(mag);
        s.append(d.as_str());
        assert(s@ =~= int_text(i as int));
        s
    }
}

} // verus!
