//! Contracts for functions of other crates that the library calls.

use vstd::prelude::*;

verus! {

/// The text the arithmetic expression evaluator yields for an expression
/// text, if it accepts it: for example, the sum text of two float literal
/// operands.  The result depends on the expression text alone.
pub uninterp spec fn float_eval_of(s: Seq<char>) -> Option<Seq<char>>;

/// A character the expression tokenizer treats as spacing.
pub open spec fn meval_space(c: char) -> bool {
    c == ' ' || c == '\t' || c == '\r' || c == '\n'
}

/// Relies on meval::eval_str: parses an arithmetic expression over float
/// literals and evaluates it with 64-bit float semantics; an ill-formed
/// expression is reported as an error.  Its tokenizer reaches a decision on
/// every rest of the text that holds a character beyond its spacing set, and
/// panics only when a rest is spacing alone; a text whose last character is
/// no spacing character leaves no such rest, so the call returns.  The
/// result text depends on the expression text alone.
#[verifier::external_body]
pub(crate) fn eval_float_text(s: &String) -> (r: Option<String>)
    requires
        s@.len() > 0,
        !meval_space(s@[s@.len() - 1]),
    ensures
        (match (r, float_eval_of(s@)) {
            (Option::Some(t), Option::Some(m)) => t@ == m,
            (Option::None, Option::None) => true,
            _ => false,
        }),
{
    match meval::eval_str(s) {
        Ok(v) => Some(v.to_string()),
        Err(_) => None,
    }
}

/// Relies on String::push: appends the given character to the end of the
/// string.
pub assume_specification[ String::push ](s: &mut String, c: char)
    ensures
        final(s)@ == old(s)@.push(c),
;

} // verus!
