//! Tokenizer and parser.
//!
//! Source text is cut into tokens: the five delimiters `(` `)` `[` `]` `"`,
//! atom texts (maximal runs of characters that are neither whitespace nor
//! delimiters), and an explicit space marker after every token.  The parser
//! consumes the token sequence front to back, building one expression per
//! structural unit: parenthesized compounds, bracketed conditional cases,
//! quoted strings, and literal or symbol atoms.

use vstd::prelude::*;

use crate::data::Boolean;
use crate::data::Expr;
use crate::data::ExprV;
use crate::data::Number;
use crate::data::NumberV;
use crate::data::Object;
use crate::data::ObjectV;
use crate::data::view_expr;
use crate::data::view_exprs;

verus! {

/// The parse errors.
#[derive(Debug, Clone, Copy, PartialEq, Eq, Structural)]
pub enum ParseError {
    UnmatchedParens,
    UnexpectedCloseDelimiter,
    UnterminatedString,
    EmptyOrMalformedConditional,
    NoTokensToParse,
    FailedToOpen,
    FailedToRead,
}

// ---------------------------------------------------------------------------
// Character classes
// ---------------------------------------------------------------------------

/// Whitespace, as token separation understands it.
pub open spec fn is_ws(c: char) -> bool {
    c == ' ' || c == '\t' || c == '\n' || c == '\r' || c == '\u{b}' || c == '\u{c}'
        || c == '\u{85}' || c == '\u{a0}' || c == '\u{1680}'
        || ('\u{2000}' <= c && c <= '\u{200a}')
        || c == '\u{2028}' || c == '\u{2029}' || c == '\u{202f}' || c == '\u{205f}'
        || c == '\u{3000}'
}

/// The five delimiter characters.
pub open spec fn is_delim(c: char) -> bool {
    c == '(' || c == ')' || c == '[' || c == ']' || c == '"'
}

fn is_ws_exec(c: char) -> (r: bool)
    ensures
        r == is_ws(c),
{
    c == ' ' || c == '\t' || c == '\n' || c == '\r' || c == '\u{b}' || c == '\u{c}'
        || c == '\u{85}' || c == '\u{a0}' || c == '\u{1680}'
        || ('\u{2000}' <= c && c <= '\u{200a}')
        || c == '\u{2028}' || c == '\u{2029}' || c == '\u{202f}' || c == '\u{205f}'
        || c == '\u{3000}'
}

fn is_delim_exec(c: char) -> (r: bool)
    ensures
        r == is_delim(c),
{
    c == '(' || c == ')' || c == '[' || c == ']' || c == '"'
}

// ---------------------------------------------------------------------------
// Newline normalization
// ---------------------------------------------------------------------------

/// Model of newline normalization: a `\r\n` pair or a lone `\n` becomes one
/// space; everything else stays.
pub open spec fn lines_to_spaces_spec(s: Seq<char>) -> Seq<char>
    decreases s.len(),
{
    if s.len() == 0 {
        Seq::empty()
    } else if s.len() >= 2 && s[0] == '\r' && s[1] == '\n' {
        seq![' '] + lines_to_spaces_spec(s.skip(2))
    } else if s[0] == '\n' {
        seq![' '] + lines_to_spaces_spec(s.skip(1))
    } else {
        seq![s[0]] + lines_to_spaces_spec(s.skip(1))
    }
}

/// Replaces line terminators with single spaces.
pub fn lines_to_spaces(data: &String) -> (r: String)
    ensures
        r@ == lines_to_spaces_spec(data@),
{
    let s = data.as_str();
    let n = s.unicode_len();
    let mut r = String::new();
    let mut i: usize = 0;
    proof {
        assert(s@.skip(0) =~= s@);
        assert(r@ + lines_to_spaces_spec(s@) =~= lines_to_spaces_spec(s@));
    }
    while i < n
        invariant
            n == s@.len(),
            i <= n,
            lines_to_spaces_spec(s@) == r@ + lines_to_spaces_spec(s@.skip(i as int)),
        decreases n - i,
    {
        let c = s.get_char(i);
        let ghost pre = r@;
        if c == '\r' && i + 1 < n && s.get_char(i + 1) == '\n' {
            r.push(' ');
            i = i + 2;
            proof {
                assert(s@.skip(i - 2).skip(2) =~= s@.skip(i as int));
                assert(pre + (seq![' '] + lines_to_spaces_spec(s@.skip(i as int))) =~= r@
                    + lines_to_spaces_spec(s@.skip(i as int)));
            }
        } else if c == '\n' {
            r.push(' ');
            i = i + 1;
            proof {
                assert(s@.skip(i - 1).skip(1) =~= s@.skip(i as int));
                assert(pre + (seq![' '] + lines_to_spaces_spec(s@.skip(i as int))) =~= r@
                    + lines_to_spaces_spec(s@.skip(i as int)));
            }
        } else {
            r.push(c);
            i = i + 1;
            proof {
                assert(s@.skip(i - 1).skip(1) =~= s@.skip(i as int));
                assert(pre + (seq![c] + lines_to_spaces_spec(s@.skip(i as int))) =~= r@
                    + lines_to_spaces_spec(s@.skip(i as int)));
            }
        }
    }
    proof {
        assert(s@.skip(n as int) =~= Seq::<char>::empty());
        assert(r@ + Seq::<char>::empty() =~= r@);
    }
    r
}

// ---------------------------------------------------------------------------
// Parenthesis counting
// ---------------------------------------------------------------------------

/// Number of occurrences of `c` in `s[i..]`.
pub open spec fn count_char_from(s: Seq<char>, i: int, c: char) -> nat
    decreases s.len() - i,
{
    if i < 0 || i >= s.len() {
        0
    } else {
        (if s[i] == c { 1nat } else { 0nat }) + count_char_from(s, i + 1, c)
    }
}

proof fn lemma_count_char_le(s: Seq<char>, i: int, c: char)
    requires
        0 <= i <= s.len(),
    ensures
        count_char_from(s, i, c) <= s.len() - i,
    decreases s.len() - i,
{
    if i < s.len() {
        lemma_count_char_le(s, i + 1, c);
    }
}

/// Counts opening and closing parentheses in the raw text.
pub fn count_parens(data: &String) -> (r: (usize, usize))
    ensures
        r.0 == count_char_from(data@, 0, '('),
        r.1 == count_char_from(data@, 0, ')'),
{
    let s = data.as_str();
    let n = s.unicode_len();
    let mut open_count: usize = 0;
    let mut close_count: usize = 0;
    let mut i: usize = 0;
    proof {
        lemma_count_char_le(s@, 0, '(');
        lemma_count_char_le(s@, 0, ')');
    }
    while i < n
        invariant
            n == s@.len(),
            i <= n,
            count_char_from(s@, 0, '(') == open_count + count_char_from(s@, i as int, '('),
            count_char_from(s@, 0, ')') == close_count + count_char_from(s@, i as int, ')'),
            open_count <= i,
            close_count <= i,
        decreases n - i,
    {
        let c = s.get_char(i);
        if c == '(' {
            open_count = open_count + 1;
        } else if c == ')' {
            close_count = close_count + 1;
        }
        i = i + 1;
    }
    (open_count, close_count)
}

// ---------------------------------------------------------------------------
// Tokenization
// ---------------------------------------------------------------------------

/// Length of the atom that starts at `i`: the maximal run of characters that
/// are neither whitespace nor delimiters.
pub open spec fn atom_len_at(s: Seq<char>, i: int) -> nat
    decreases s.len() - i,
{
    if i < 0 || i >= s.len() || is_ws(s[i]) || is_delim(s[i]) {
        0
    } else {
        1 + atom_len_at(s, i + 1)
    }
}

pub proof fn lemma_atom_len_at_bound(s: Seq<char>, i: int)
    requires
        0 <= i <= s.len(),
    ensures
        i + atom_len_at(s, i) <= s.len(),
    decreases s.len() - i,
{
    if i < s.len() && !is_ws(s[i]) && !is_delim(s[i]) {
        lemma_atom_len_at_bound(s, i + 1);
    }
}

/// The tokens of `s[i..]`, without space markers.
pub open spec fn toks_from(s: Seq<char>, i: int) -> Seq<Seq<char>>
    decreases s.len() - i,
{
    if i < 0 || i >= s.len() {
        Seq::empty()
    } else if is_ws(s[i]) {
        toks_from(s, i + 1)
    } else if is_delim(s[i]) {
        seq![seq![s[i]]] + toks_from(s, i + 1)
    } else {
        let k = 1 + atom_len_at(s, i + 1);
        let j = if i + k <= s.len() { i + k } else { s.len() as int };
        seq![s.subrange(i, i + k)] + toks_from(s, j)
    }
}

/// Interleaves a space marker after every token.
pub open spec fn with_markers(ts: Seq<Seq<char>>) -> Seq<Seq<char>> {
    Seq::new(
        2 * ts.len(),
        |i: int| if i % 2 == 0 { ts[i / 2] } else { seq![' '] },
    )
}

/// The token stream of a source text: its tokens, a space marker after each.
pub open spec fn token_stream(s: Seq<char>) -> Seq<Seq<char>> {
    with_markers(toks_from(s, 0))
}

proof fn lemma_with_markers_concat(a: Seq<Seq<char>>, b: Seq<Seq<char>>)
    ensures
        with_markers(a + b) =~= with_markers(a) + with_markers(b),
{
    assert forall|i: int| 0 <= i < 2 * (a + b).len() implies with_markers(a + b)[i] == (
    with_markers(a) + with_markers(b))[i] by {
        if i % 2 == 0 {
            assert((a + b)[i / 2] == if i / 2 < a.len() { a[i / 2] } else { b[i / 2 - a.len()] });
        }
    }
}

/// Cuts the text into its token stream.
pub fn tokenize(data: &String) -> (r: Vec<String>)
    ensures
        r.deep_view() == token_stream(data@),
{
    let s = data.as_str();
    let n = s.unicode_len();
    let mut r: Vec<String> = Vec::new();
    let mut i: usize = 0;
    proof {
        assert(r.deep_view() =~= Seq::<Seq<char>>::empty());
        assert(r.deep_view() + with_markers(toks_from(s@, 0)) =~= with_markers(toks_from(s@, 0)));
    }
    while i < n
        invariant
            n == s@.len(),
            i <= n,
            token_stream(s@) == r.deep_view() + with_markers(toks_from(s@, i as int)),
        decreases n - i,
    {
        let ghost pre = r.deep_view();
        let c = s.get_char(i);
        if is_ws_exec(c) {
            i = i + 1;
        } else if is_delim_exec(c) {
            let t = delim_string(c);
            r.push(t);
            r.push(String::from_str(" "));
            proof {
                reveal_strlit(" ");
                assert(toks_from(s@, i as int) =~= seq![seq![c]] + toks_from(s@, i + 1));
                lemma_with_markers_concat(seq![seq![c]], toks_from(s@, i + 1));
                assert(with_markers(seq![seq![c]]) =~= seq![seq![c], seq![' ']]);
                assert(r.deep_view() =~~= pre + seq![seq![c], seq![' ']]);
                assert(pre + (seq![seq![c], seq![' ']] + with_markers(toks_from(s@, i + 1)))
                    =~= (pre + seq![seq![c], seq![' ']]) + with_markers(toks_from(s@, i + 1)));
            }
            i = i + 1;
        } else {
            // scan the atom
            let mut j: usize = i + 1;
            loop
                invariant_except_break
                    n == s@.len(),
                    i < j <= n,
                    atom_len_at(s@, i as int) == (j - i) + atom_len_at(s@, j as int),
                ensures
                    i < j <= n,
                    atom_len_at(s@, i as int) == j - i,
                decreases n - j,
            {
                if j >= n {
                    break;
                }
                let d = s.get_char(j);
                if is_ws_exec(d) || is_delim_exec(d) {
                    break;
                }
                j = j + 1;
            }
            let t = s.substring_char(i, j).to_owned();
            r.push(t);
            r.push(String::from_str(" "));
            proof {
                reveal_strlit(" ");
                let tok = s@.subrange(i as int, i + atom_len_at(s@, i as int));
                assert(toks_from(s@, i as int) =~= seq![tok] + toks_from(s@, j as int));
                lemma_with_markers_concat(seq![tok], toks_from(s@, j as int));
                assert(with_markers(seq![tok]) =~= seq![tok, seq![' ']]);
                assert(r.deep_view() =~~= pre + seq![tok, seq![' ']]);
                assert(pre + (seq![tok, seq![' ']] + with_markers(toks_from(s@, j as int)))
                    =~= (pre + seq![tok, seq![' ']]) + with_markers(toks_from(s@, j as int)));
            }
            i = j;
        }
    }
    proof {
        assert(with_markers(toks_from(s@, n as int)) =~= Seq::<Seq<char>>::empty());
        assert(r.deep_view() + Seq::<Seq<char>>::empty() =~= r.deep_view());
    }
    r
}

// ---------------------------------------------------------------------------
// Atom classification
// ---------------------------------------------------------------------------

/// A decimal digit.
pub open spec fn is_digit(c: char) -> bool {
    '0' <= c && c <= '9'
}

/// Numeric value of a digit character.
pub open spec fn digit_val(c: char) -> nat {
    ((c as u32) - ('0' as u32)) as nat
}

/// Value of a string of digits, most significant first.
pub open spec fn digits_val(s: Seq<char>) -> nat
    decreases s.len(),
{
    if s.len() == 0 {
        0
    } else {
        digits_val(s.drop_last()) * 10 + digit_val(s.last())
    }
}

/// First index at or after `i` holding no digit.
pub open spec fn digits_end(s: Seq<char>, i: int) -> int
    decreases s.len() - i,
{
    if i < 0 || i >= s.len() || !is_digit(s[i]) {
        i
    } else {
        digits_end(s, i + 1)
    }
}

/// Whether every character of `s` is a decimal digit.
pub open spec fn all_digits(s: Seq<char>) -> bool {
    forall|j: int| 0 <= j < s.len() ==> is_digit(s[j])
}

/// The value of a signed decimal integer token, if the whole token is one and
/// its value fits in a 64-bit signed integer.
pub open spec fn parse_int_spec(s: Seq<char>) -> Option<int> {
    let neg = s.len() >= 1 && s[0] == '-';
    let body = if s.len() >= 1 && (s[0] == '-' || s[0] == '+') { s.drop_first() } else { s };
    if body.len() == 0 || !all_digits(body) {
        Option::None
    } else {
        let v = if neg { -(digits_val(body) as int) } else { digits_val(body) as int };
        if -0x8000_0000_0000_0000 <= v <= 0x7fff_ffff_ffff_ffff {
            Option::Some(v)
        } else {
            Option::None
        }
    }
}

/// Whether the token is a float literal: an optional sign, a mantissa of
/// digits holding at most one point and at least one digit, and an optional
/// exponent part `e`/`E`, optional sign, digits.
pub open spec fn is_float_token(s: Seq<char>) -> bool {
    let i0: int = if s.len() >= 1 && (s[0] == '-' || s[0] == '+') { 1 } else { 0 };
    let i1 = digits_end(s, i0);
    if i1 == s.len() {
        i1 > i0
    } else if s[i1] == '.' {
        let i2 = digits_end(s, i1 + 1);
        (i1 - i0) + (i2 - (i1 + 1)) >= 1 && exp_ok_at(s, i2)
    } else {
        i1 > i0 && exp_ok_at(s, i1)
    }
}

/// Whether `s[i..]` is an empty or well-formed exponent part.
pub open spec fn exp_ok_at(s: Seq<char>, i: int) -> bool {
    if i == s.len() {
        true
    } else if 0 <= i < s.len() && (s[i] == 'e' || s[i] == 'E') {
        let j: int = if i + 1 < s.len() && (s[i + 1] == '-' || s[i + 1] == '+') { i + 2 } else {
            i + 1
        };
        digits_end(s, j) == s.len() && s.len() > j
    } else {
        false
    }
}

/// Whether some character of `s` is `c`.
pub open spec fn contains_char(s: Seq<char>, c: char) -> bool {
    exists|i: int| 0 <= i < s.len() && s[i] == c
}

/// The classification of an atom token: a float literal if it holds a point
/// and reads as a float; otherwise an integer if it reads as one; otherwise
/// one of the two boolean literals; otherwise a symbol.
pub open spec fn atomize_spec(t: Seq<char>) -> ObjectV {
    if contains_char(t, '.') {
        if is_float_token(t) {
            ObjectV::Number(NumberV::Float(t))
        } else {
            ObjectV::Symbol(t)
        }
    } else if parse_int_spec(t) is Some {
        ObjectV::Number(NumberV::Int(parse_int_spec(t)->Some_0))
    } else if t == seq!['t', 'r', 'u', 'e'] {
        ObjectV::Boolean(true)
    } else if t == seq!['f', 'a', 'l', 's', 'e'] {
        ObjectV::Boolean(false)
    } else {
        ObjectV::Symbol(t)
    }
}

fn is_digit_exec(c: char) -> (r: bool)
    ensures
        r == is_digit(c),
{
    '0' <= c && c <= '9'
}

proof fn lemma_digits_val_monotone(s: Seq<char>, i: int, j: int)
    requires
        0 <= i <= j <= s.len(),
    ensures
        digits_val(s.subrange(0, i)) <= digits_val(s.subrange(0, j)),
    decreases j - i,
{
    if i < j {
        lemma_digits_val_monotone(s, i + 1, j);
        let a = s.subrange(0, i);
        let b = s.subrange(0, i + 1);
        assert(b.drop_last() =~= a);
        assert(digits_val(b) == digits_val(a) * 10 + digit_val(s[i]));
    }
}

/// Reads a signed 64-bit integer from a token, exactly when the whole token
/// is a decimal integer in range.
fn parse_int_token(s: &str) -> (r: Option<i64>)
    ensures
        match r {
            Option::Some(v) => parse_int_spec(s@) == Option::Some(v as int),
            Option::None => parse_int_spec(s@) is None,
        },
{
    let n = s.unicode_len();
    if n == 0 {
        return Option::None;
    }
    let c0 = s.get_char(0);
    let neg = c0 == '-';
    let start: usize = if c0 == '-' || c0 == '+' { 1 } else { 0 };
    let ghost body = if start == 1 { s@.drop_first() } else { s@ };
    assert(body.len() == n - start);
    assert(forall|j: int| 0 <= j < body.len() ==> body[j] == s@[start + j]);
    if start == n {
        return Option::None;
    }
    let mut acc: u64 = 0;
    let mut i: usize = start;
    while i < n
        invariant
            n == s@.len(),
            start <= i <= n,
            start <= 1,
            body == (if start == 1 { s@.drop_first() } else { s@ }),
            neg == (s@.len() >= 1 && s@[0] == '-'),
            (start == 1) == (s@.len() >= 1 && (s@[0] == '-' || s@[0] == '+')),
            body.len() == n - start,
            forall|j: int| 0 <= j < body.len() ==> body[j] == s@[start + j],
            forall|j: int| 0 <= j < i - start ==> is_digit(body[j]),
            acc == digits_val(body.subrange(0, i - start)),
            acc <= 0x8000_0000_0000_0000,
        decreases n - i,
    {
        let c = s.get_char(i);
        if !is_digit_exec(c) {
            proof {
                assert(0 <= i - start < body.len() && !is_digit(body[i - start]));
                assert(!all_digits(body));
            }
            return Option::None;
        }
        let d: u64 = (c as u32 as u64) - 48;
        assert(d == digit_val(c)) by {
            assert(is_digit(c));
        };
        proof {
            assert(body.subrange(0, i - start + 1).drop_last() =~= body.subrange(0, i - start));
        }
        if acc > (0xffff_ffff_ffff_ffffu64 - 9) / 10 {
            // the value is already beyond the 64-bit range
            proof {
                lemma_digits_val_monotone(body, i - start + 1, body.len() as int);
                assert(body.subrange(0, body.len() as int) =~= body);
                assert(digits_val(body.subrange(0, i - start + 1)) == acc * 10 + digit_val(body[i - start]));
                assert(digits_val(body.subrange(0, i - start + 1)) > 0x8000_0000_0000_0000);
                assert(digits_val(body) > 0x8000_0000_0000_0000);
                assert(parse_int_spec(s@) is None);
            }
            return Option::None;
        }
        let next: u64 = acc * 10 + d;
        if next > 0x8000_0000_0000_0000u64 {
            proof {
                lemma_digits_val_monotone(body, i - start + 1, body.len() as int);
                assert(body.subrange(0, body.len() as int) =~= body);
                assert(digits_val(body.subrange(0, i - start + 1)) == acc * 10 + digit_val(body[i - start]));
                assert(digits_val(body.subrange(0, i - start + 1)) > 0x8000_0000_0000_0000);
                assert(digits_val(body) > 0x8000_0000_0000_0000);
                assert(parse_int_spec(s@) is None);
            }
            return Option::None;
        }
        acc = next;
        i = i + 1;
    }
    proof {
        assert(body.subrange(0, body.len() as int) =~= body);
        assert(all_digits(body));
    }
    if neg {
        if acc == 0x8000_0000_0000_0000u64 {
            Option::Some(i64::MIN)
        } else {
            Option::Some(-(acc as i64))
        }
    } else {
        if acc == 0x8000_0000_0000_0000u64 {
            Option::None
        } else {
            Option::Some(acc as i64)
        }
    }
}

/// Decides whether a token reads as a float literal.
fn is_float_token_exec(s: &str) -> (r: bool)
    ensures
        r == is_float_token(s@),
{
    let n = s.unicode_len();
    let start: usize = if n >= 1 {
        let c0 = s.get_char(0);
        if c0 == '-' || c0 == '+' { 1 } else { 0 }
    } else {
        0
    };
    let i1 = digits_end_exec(s, start);
    if i1 == n {
        i1 > start
    } else if s.get_char(i1) == '.' {
        let i2 = digits_end_exec(s, i1 + 1);
        (i1 - start) + (i2 - (i1 + 1)) >= 1 && exp_ok_exec(s, i2)
    } else {
        i1 > start && exp_ok_exec(s, i1)
    }
}

fn digits_end_exec(s: &str, i: usize) -> (r: usize)
    requires
        i <= s@.len(),
    ensures
        r == digits_end(s@, i as int),
        i <= r <= s@.len(),
{
    let n = s.unicode_len();
    let mut j = i;
    loop
        invariant_except_break
            n == s@.len(),
            i <= j <= n,
            digits_end(s@, i as int) == digits_end(s@, j as int),
        ensures
            i <= j <= n,
            digits_end(s@, i as int) == j,
        decreases n - j,
    {
        if j >= n {
            break;
        }
        if !is_digit_exec(s.get_char(j)) {
            break;
        }
        j = j + 1;
    }
    j
}

fn exp_ok_exec(s: &str, i: usize) -> (r: bool)
    requires
        i <= s@.len(),
    ensures
        r == exp_ok_at(s@, i as int),
{
    let n = s.unicode_len();
    if i == n {
        return true;
    }
    let c = s.get_char(i);
    if c != 'e' && c != 'E' {
        return false;
    }
    let j: usize = if i + 1 < n {
        let c1 = s.get_char(i + 1);
        if c1 == '-' || c1 == '+' { i + 2 } else { i + 1 }
    } else {
        i + 1
    };
    let e = digits_end_exec(s, j);
    e == n && n > j
}

fn contains_char_exec(s: &str, c: char) -> (r: bool)
    ensures
        r == contains_char(s@, c),
{
    let n = s.unicode_len();
    let mut i: usize = 0;
    while i < n
        invariant
            n == s@.len(),
            i <= n,
            forall|j: int| 0 <= j < i ==> s@[j] != c,
        decreases n - i,
    {
        if s.get_char(i) == c {
            return true;
        }
        i = i + 1;
    }
    false
}

/// Turns an atom token into its value: a float or integer literal, a boolean
/// literal, or a symbol.
pub fn atomize(token: String) -> (r: Object)
    ensures
        r@ == atomize_spec(token@),
{
    if contains_char_exec(token.as_str(), '.') {
        if is_float_token_exec(token.as_str()) {
            Object::Number(Number::Float(token))
        } else {
            Object::Symbol(token)
        }
    } else {
        match parse_int_token(token.as_str()) {
            Option::Some(v) => Object::Number(Number::Int(v)),
            Option::None => {
                proof {
                    reveal_strlit("true");
                    reveal_strlit("false");
                }
                if token == String::from_str("true") {
                    assert(token@ =~= seq!['t', 'r', 'u', 'e']);
                    Object::Boolean(Boolean::True)
                } else if token == String::from_str("false") {
                    assert(token@ =~= seq!['f', 'a', 'l', 's', 'e']);
                    Object::Boolean(Boolean::False)
                } else {
                    assert(token@ != seq!['t', 'r', 'u', 'e'] && token@ != seq!['f', 'a', 'l', 's', 'e']) by {
                        assert("true"@ =~= seq!['t', 'r', 'u', 'e']);
                        assert("false"@ =~= seq!['f', 'a', 'l', 's', 'e']);
                    };
                    Object::Symbol(token)
                }
            },
        }
    }
}

// ---------------------------------------------------------------------------
// Structural parsing
// ---------------------------------------------------------------------------

/// The space marker token.
pub open spec fn is_marker(t: Seq<char>) -> bool {
    t == seq![' ']
}

/// First index at or after `i` whose token is a quote; the length if none is.
pub open spec fn first_quote_from(ts: Seq<Seq<char>>, i: int) -> int
    decreases ts.len() - i,
{
    if i < 0 || i >= ts.len() {
        ts.len() as int
    } else if ts[i] == seq!['"'] {
        i
    } else {
        first_quote_from(ts, i + 1)
    }
}

/// The tokens `ts[i..j]` joined into one text.
pub open spec fn concat_range(ts: Seq<Seq<char>>, i: int, j: int) -> Seq<char>
    decreases j - i,
{
    if i < 0 || i >= j {
        Seq::empty()
    } else {
        (if i < ts.len() { ts[i] } else { Seq::empty() }) + concat_range(ts, i + 1, j)
    }
}

proof fn lemma_concat_range_snoc(ts: Seq<Seq<char>>, i: int, j: int)
    requires
        0 <= i <= j < ts.len(),
    ensures
        concat_range(ts, i, j + 1) =~= concat_range(ts, i, j) + ts[j],
    decreases j - i,
{
    if i < j {
        lemma_concat_range_snoc(ts, i + 1, j);
        assert(concat_range(ts, i, j + 1) =~= ts[i] + concat_range(ts, i + 1, j + 1));
        assert(ts[i] + (concat_range(ts, i + 1, j) + ts[j]) =~= (ts[i] + concat_range(ts, i + 1,
            j)) + ts[j]);
    } else {
        assert(concat_range(ts, i + 1, i + 1) =~= Seq::<char>::empty());
        assert(concat_range(ts, i, i + 1) =~= ts[i] + concat_range(ts, i + 1, i + 1));
        assert(ts[i] + Seq::<char>::empty() =~= ts[i]);
        assert(concat_range(ts, i, i) + ts[i] =~= ts[i]);
    }
}

/// One structural unit starting at token `i`: a parenthesized compound, a
/// bracketed conditional case, a quoted string, or a single atom.  On
/// success, the unit and the index of the first unconsumed token.
pub open spec fn p_unit(ts: Seq<Seq<char>>, i: int) -> Result<(ExprV, int), ParseError>
    decreases ts.len() - i, 0int,
{
    if i < 0 || i >= ts.len() {
        Result::Err(ParseError::NoTokensToParse)
    } else {
        let t = ts[i];
        if t == seq!['('] {
            match collect_units(ts, i + 1, ')') {
                Result::Ok((es, j)) => Result::Ok((ExprV::Compound(es), j)),
                Result::Err(e) => Result::Err(e),
            }
        } else if t == seq![')'] || t == seq![']'] {
            Result::Err(ParseError::UnexpectedCloseDelimiter)
        } else if t == seq!['['] {
            match collect_units(ts, i + 1, ']') {
                Result::Ok((es, j)) => if es.len() < 2 {
                    Result::Err(ParseError::EmptyOrMalformedConditional)
                } else {
                    Result::Ok(
                        (
                            ExprV::Atom(
                                ObjectV::Cond(Box::new(es[0]), es.subrange(1, es.len() as int)),
                            ),
                            j,
                        ),
                    )
                },
                Result::Err(e) => Result::Err(e),
            }
        } else if t == seq!['"'] {
            let q = first_quote_from(ts, i + 1);
            if q >= ts.len() {
                Result::Err(ParseError::UnterminatedString)
            } else {
                Result::Ok((ExprV::Atom(ObjectV::Str(concat_range(ts, i + 2, q - 1))), q + 1))
            }
        } else {
            Result::Ok((ExprV::Atom(atomize_spec(t)), i + 1))
        }
    }
}

/// The units between `i` and the next lone `closer` token, space markers
/// dropped; on success also the index just past the closer.
pub open spec fn collect_units(ts: Seq<Seq<char>>, i: int, closer: char) -> Result<
    (Seq<ExprV>, int),
    ParseError,
>
    decreases ts.len() - i, 1int,
{
    if i < 0 || i >= ts.len() {
        Result::Err(ParseError::NoTokensToParse)
    } else if ts[i] == seq![closer] {
        Result::Ok((Seq::empty(), i + 1))
    } else if is_marker(ts[i]) {
        collect_units(ts, i + 1, closer)
    } else {
        match p_unit(ts, i) {
            Result::Ok((e, j)) => {
                let j1 = if j <= i { i + 1 } else if j > ts.len() { ts.len() as int } else { j };
                match collect_units(ts, j1, closer) {
                    Result::Ok((rest, k)) => Result::Ok((seq![e] + rest, k)),
                    Result::Err(e2) => Result::Err(e2),
                }
            },
            Result::Err(e) => Result::Err(e),
        }
    }
}

/// All top-level units of the token stream, markers between them dropped.
pub open spec fn parse_all(ts: Seq<Seq<char>>, i: int) -> Result<Seq<ExprV>, ParseError>
    decreases ts.len() - i, 2int,
{
    if i < 0 || i >= ts.len() {
        Result::Ok(Seq::empty())
    } else if is_marker(ts[i]) {
        parse_all(ts, i + 1)
    } else {
        match p_unit(ts, i) {
            Result::Ok((e, j)) => {
                let j1 = if j <= i { i + 1 } else if j > ts.len() { ts.len() as int } else { j };
                match parse_all(ts, j1) {
                    Result::Ok(rest) => Result::Ok(seq![e] + rest),
                    Result::Err(e2) => Result::Err(e2),
                }
            },
            Result::Err(e) => Result::Err(e),
        }
    }
}

/// The parse of a whole source text: a parenthesis-count pre-check, then the
/// top-level units of its token stream.
pub open spec fn parse_spec(text: Seq<char>) -> Result<Seq<ExprV>, ParseError> {
    if count_char_from(text, 0, '(') != count_char_from(text, 0, ')') {
        Result::Err(ParseError::UnmatchedParens)
    } else {
        parse_all(token_stream(text), 0)
    }
}

fn tok_is(t: &String, c: char) -> (r: bool)
    ensures
        r == (t@ == seq![c]),
{
    let s = t.as_str();
    let r = s.unicode_len() == 1 && s.get_char(0) == c;
    proof {
        if r {
            assert(t@ =~= seq![c]);
        }
    }
    r
}

fn p_unit_exec(ts: &Vec<String>, i: usize) -> (r: Result<(Expr, usize), ParseError>)
    requires
        i <= ts@.len(),
    ensures
        match r {
            Result::Ok((e, j)) => {
                &&& p_unit(ts.deep_view(), i as int) == Result::Ok::<(ExprV, int), ParseError>(
                    (e@, j as int),
                )
                &&& i < j <= ts@.len()
            },
            Result::Err(pe) => p_unit(ts.deep_view(), i as int) == Result::Err::<
                (ExprV, int),
                ParseError,
            >(pe),
        },
    decreases ts@.len() - i, 0int,
{
    let ghost dv = ts.deep_view();
    let n = ts.len();
    if i >= n {
        return Result::Err(ParseError::NoTokensToParse);
    }
    assert(dv[i as int] == ts@[i as int]@);
    if tok_is(&ts[i], '(') {
        match collect_exec(ts, i + 1, ')') {
            Result::Ok((es, j)) => {
                let e = Expr::Exprs(es);
                proof {
                    assert(p_unit(dv, i as int) == Result::Ok::<(ExprV, int), ParseError>(
                        (e@, j as int),
                    ));
                }
                Result::Ok((e, j))
            },
            Result::Err(e) => Result::Err(e),
        }
    } else if tok_is(&ts[i], ')') || tok_is(&ts[i], ']') {
        Result::Err(ParseError::UnexpectedCloseDelimiter)
    } else if tok_is(&ts[i], '[') {
        match collect_exec(ts, i + 1, ']') {
            Result::Ok((es, j)) => {
                if es.len() < 2 {
                    Result::Err(ParseError::EmptyOrMalformedConditional)
                } else {
                    let case = Box::new(es[0].duplicate());
                    let mut body: Vec<Expr> = Vec::new();
                    let m = es.len();
                    for k in 1..m
                        invariant
                            m == es@.len(),
                            body@.len() == k - 1,
                            forall|x: int| 0 <= x < k - 1 ==> view_expr(body@[x]) == view_expr(
                                es@[x + 1],
                            ),
                        decreases m - k,
                    {
                        body.push(es[k].duplicate());
                    }
                    let e = Expr::Expr(Object::ConditionalCase(case, body));
                    proof {
                        assert(view_exprs(body@) =~= view_exprs(es@).subrange(
                            1,
                            es@.len() as int,
                        ));
                    }
                    proof {
                        assert(p_unit(dv, i as int) == Result::Ok::<(ExprV, int), ParseError>(
                            (e@, j as int),
                        ));
                    }
                    Result::Ok((e, j))
                }
            },
            Result::Err(e) => Result::Err(e),
        }
    } else if tok_is(&ts[i], '"') {
        // find the closing quote
        let mut q = i + 1;
        loop
            invariant_except_break
                n == ts@.len(),
                dv == ts.deep_view(),
                i + 1 <= q <= n,
                first_quote_from(dv, i + 1 as int) == first_quote_from(dv, q as int),
            ensures
                i < q <= n,
                first_quote_from(dv, i + 1 as int) == q,
                q < n ==> dv[q as int] == seq!['"'],
            decreases n - q,
        {
            if q >= n {
                break;
            }
            assert(dv[q as int] == ts@[q as int]@);
            if tok_is(&ts[q], '"') {
                break;
            }
            q = q + 1;
        }
        if q >= n {
            return Result::Err(ParseError::UnterminatedString);
        }
        // join the tokens strictly between the markers that follow the
        // opening quote and precede the closing one
        let mut content = String::new();
        let mut k = i + 2;
        proof {
            assert(content@ =~= concat_range(dv, i + 2, i + 2));
        }
        while k < q - 1
            invariant
                n == ts@.len(),
                dv == ts.deep_view(),
                i + 1 <= q < n,
                i + 2 <= k <= n,
                k <= q - 1 || k == i + 2,
                content@ == concat_range(dv, i + 2, k as int),
            decreases q - k,
        {
            assert(dv[k as int] == ts@[k as int]@);
            content.append(ts[k].as_str());
            proof {
                lemma_concat_range_snoc(dv, i + 2, k as int);
            }
            k = k + 1;
        }
        proof {
            if (q - 1) < i + 2 {
                assert(concat_range(dv, i + 2, q - 1) =~= Seq::<char>::empty());
                assert(content@ =~= concat_range(dv, i + 2, q - 1));
            }
        }
        let e = Expr::Expr(Object::Str(content));
        proof {
            assert(first_quote_from(dv, i + 1) == q as int);
            assert(q < n);
            assert(content@ == concat_range(dv, i + 2, q - 1));
            assert(e@ == ExprV::Atom(ObjectV::Str(concat_range(dv, i + 2, q - 1))));
            assert(dv[i as int] == seq!['"']);
            assert(p_unit(dv, i as int) == Result::Ok::<(ExprV, int), ParseError>(
                (e@, (q + 1) as int),
            ));
        }
        Result::Ok((e, q + 1))
    } else {
        let o = atomize(ts[i].clone());
        proof {
            assert(o@ == atomize_spec(dv[i as int]));
            assert(p_unit(dv, i as int) == Result::Ok::<(ExprV, int), ParseError>(
                (ExprV::Atom(atomize_spec(dv[i as int])), i + 1),
            ));
        }
        Result::Ok((Expr::Expr(o), i + 1))
    }
}

fn collect_exec(ts: &Vec<String>, i: usize, closer: char) -> (r: Result<
    (Vec<Expr>, usize),
    ParseError,
>)
    requires
        i <= ts@.len(),
    ensures
        match r {
            Result::Ok((es, j)) => {
                &&& collect_units(ts.deep_view(), i as int, closer) == Result::Ok::<
                    (Seq<ExprV>, int),
                    ParseError,
                >((view_exprs(es@), j as int))
                &&& i < j <= ts@.len()
            },
            Result::Err(pe) => collect_units(ts.deep_view(), i as int, closer) == Result::Err::<
                (Seq<ExprV>, int),
                ParseError,
            >(pe),
        },
    decreases ts@.len() - i, 1int,
{
    let ghost dv = ts.deep_view();
    let n = ts.len();
    let mut es: Vec<Expr> = Vec::new();
    let mut pos = i;
    proof {
        assert(view_exprs(es@) =~= Seq::<ExprV>::empty());
    }
    loop
        invariant
            n == ts@.len(),
            dv == ts.deep_view(),
            i <= pos <= n,
            ({
                let full = collect_units(dv, i as int, closer);
                match collect_units(dv, pos as int, closer) {
                    Result::Ok((rest, k)) => full == Result::Ok::<(Seq<ExprV>, int), ParseError>(
                        (view_exprs(es@) + rest, k),
                    ),
                    Result::Err(e2) => full == Result::Err::<(Seq<ExprV>, int), ParseError>(e2),
                }
            }),
        decreases n - pos,
    {
        if pos >= n {
            return Result::Err(ParseError::NoTokensToParse);
        }
        assert(dv[pos as int] == ts@[pos as int]@);
        if tok_is(&ts[pos], closer) {
            proof {
                assert(view_exprs(es@) + Seq::<ExprV>::empty() =~= view_exprs(es@));
            }
            return Result::Ok((es, pos + 1));
        }
        if tok_is(&ts[pos], ' ') {
            pos = pos + 1;
            continue;
        }
        match p_unit_exec(ts, pos) {
            Result::Ok((e, j)) => {
                let ghost pre = view_exprs(es@);
                let ghost ev = e@;
                es.push(e);
                proof {
                    assert(view_exprs(es@) =~= pre + seq![ev]);
                }
                pos = j;
                proof {
                    match collect_units(dv, pos as int, closer) {
                        Result::Ok((rest, k)) => {
                            assert((pre + seq![ev]) + rest =~= pre + (seq![ev] + rest));
                        },
                        Result::Err(_) => {},
                    }
                }
            },
            Result::Err(pe) => {
                return Result::Err(pe);
            },
        }
    }
}

/// Parses a whole source text into its sequence of top-level expressions.
pub fn parse(data: &String) -> (r: Result<Vec<Expr>, ParseError>)
    ensures
        match r {
            Result::Ok(es) => parse_spec(data@) == Result::Ok::<Seq<ExprV>, ParseError>(
                view_exprs(es@),
            ),
            Result::Err(e) => parse_spec(data@) == Result::Err::<Seq<ExprV>, ParseError>(e),
        },
{
    let counts = count_parens(data);
    if counts.0 != counts.1 {
        return Result::Err(ParseError::UnmatchedParens);
    }
    let toks = tokenize(data);
    let ghost dv = toks.deep_view();
    let n = toks.len();
    let mut es: Vec<Expr> = Vec::new();
    let mut pos: usize = 0;
    proof {
        assert(view_exprs(es@) =~= Seq::<ExprV>::empty());
    }
    loop
        invariant
            n == toks@.len(),
            dv == toks.deep_view(),
            dv == token_stream(data@),
            count_char_from(data@, 0, '(') == count_char_from(data@, 0, ')'),
            pos <= n,
            ({
                let full = parse_all(dv, 0);
                match parse_all(dv, pos as int) {
                    Result::Ok(rest) => full == Result::Ok::<Seq<ExprV>, ParseError>(
                        view_exprs(es@) + rest,
                    ),
                    Result::Err(e2) => full == Result::Err::<Seq<ExprV>, ParseError>(e2),
                }
            }),
        decreases n - pos,
    {
        if pos >= n {
            proof {
                assert(view_exprs(es@) + Seq::<ExprV>::empty() =~= view_exprs(es@));
            }
            return Result::Ok(es);
        }
        assert(dv[pos as int] == toks@[pos as int]@);
        if tok_is(&toks[pos], ' ') {
            pos = pos + 1;
            continue;
        }
        match p_unit_exec(&toks, pos) {
            Result::Ok((e, j)) => {
                let ghost pre = view_exprs(es@);
                let ghost ev = e@;
                es.push(e);
                proof {
                    assert(view_exprs(es@) =~= pre + seq![ev]);
                }
                pos = j;
                proof {
                    match parse_all(dv, pos as int) {
                        Result::Ok(rest) => {
                            assert((pre + seq![ev]) + rest =~= pre + (seq![ev] + rest));
                        },
                        Result::Err(_) => {},
                    }
                }
            },
            Result::Err(pe) => {
                return Result::Err(pe);
            },
        }
    }
}

fn delim_string(c: char) -> (r: String)
    requires
        is_delim(c),
    ensures
        r@ == seq![c],
{
    let r = if c == '(' {
        String::from_str("(")
    } else if c == ')' {
        String::from_str(")")
    } else if c == '[' {
        String::from_str("[")
    } else if c == ']' {
        String::from_str("]")
    } else {
        String::from_str("\"")
    };
    proof {
        reveal_strlit("(");
        reveal_strlit(")");
        reveal_strlit("[");
        reveal_strlit("]");
        reveal_strlit("\"");
    }
    assert(r@ =~= seq![c]);
    r
}

} // verus!
