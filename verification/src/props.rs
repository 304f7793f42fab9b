//! Laws of the library, stated and proved over the model.

use vstd::prelude::*;

use crate::data::ExprV;
use crate::data::NumberV;
use crate::data::ObjectV;
use crate::parser::ParseError;
use crate::parser::atom_len_at;
use crate::parser::atomize_spec;
use crate::parser::all_digits;
use crate::parser::contains_char;
use crate::parser::count_char_from;
use crate::parser::digit_val;
use crate::parser::digits_val;
use crate::parser::is_delim;
use crate::parser::is_digit;
use crate::parser::is_float_token;
use crate::parser::is_marker;
use crate::parser::is_ws;
use crate::parser::p_unit;
use crate::parser::parse_all;
use crate::parser::parse_int_spec;
use crate::parser::parse_spec;
use crate::parser::token_stream;
use crate::parser::toks_from;
use crate::parser::with_markers;
use crate::semantics::ArgsOutV;
use crate::semantics::ArgsResV;
use crate::semantics::EvalErrorV;
use crate::semantics::EvalOutV;
use crate::semantics::StateV;
use crate::semantics::all_numbers;
use crate::semantics::apply_spec;
use crate::semantics::arith_fold;
use crate::semantics::arith_spec;
use crate::semantics::eval_args_spec;
use crate::semantics::eval_call;
use crate::semantics::eval_expr_spec;
use crate::text::digit_char;
use crate::text::int_text;
use crate::text::nat_digits;
use crate::text::text_of_obj;

verus! {

/// A character that can stand inside an atom token: neither whitespace nor
/// a delimiter.
pub open spec fn atom_char(c: char) -> bool {
    !is_ws(c) && !is_delim(c)
}

/// A well-formed atom token: nonempty, all of its characters atom
/// characters.  Every token the tokenizer classifies as an atom has this
/// shape.
pub open spec fn atom_token(t: Seq<char>) -> bool {
    t.len() > 0 && (forall|i: int| 0 <= i < t.len() ==> #[trigger] atom_char(t[i]))
}

proof fn lemma_count_char_none(s: Seq<char>, i: int, c: char)
    requires
        0 <= i <= s.len(),
        forall|j: int| i <= j < s.len() ==> s[j] != c,
    ensures
        count_char_from(s, i, c) == 0,
    decreases s.len() - i,
{
    if i < s.len() {
        lemma_count_char_none(s, i + 1, c);
    }
}

proof fn lemma_atom_len_all(s: Seq<char>, i: int)
    requires
        0 <= i <= s.len(),
        forall|j: int| i <= j < s.len() ==> #[trigger] atom_char(s[j]),
    ensures
        atom_len_at(s, i) == s.len() - i,
    decreases s.len() - i,
{
    if i < s.len() {
        assert(atom_char(s[i]));
        lemma_atom_len_all(s, i + 1);
    }
}

proof fn lemma_single_token(t: Seq<char>)
    requires
        atom_token(t),
    ensures
        toks_from(t, 0) =~= seq![t],
{
    assert(atom_char(t[0]));
    lemma_atom_len_all(t, 1);
    assert(atom_len_at(t, 0) == t.len());
    assert(t.subrange(0, t.len() as int) =~= t);
    assert(toks_from(t, t.len() as int) =~= Seq::<Seq<char>>::empty());
    assert(toks_from(t, 0) =~= seq![t] + Seq::<Seq<char>>::empty());
}

/// Parsing a text that is one atom token yields exactly its atom.
proof fn lemma_parse_single_atom(t: Seq<char>)
    requires
        atom_token(t),
    ensures
        parse_spec(t) == Result::Ok::<Seq<ExprV>, ParseError>(
            seq![ExprV::Atom(atomize_spec(t))],
        ),
{
    assert forall|j: int| 0 <= j < t.len() implies t[j] != '(' && t[j] != ')' by {
        assert(atom_char(t[j]));
    };
    lemma_count_char_none(t, 0, '(');
    lemma_count_char_none(t, 0, ')');
    lemma_single_token(t);
    let stream = token_stream(t);
    assert(stream =~= seq![t, seq![' ']]);
    // the token is no marker and no delimiter token
    assert(t != seq![' ']) by {
        if t == seq![' '] {
            assert(t[0] == ' ' && atom_char(t[0]) && is_ws(' '));
        }
    };
    assert(t != seq!['(']) by {
        if t == seq!['('] {
            assert(t[0] == '(' && atom_char(t[0]) && is_delim('('));
        }
    };
    assert(t != seq![')']) by {
        if t == seq![')'] {
            assert(t[0] == ')' && atom_char(t[0]) && is_delim(')'));
        }
    };
    assert(t != seq!['[']) by {
        if t == seq!['['] {
            assert(t[0] == '[' && atom_char(t[0]) && is_delim('['));
        }
    };
    assert(t != seq![']']) by {
        if t == seq![']'] {
            assert(t[0] == ']' && atom_char(t[0]) && is_delim(']'));
        }
    };
    assert(t != seq!['"']) by {
        if t == seq!['"'] {
            assert(t[0] == '"' && atom_char(t[0]) && is_delim('"'));
        }
    };
    assert(!is_marker(stream[0]));
    assert(p_unit(stream, 0) == Result::Ok::<(ExprV, int), ParseError>(
        (ExprV::Atom(atomize_spec(t)), 1int),
    ));
    assert(is_marker(stream[1]));
    assert(parse_all(stream, 2) == Result::Ok::<Seq<ExprV>, ParseError>(Seq::empty()));
    assert(parse_all(stream, 1) == Result::Ok::<Seq<ExprV>, ParseError>(Seq::empty()));
    assert(seq![ExprV::Atom(atomize_spec(t))] + Seq::<ExprV>::empty() =~= seq![
        ExprV::Atom(atomize_spec(t)),
    ]);
}

proof fn lemma_digit_char_class(d: nat)
    requires
        d < 10,
    ensures
        is_digit(digit_char(d)),
        atom_char(digit_char(d)),
        digit_char(d) != '.',
        digit_val(digit_char(d)) == d,
{
}

proof fn lemma_nat_digits_form(n: nat)
    ensures
        nat_digits(n).len() >= 1,
        forall|i: int| 0 <= i < nat_digits(n).len() ==> is_digit(#[trigger] nat_digits(n)[i])
            && atom_char(nat_digits(n)[i]) && nat_digits(n)[i] != '.',
        digits_val(nat_digits(n)) == n,
    decreases n,
{
    if n < 10 {
        lemma_digit_char_class(n);
        assert(nat_digits(n) =~= seq![digit_char(n)]);
        assert(nat_digits(n).drop_last() =~= Seq::<char>::empty());
        assert(digits_val(nat_digits(n)) == digits_val(Seq::<char>::empty()) * 10 + digit_val(
            digit_char(n),
        ));
    } else {
        lemma_nat_digits_form(n / 10);
        lemma_digit_char_class(n % 10);
        let w = nat_digits(n);
        assert(w =~= nat_digits(n / 10) + seq![digit_char(n % 10)]);
        assert(w.drop_last() =~= nat_digits(n / 10));
        assert(w.last() == digit_char(n % 10));
        assert(digits_val(w) == (n / 10) * 10 + n % 10);
    }
}

proof fn lemma_int_text_form(i: int)
    requires
        -0x8000_0000_0000_0000 <= i <= 0x7fff_ffff_ffff_ffff,
    ensures
        atom_token(int_text(i)),
        !contains_char(int_text(i), '.'),
        parse_int_spec(int_text(i)) == Option::Some(i),
{
    let t = int_text(i);
    if i < 0 {
        let mag = (-i) as nat;
        lemma_nat_digits_form(mag);
        assert(t =~= seq!['-'] + nat_digits(mag));
        assert(t[0] == '-');
        assert(atom_char('-'));
        assert(forall|j: int| 1 <= j < t.len() ==> #[trigger] t[j] == nat_digits(mag)[j - 1]);
        assert(forall|j: int| 0 <= j < t.len() ==> #[trigger] atom_char(t[j]));
        assert(forall|j: int| 0 <= j < t.len() ==> t[j] != '.');
        assert(!contains_char(t, '.'));
        let body = t.drop_first();
        assert(body =~= nat_digits(mag));
        assert(all_digits(body));
        assert(digits_val(body) == mag);
        assert(parse_int_spec(t) == Option::Some(i));
    } else {
        lemma_nat_digits_form(i as nat);
        assert(t =~= nat_digits(i as nat));
        assert(forall|j: int| 0 <= j < t.len() ==> #[trigger] atom_char(t[j]));
        assert(forall|j: int| 0 <= j < t.len() ==> t[j] != '.');
        assert(!contains_char(t, '.'));
        assert(t[0] != '-' && t[0] != '+') by {
            assert(is_digit(t[0]));
        };
        assert(all_digits(t));
        assert(digits_val(t) == i);
        assert(parse_int_spec(t) == Option::Some(i));
    }
}

proof fn lemma_atomize_int_text(i: int)
    requires
        -0x8000_0000_0000_0000 <= i <= 0x7fff_ffff_ffff_ffff,
    ensures
        atomize_spec(int_text(i)) == ObjectV::Number(NumberV::Int(i)),
{
    lemma_int_text_form(i);
}

proof fn lemma_bool_texts()
    ensures
        atom_token(seq!['t', 'r', 'u', 'e']),
        atom_token(seq!['f', 'a', 'l', 's', 'e']),
        atomize_spec(seq!['t', 'r', 'u', 'e']) == ObjectV::Boolean(true),
        atomize_spec(seq!['f', 'a', 'l', 's', 'e']) == ObjectV::Boolean(false),
{
    let t = seq!['t', 'r', 'u', 'e'];
    let f = seq!['f', 'a', 'l', 's', 'e'];
    assert(forall|j: int| 0 <= j < t.len() ==> #[trigger] atom_char(t[j])) by {
        assert(atom_char('t') && atom_char('r') && atom_char('u') && atom_char('e'));
    };
    assert(forall|j: int| 0 <= j < f.len() ==> #[trigger] atom_char(f[j])) by {
        assert(atom_char('f') && atom_char('a') && atom_char('l') && atom_char('s'));
    };
    assert(!contains_char(t, '.')) by {
        assert(forall|j: int| 0 <= j < t.len() ==> t[j] != '.');
    };
    assert(!contains_char(f, '.')) by {
        assert(forall|j: int| 0 <= j < f.len() ==> f[j] != '.');
    };
    assert(parse_int_spec(t) is None) by {
        assert(!is_digit(t[0]));
        assert(!all_digits(t));
    };
    assert(parse_int_spec(f) is None) by {
        assert(!is_digit(f[0]));
        assert(!all_digits(f));
    };
}

/// Round trip of parsed literal atoms: whatever value an atom token reads
/// as, the printed text of that value parses back to exactly that value as
/// one top-level atom.  This covers integer and float numbers, the two
/// boolean literals, and symbols.
pub proof fn lemma_roundtrip_parsed_atom(t: Seq<char>)
    requires
        atom_token(t),
    ensures
        parse_spec(text_of_obj(atomize_spec(t))) == Result::Ok::<Seq<ExprV>, ParseError>(
            seq![ExprV::Atom(atomize_spec(t))],
        ),
{
    let v = atomize_spec(t);
    if contains_char(t, '.') {
        if is_float_token(t) {
            assert(v == ObjectV::Number(NumberV::Float(t)));
            assert(text_of_obj(v) == t);
            lemma_parse_single_atom(t);
        } else {
            assert(v == ObjectV::Symbol(t));
            assert(text_of_obj(v) == t);
            lemma_parse_single_atom(t);
        }
    } else if parse_int_spec(t) is Some {
        let i = parse_int_spec(t)->Some_0;
        assert(v == ObjectV::Number(NumberV::Int(i)));
        assert(text_of_obj(v) == int_text(i));
        assert(-0x8000_0000_0000_0000 <= i <= 0x7fff_ffff_ffff_ffff);
        lemma_int_text_form(i);
        lemma_atomize_int_text(i);
        lemma_parse_single_atom(int_text(i));
    } else if t == seq!['t', 'r', 'u', 'e'] {
        lemma_bool_texts();
        assert(v == ObjectV::Boolean(true));
        assert(text_of_obj(v) == seq!['t', 'r', 'u', 'e']);
        lemma_parse_single_atom(seq!['t', 'r', 'u', 'e']);
    } else if t == seq!['f', 'a', 'l', 's', 'e'] {
        lemma_bool_texts();
        assert(v == ObjectV::Boolean(false));
        assert(text_of_obj(v) == seq!['f', 'a', 'l', 's', 'e']);
        lemma_parse_single_atom(seq!['f', 'a', 'l', 's', 'e']);
    } else {
        assert(v == ObjectV::Symbol(t));
        assert(text_of_obj(v) == t);
        lemma_parse_single_atom(t);
    }
}

// ---------------------------------------------------------------------------
// Round trip of parsed strings
// ---------------------------------------------------------------------------

/// A word of a parsed string's content: an atom token, or a single bracket
/// or parenthesis, each of which the tokenizer also cuts out as one token.
pub open spec fn str_word(w: Seq<char>) -> bool {
    atom_token(w) || w == seq!['['] || w == seq![']'] || w == seq!['('] || w == seq![')']
}

/// How many elements are the given word.
pub open spec fn count_words(ws: Seq<Seq<char>>, w: Seq<char>) -> nat
    decreases ws.len(),
{
    if ws.len() == 0 {
        0
    } else {
        (if ws[0] == w { 1nat } else { 0nat }) + count_words(ws.drop_first(), w)
    }
}

/// Whether every element is a word of string content.
pub open spec fn all_words(ws: Seq<Seq<char>>) -> bool {
    forall|i: int| 0 <= i < ws.len() ==> #[trigger] str_word(ws[i])
}

/// The words joined by single spaces.  Every string the parser produces has
/// this shape when its content holds no delimiter characters: words of atom
/// characters, one space between neighbours.
pub open spec fn join_words(ws: Seq<Seq<char>>) -> Seq<char>
    decreases ws.len(),
{
    if ws.len() == 0 {
        Seq::empty()
    } else if ws.len() == 1 {
        ws[0]
    } else {
        ws[0] + seq![' '] + join_words(ws.drop_first())
    }
}

proof fn lemma_atom_len_offset(s: Seq<char>, i: int, j: int)
    requires
        0 <= i,
        0 <= j,
        i + j <= s.len(),
    ensures
        atom_len_at(s.skip(i), j) == atom_len_at(s, i + j),
    decreases s.len() - i - j,
{
    if i + j < s.len() {
        assert(s.skip(i)[j] == s[i + j]);
        if !is_ws(s[i + j]) && !is_delim(s[i + j]) {
            lemma_atom_len_offset(s, i, j + 1);
        }
    }
}

proof fn lemma_toks_offset(s: Seq<char>, i: int, j: int)
    requires
        0 <= i,
        0 <= j,
        i + j <= s.len(),
    ensures
        toks_from(s.skip(i), j) =~= toks_from(s, i + j),
    decreases s.len() - i - j,
{
    let tail = s.skip(i);
    if i + j < s.len() {
        assert(tail[j] == s[i + j]);
        if is_ws(s[i + j]) {
            lemma_toks_offset(s, i, j + 1);
        } else if is_delim(s[i + j]) {
            lemma_toks_offset(s, i, j + 1);
        } else {
            lemma_atom_len_offset(s, i, j + 1);
            let k = 1 + atom_len_at(s, i + j + 1);
            assert(i + j + k <= s.len()) by {
                crate::parser::lemma_atom_len_at_bound(s, i + j + 1);
            };
            assert(tail.subrange(j, j + k) =~= s.subrange(i + j, i + j + k));
            lemma_toks_offset(s, i, j + k);
        }
    }
}

proof fn lemma_atom_len_upto(s: Seq<char>, i: int, j: int)
    requires
        0 <= i <= j <= s.len(),
        forall|x: int| i <= x < j ==> #[trigger] atom_char(s[x]),
        j < s.len() ==> !atom_char(s[j]),
    ensures
        atom_len_at(s, i) == j - i,
    decreases j - i,
{
    if i < j {
        assert(atom_char(s[i]));
        lemma_atom_len_upto(s, i + 1, j);
    } else {
        if i < s.len() {
            assert(!atom_char(s[i]));
        }
    }
}

proof fn lemma_word_front(text: Seq<char>, w: Seq<char>)
    requires
        str_word(w),
        w.len() <= text.len(),
        text.subrange(0, w.len() as int) =~= w,
        w.len() < text.len() ==> (text[w.len() as int] == ' ' || text[w.len() as int] == '"'),
    ensures
        toks_from(text, 0) =~= seq![w] + toks_from(text, w.len() as int),
{
    assert(forall|x: int| 0 <= x < w.len() ==> #[trigger] text[x] == w[x]);
    if atom_token(w) {
        assert(forall|x: int| 0 <= x < w.len() ==> #[trigger] atom_char(text[x])) by {
            assert(forall|x: int| 0 <= x < w.len() ==> atom_char(#[trigger] w[x]));
        };
        if w.len() < text.len() {
            assert(!atom_char(text[w.len() as int]));
        }
        lemma_atom_len_upto(text, 0, w.len() as int);
        assert(atom_char(text[0]));
        assert(1 + atom_len_at(text, 1) == w.len()) by {
            assert(atom_len_at(text, 0) == 1 + atom_len_at(text, 1));
        };
        assert(toks_from(text, 0) =~= seq![text.subrange(0, w.len() as int)] + toks_from(
            text,
            w.len() as int,
        ));
    } else {
        // a single bracket or parenthesis is one delimiter token
        assert(w == seq!['['] || w == seq![']'] || w == seq!['('] || w == seq![')']);
        assert(text[0] == w[0]);
        assert(is_delim(text[0]) && !is_ws(text[0]));
        assert(seq![text[0]] =~= w);
        assert(toks_from(text, 0) =~= seq![seq![text[0]]] + toks_from(text, 1));
    }
}

proof fn lemma_content_toks(ws: Seq<Seq<char>>)
    requires
        all_words(ws),
    ensures
        toks_from(join_words(ws) + seq!['"'], 0) =~= ws + seq![seq!['"']],
    decreases ws.len(),
{
    let text = join_words(ws) + seq!['"'];
    if ws.len() == 0 {
        assert(text =~= seq!['"']);
        assert(toks_from(text, 1) =~= Seq::<Seq<char>>::empty());
        assert(toks_from(text, 0) =~= seq![seq!['"']] + Seq::<Seq<char>>::empty());
        assert(ws + seq![seq!['"']] =~= seq![seq!['"']]);
    } else if ws.len() == 1 {
        let w = ws[0];
        assert(str_word(w));
        assert(text =~= w + seq!['"']);
        assert(text.subrange(0, w.len() as int) =~= w);
        assert(text[w.len() as int] == '"');
        lemma_word_front(text, w);
        assert(toks_from(text, w.len() as int + 1) =~= Seq::<Seq<char>>::empty());
        assert(toks_from(text, w.len() as int) =~= seq![seq!['"']]);
        assert(toks_from(text, 0) =~= seq![w] + seq![seq!['"']]);
        assert(seq![w] + seq![seq!['"']] =~= ws + seq![seq!['"']]);
    } else {
        let w = ws[0];
        let rest = ws.drop_first();
        assert(str_word(w));
        assert(w.len() >= 1);
        assert(all_words(rest)) by {
            assert(forall|i: int| 0 <= i < rest.len() ==> rest[i] == ws[i + 1] && str_word(
                #[trigger] ws[i + 1],
            ));
        };
        assert(join_words(ws) =~= w + seq![' '] + join_words(rest));
        assert(text =~= (w + seq![' ']) + (join_words(rest) + seq!['"']));
        assert(text.subrange(0, w.len() as int) =~= w);
        assert(text[w.len() as int] == ' ');
        lemma_word_front(text, w);
        // after the word, a space, then the rest of the text
        assert(is_ws(text[w.len() as int]));
        lemma_toks_offset(text, w.len() as int + 1, 0);
        assert(text.skip(w.len() as int + 1) =~= join_words(rest) + seq!['"']);
        lemma_content_toks(rest);
        assert(toks_from(text, w.len() as int + 1) =~= rest + seq![seq!['"']]);
        assert(toks_from(text, w.len() as int) =~= rest + seq![seq!['"']]);
        assert(toks_from(text, 0) =~= seq![w] + (rest + seq![seq!['"']]));
        assert(seq![w] + (rest + seq![seq!['"']]) =~= ws + seq![seq!['"']]);
    }
}

proof fn lemma_stream_quote_search(stream: Seq<Seq<char>>, ws: Seq<Seq<char>>, j: int)
    requires
        all_words(ws),
        stream =~= with_markers(seq![seq!['"']] + ws + seq![seq!['"']]),
        1 <= j <= 2 * ws.len() + 2,
    ensures
        crate::parser::first_quote_from(stream, j) == 2 * ws.len() + 2,
    decreases 2 * ws.len() + 2 - j,
{
    let n = ws.len() as int;
    assert(stream.len() == 2 * n + 4);
    if j == 2 * n + 2 {
        assert(stream[j] == (seq![seq!['"']] + ws + seq![seq!['"']])[n + 1]);
        assert(stream[j] == seq!['"']);
    } else {
        if j % 2 == 1 {
            assert(stream[j] == seq![' ']);
            assert(stream[j] != seq!['"']) by {
                assert(seq![' '][0] == ' ');
                assert(seq!['"'][0] == '"');
            };
        } else {
            let k = j / 2 - 1;
            assert(0 <= k < n);
            assert(stream[j] == (seq![seq!['"']] + ws + seq![seq!['"']])[j / 2]);
            assert(stream[j] == ws[k]);
            assert(str_word(ws[k]));
            assert(stream[j] != seq!['"']) by {
                if ws[k] == seq!['"'] {
                    if atom_token(ws[k]) {
                        assert(ws[k][0] == '"' && atom_char(ws[k][0]) && is_delim('"'));
                    } else {
                        assert(ws[k][0] == '[' || ws[k][0] == ']' || ws[k][0] == '(' || ws[k][0]
                            == ')');
                        assert(ws[k][0] == '"');
                    }
                }
            };
        }
        lemma_stream_quote_search(stream, ws, j + 1);
    }
}

proof fn lemma_stream_reconstruct(stream: Seq<Seq<char>>, ws: Seq<Seq<char>>, k: int)
    requires
        all_words(ws),
        stream =~= with_markers(seq![seq!['"']] + ws + seq![seq!['"']]),
        0 <= k <= ws.len(),
    ensures
        crate::parser::concat_range(stream, 2 + 2 * k, 2 * (ws.len() as int) + 1) =~= join_words(
            ws.skip(k),
        ),
    decreases ws.len() - k,
{
    let n = ws.len() as int;
    if k == n {
        assert(crate::parser::concat_range(stream, 2 + 2 * k, 2 * n + 1)
            =~= Seq::<char>::empty());
        assert(ws.skip(n) =~= Seq::<Seq<char>>::empty());
    } else {
        assert(stream[2 + 2 * k] == (seq![seq!['"']] + ws + seq![seq!['"']])[(2 + 2 * k) / 2]);
        assert(stream[2 + 2 * k] == ws[k]);
        lemma_stream_reconstruct(stream, ws, k + 1);
        if k == n - 1 {
            assert(crate::parser::concat_range(stream, 2 * n + 1, 2 * n + 1)
                =~= Seq::<char>::empty());
            assert(crate::parser::concat_range(stream, 2 + 2 * k, 2 * n + 1) =~= ws[k]
                + Seq::<char>::empty());
            assert(ws.skip(k) =~= seq![ws[k]]);
            assert(join_words(ws.skip(k)) == ws.skip(k)[0]);
        } else {
            assert(stream[3 + 2 * k] == seq![' ']);
            assert(crate::parser::concat_range(stream, 3 + 2 * k, 2 * n + 1) =~= seq![' ']
                + crate::parser::concat_range(stream, 4 + 2 * k, 2 * n + 1));
            assert(crate::parser::concat_range(stream, 2 + 2 * k, 2 * n + 1) =~= ws[k] + (seq![
                ' ',
            ] + join_words(ws.skip(k + 1))));
            assert(ws.skip(k).len() >= 2);
            assert(ws.skip(k)[0] == ws[k]);
            assert(ws.skip(k).drop_first() =~= ws.skip(k + 1));
            assert(join_words(ws.skip(k)) == ws.skip(k)[0] + seq![' '] + join_words(
                ws.skip(k + 1),
            ));
            assert(ws[k] + (seq![' '] + join_words(ws.skip(k + 1))) =~= (ws[k] + seq![' '])
                + join_words(ws.skip(k + 1)));
            assert((ws[k] + seq![' ']) + join_words(ws.skip(k + 1)) =~= join_words(ws.skip(k)));
        }
    }
}

/// A character of string content: inside an atom word, a space between
/// words, or a bracket or parenthesis word.
pub open spec fn content_char(c: char) -> bool {
    atom_char(c) || c == ' ' || c == '[' || c == ']' || c == '(' || c == ')'
}

proof fn lemma_word_chars(w: Seq<char>)
    requires
        str_word(w),
    ensures
        forall|x: int| 0 <= x < w.len() ==> #[trigger] content_char(w[x]),
{
    if atom_token(w) {
        assert(forall|x: int| 0 <= x < w.len() ==> atom_char(#[trigger] w[x]));
    } else {
        assert(w == seq!['['] || w == seq![']'] || w == seq!['('] || w == seq![')']);
        assert(content_char('[') && content_char(']') && content_char('(') && content_char(')'));
    }
}

proof fn lemma_join_chars(ws: Seq<Seq<char>>)
    requires
        all_words(ws),
    ensures
        forall|x: int| 0 <= x < join_words(ws).len() ==> #[trigger] content_char(
            join_words(ws)[x],
        ),
    decreases ws.len(),
{
    if ws.len() == 1 {
        assert(str_word(ws[0]));
        lemma_word_chars(ws[0]);
        assert(forall|x: int| 0 <= x < ws[0].len() ==> #[trigger] content_char(ws[0][x]));
    } else if ws.len() > 1 {
        let rest = ws.drop_first();
        assert(all_words(rest)) by {
            assert(forall|i: int| 0 <= i < rest.len() ==> rest[i] == ws[i + 1] && str_word(
                #[trigger] ws[i + 1],
            ));
        };
        lemma_join_chars(rest);
        assert(str_word(ws[0]));
        lemma_word_chars(ws[0]);
        let j = join_words(ws);
        assert(j =~= ws[0] + seq![' '] + join_words(rest));
        assert(forall|x: int| 0 <= x < ws[0].len() ==> j[x] == ws[0][x] && content_char(
            #[trigger] ws[0][x],
        ));
        assert(content_char(' '));
    }
}

proof fn lemma_count_concat(a: Seq<char>, b: Seq<char>, c: char)
    ensures
        count_char_from(a + b, 0, c) == count_char_from(a, 0, c) + count_char_from(b, 0, c),
    decreases a.len(),
{
    if a.len() == 0 {
        assert(a + b =~= b);
    } else {
        let t = a + b;
        lemma_count_offset(t, 1, c);
        assert(t.skip(1) =~= a.drop_first() + b);
        lemma_count_concat(a.drop_first(), b, c);
        lemma_count_offset(a, 1, c);
        assert(a.skip(1) =~= a.drop_first());
        assert(t[0] == a[0]);
    }
}

proof fn lemma_word_count(w: Seq<char>, c: char)
    requires
        str_word(w),
        is_delim(c),
    ensures
        count_char_from(w, 0, c) == (if w == seq![c] { 1nat } else { 0nat }),
{
    if atom_token(w) {
        assert(forall|x: int| 0 <= x < w.len() ==> w[x] != c) by {
            assert(forall|x: int| 0 <= x < w.len() ==> atom_char(#[trigger] w[x]));
        };
        lemma_count_char_none(w, 0, c);
        assert(w != seq![c]) by {
            if w == seq![c] {
                assert(w[0] == c && atom_char(w[0]));
            }
        };
    } else {
        assert(w.len() == 1);
        assert(count_char_from(w, 1, c) == 0);
        if w[0] == c {
            assert(w =~= seq![c]);
        } else {
            assert(w != seq![c]) by {
                if w == seq![c] {
                    assert(w[0] == c);
                }
            };
        }
    }
}

proof fn lemma_join_count(ws: Seq<Seq<char>>, c: char)
    requires
        all_words(ws),
        is_delim(c),
        c != ' ',
    ensures
        count_char_from(join_words(ws), 0, c) == count_words(ws, seq![c]),
    decreases ws.len(),
{
    if ws.len() == 1 {
        assert(str_word(ws[0]));
        lemma_word_count(ws[0], c);
        assert(ws.drop_first() =~= Seq::<Seq<char>>::empty());
    } else if ws.len() > 1 {
        let rest = ws.drop_first();
        assert(all_words(rest)) by {
            assert(forall|i: int| 0 <= i < rest.len() ==> rest[i] == ws[i + 1] && str_word(
                #[trigger] ws[i + 1],
            ));
        };
        assert(str_word(ws[0]));
        lemma_word_count(ws[0], c);
        lemma_join_count(rest, c);
        assert(join_words(ws) =~= ws[0] + (seq![' '] + join_words(rest)));
        lemma_count_concat(ws[0], seq![' '] + join_words(rest), c);
        lemma_count_concat(seq![' '], join_words(rest), c);
        assert(count_char_from(seq![' '], 1, c) == 0);
        assert(count_char_from(seq![' '], 0, c) == 0);
    }
}

/// Round trip of parsed strings: a string of words — atom texts, single
/// brackets, or single parentheses in balance — joined by single spaces
/// prints in quotes and parses back to exactly the same string value.
/// The balance is needed: the parenthesis pre-check of the parser refuses
/// the printed form of a string whose parentheses do not pair up.
pub proof fn lemma_roundtrip_string(ws: Seq<Seq<char>>)
    requires
        all_words(ws),
        count_words(ws, seq!['(']) == count_words(ws, seq![')']),
    ensures
        ({
            let s = join_words(ws);
            parse_spec(text_of_obj(ObjectV::Str(s))) == Result::Ok::<Seq<ExprV>, ParseError>(
                seq![ExprV::Atom(ObjectV::Str(s))],
            )
        }),
{
    let s = join_words(ws);
    let n = ws.len() as int;
    let text = text_of_obj(ObjectV::Str(s));
    assert(text =~= seq!['"'] + (s + seq!['"']));
    lemma_join_chars(ws);
    // the parenthesis counts of the printed text agree, word for word
    lemma_join_count(ws, '(');
    lemma_join_count(ws, ')');
    lemma_count_concat(seq!['"'], s + seq!['"'], '(');
    lemma_count_concat(seq!['"'], s + seq!['"'], ')');
    lemma_count_concat(s, seq!['"'], '(');
    lemma_count_concat(s, seq!['"'], ')');
    assert(count_char_from(seq!['"'], 1, '(') == 0 && count_char_from(seq!['"'], 1, ')') == 0);
    assert(count_char_from(seq!['"'], 0, '(') == 0 && count_char_from(seq!['"'], 0, ')') == 0);
    assert(count_char_from(text, 0, '(') == count_char_from(s, 0, '('));
    assert(count_char_from(text, 0, ')') == count_char_from(s, 0, ')'));
    assert(count_char_from(s, 0, '(') == count_words(ws, seq!['(']));
    assert(count_char_from(s, 0, ')') == count_words(ws, seq![')']));
    assert(count_char_from(text, 0, '(') == count_char_from(text, 0, ')'));
    // tokens: a quote, the words, a quote
    lemma_toks_offset(text, 1, 0);
    assert(text.skip(1) =~= s + seq!['"']);
    lemma_content_toks(ws);
    assert(toks_from(text, 1) =~= ws + seq![seq!['"']]);
    assert(toks_from(text, 0) =~= seq![seq!['"']] + (ws + seq![seq!['"']]));
    assert(seq![seq!['"']] + (ws + seq![seq!['"']]) =~= seq![seq!['"']] + ws + seq![seq!['"']]);
    let toks = seq![seq!['"']] + ws + seq![seq!['"']];
    let stream = token_stream(text);
    assert(stream =~= with_markers(toks));
    assert(stream.len() == 2 * n + 4);
    // the opening token is a quote and no marker or other delimiter
    assert(stream[0] == toks[0] && toks[0] == seq!['"']);
    assert(!is_marker(stream[0])) by {
        assert(seq!['"'][0] == '"');
        assert(seq![' '][0] == ' ');
    };
    assert(stream[0] != seq!['(']) by {
        assert(seq!['"'][0] == '"' && seq!['('][0] == '(');
    };
    assert(stream[0] != seq![')']) by {
        assert(seq!['"'][0] == '"' && seq![')'][0] == ')');
    };
    assert(stream[0] != seq!['[']) by {
        assert(seq!['"'][0] == '"' && seq!['['][0] == '[');
    };
    assert(stream[0] != seq![']']) by {
        assert(seq!['"'][0] == '"' && seq![']'][0] == ']');
    };
    lemma_stream_quote_search(stream, ws, 1);
    assert(crate::parser::first_quote_from(stream, 1) == 2 * n + 2);
    lemma_stream_reconstruct(stream, ws, 0);
    assert(crate::parser::concat_range(stream, 2, 2 * n + 1) =~= join_words(ws.skip(0)));
    assert(ws.skip(0) =~= ws);
    assert(p_unit(stream, 0) == Result::Ok::<(ExprV, int), ParseError>(
        (ExprV::Atom(ObjectV::Str(s)), 2 * n + 3),
    ));
    // after the unit, one marker, then the stream ends
    assert(stream[2 * n + 3] == seq![' ']);
    assert(is_marker(stream[2 * n + 3]));
    assert(parse_all(stream, 2 * n + 4) == Result::Ok::<Seq<ExprV>, ParseError>(Seq::empty()));
    assert(parse_all(stream, 2 * n + 3) == Result::Ok::<Seq<ExprV>, ParseError>(Seq::empty()));
    assert(parse_all(stream, 0) == Result::Ok::<Seq<ExprV>, ParseError>(
        seq![ExprV::Atom(ObjectV::Str(s))] + Seq::<ExprV>::empty(),
    ));
    assert(seq![ExprV::Atom(ObjectV::Str(s))] + Seq::<ExprV>::empty() =~= seq![
        ExprV::Atom(ObjectV::Str(s)),
    ]);
}

// ---------------------------------------------------------------------------
// Newline normalization changes no parse
// ---------------------------------------------------------------------------

proof fn lemma_l2s_prefix(s: Seq<char>, k: int)
    requires
        0 <= k <= s.len(),
        forall|j: int| 0 <= j < k ==> !is_ws(#[trigger] s[j]),
    ensures
        crate::parser::lines_to_spaces_spec(s).len() >= k,
        crate::parser::lines_to_spaces_spec(s).subrange(0, k) =~= s.subrange(0, k),
        crate::parser::lines_to_spaces_spec(s).skip(k) =~= crate::parser::lines_to_spaces_spec(
            s.skip(k),
        ),
    decreases k,
{
    let t = crate::parser::lines_to_spaces_spec(s);
    if k == 0 {
        assert(t.subrange(0, 0) =~= s.subrange(0, 0));
        assert(t.skip(0) =~= t);
        assert(s.skip(0) =~= s);
    } else {
        assert(!is_ws(s[0]));
        assert(!(s.len() >= 2 && s[0] == '\r' && s[1] == '\n')) by {
            assert(is_ws('\r'));
        };
        assert(s[0] != '\n') by {
            assert(is_ws('\n'));
        };
        let rest = crate::parser::lines_to_spaces_spec(s.skip(1));
        assert(t =~= seq![s[0]] + rest);
        assert(forall|j: int| 0 <= j < k - 1 ==> !is_ws(#[trigger] s.skip(1)[j]) && s.skip(1)[j]
            == s[j + 1]);
        lemma_l2s_prefix(s.skip(1), k - 1);
        assert(t.subrange(0, k) =~= s.subrange(0, k)) by {
            assert(forall|x: int| 0 <= x < k ==> t.subrange(0, k)[x] == t[x]);
            assert(t[0] == s[0]);
            assert(forall|x: int| 1 <= x < k ==> t[x] == rest[x - 1]);
            assert(forall|x: int| 0 <= x < k - 1 ==> rest[x] == rest.subrange(0, k - 1)[x]);
        };
        assert(t.skip(k) =~= rest.skip(k - 1));
        assert(s.skip(1).skip(k - 1) =~= s.skip(k));
        assert(rest.skip(k - 1) =~= crate::parser::lines_to_spaces_spec(s.skip(k)));
    }
}

proof fn lemma_l2s_toks(s: Seq<char>)
    ensures
        toks_from(crate::parser::lines_to_spaces_spec(s), 0) =~~= toks_from(s, 0),
    decreases s.len(),
{
    let t = crate::parser::lines_to_spaces_spec(s);
    if s.len() == 0 {
    } else if s.len() >= 2 && s[0] == '\r' && s[1] == '\n' {
        assert(t =~= seq![' '] + crate::parser::lines_to_spaces_spec(s.skip(2)));
        assert(is_ws(t[0]));
        lemma_toks_offset(t, 1, 0);
        assert(t.skip(1) =~= crate::parser::lines_to_spaces_spec(s.skip(2)));
        lemma_l2s_toks(s.skip(2));
        assert(is_ws(s[0]) && is_ws(s[1]));
        lemma_toks_offset(s, 2, 0);
        assert(toks_from(t, 0) == toks_from(t, 1));
        assert(toks_from(s, 0) == toks_from(s, 1));
        assert(toks_from(s, 1) == toks_from(s, 2));
        assert(toks_from(t, 0) =~~= toks_from(s, 0));
    } else if s[0] == '\n' {
        assert(t =~= seq![' '] + crate::parser::lines_to_spaces_spec(s.skip(1)));
        assert(is_ws(t[0]));
        lemma_toks_offset(t, 1, 0);
        assert(t.skip(1) =~= crate::parser::lines_to_spaces_spec(s.skip(1)));
        lemma_l2s_toks(s.skip(1));
        assert(is_ws(s[0]));
        lemma_toks_offset(s, 1, 0);
        assert(toks_from(t, 0) =~~= toks_from(s, 0));
    } else if is_ws(s[0]) {
        assert(t =~= seq![s[0]] + crate::parser::lines_to_spaces_spec(s.skip(1)));
        assert(is_ws(t[0]));
        lemma_toks_offset(t, 1, 0);
        assert(t.skip(1) =~= crate::parser::lines_to_spaces_spec(s.skip(1)));
        lemma_l2s_toks(s.skip(1));
        lemma_toks_offset(s, 1, 0);
        assert(toks_from(t, 0) =~~= toks_from(s, 0));
    } else if is_delim(s[0]) {
        assert(t =~= seq![s[0]] + crate::parser::lines_to_spaces_spec(s.skip(1)));
        assert(is_delim(t[0]) && !is_ws(t[0]));
        lemma_toks_offset(t, 1, 0);
        assert(t.skip(1) =~= crate::parser::lines_to_spaces_spec(s.skip(1)));
        lemma_l2s_toks(s.skip(1));
        lemma_toks_offset(s, 1, 0);
        assert(toks_from(t, 0) =~~= seq![seq![t[0]]] + toks_from(
            crate::parser::lines_to_spaces_spec(s.skip(1)),
            0,
        ));
        assert(toks_from(s, 0) =~~= seq![seq![s[0]]] + toks_from(s.skip(1), 0));
        assert(toks_from(t, 0) =~~= toks_from(s, 0));
    } else {
        // an atom run: the kept prefix is identical in both texts
        let k = 1 + atom_len_at(s, 1) as int;
        crate::parser::lemma_atom_len_at_bound(s, 1);
        assert(forall|j: int| 0 <= j < k ==> atom_char(#[trigger] s[j])) by {
            lemma_atom_run_chars(s, 1, k);
            assert(atom_char(s[0]));
        };
        assert(forall|j: int| 0 <= j < k ==> !is_ws(#[trigger] s[j])) by {
            assert(forall|j: int| 0 <= j < k ==> atom_char(#[trigger] s[j]));
        };
        lemma_l2s_prefix(s, k);
        assert(t.skip(k) =~= crate::parser::lines_to_spaces_spec(s.skip(k)));
        // the run ends at the same place in both texts
        assert forall|j: int| 0 <= j < k implies t[j] == s[j] by {
            assert(t[j] == t.subrange(0, k)[j]);
            assert(s[j] == s.subrange(0, k)[j]);
        };
        assert(k <= t.len());
        if k < s.len() {
            assert(!atom_char(s[k])) by {
                lemma_atom_run_end(s, 1);
                assert(1 + atom_len_at(s, 1) == k);
            };
            if k < t.len() {
                assert(t[k] == t.skip(k)[0]);
                lemma_l2s_head_not_atom(s.skip(k));
            }
        } else {
            if k < t.len() {
                assert(t[k] == t.skip(k)[0]);
                assert(s.skip(k) =~= Seq::<char>::empty());
                assert(t.skip(k) =~= Seq::<char>::empty());
            }
        }
        lemma_atom_len_upto(t, 1, k);
        lemma_atom_len_upto(s, 1, k);
        assert(1 + atom_len_at(t, 1) == k);
        assert(t.subrange(0, k) =~= s.subrange(0, k));
        lemma_toks_offset(t, k, 0);
        lemma_toks_offset(s, k, 0);
        lemma_l2s_toks(s.skip(k));
        assert(toks_from(t, 0) =~~= seq![t.subrange(0, k)] + toks_from(
            crate::parser::lines_to_spaces_spec(s.skip(k)),
            0,
        ));
        assert(toks_from(s, 0) =~~= seq![s.subrange(0, k)] + toks_from(s.skip(k), 0));
        assert(toks_from(t, 0) =~~= toks_from(s, 0));
    }
}

proof fn lemma_atom_run_end(s: Seq<char>, i: int)
    requires
        0 <= i <= s.len(),
    ensures
        i + atom_len_at(s, i) < s.len() ==> !atom_char(s[i + atom_len_at(s, i)]),
    decreases s.len() - i,
{
    if i < s.len() && atom_char(s[i]) {
        lemma_atom_run_end(s, i + 1);
    }
}

proof fn lemma_atom_run_chars(s: Seq<char>, i: int, j: int)
    requires
        0 <= i <= j,
        j == i + atom_len_at(s, i),
    ensures
        forall|x: int| i <= x < j ==> atom_char(#[trigger] s[x]),
    decreases j - i,
{
    if i < j {
        assert(atom_char(s[i]));
        lemma_atom_run_chars(s, i + 1, j);
    }
}

proof fn lemma_l2s_head_not_atom(s: Seq<char>)
    requires
        s.len() > 0,
        !atom_char(s[0]),
    ensures
        crate::parser::lines_to_spaces_spec(s).len() > 0 ==> !atom_char(
            crate::parser::lines_to_spaces_spec(s)[0],
        ),
{
    let t = crate::parser::lines_to_spaces_spec(s);
    if s.len() >= 2 && s[0] == '\r' && s[1] == '\n' {
        assert(t =~= seq![' '] + crate::parser::lines_to_spaces_spec(s.skip(2)));
        assert(t[0] == ' ' && is_ws(' '));
    } else if s[0] == '\n' {
        assert(t =~= seq![' '] + crate::parser::lines_to_spaces_spec(s.skip(1)));
        assert(t[0] == ' ' && is_ws(' '));
    } else {
        assert(t =~= seq![s[0]] + crate::parser::lines_to_spaces_spec(s.skip(1)));
        assert(t[0] == s[0]);
    }
}

proof fn lemma_l2s_count(s: Seq<char>, c: char)
    requires
        !is_ws(c),
    ensures
        count_char_from(crate::parser::lines_to_spaces_spec(s), 0, c) == count_char_from(s, 0, c),
    decreases s.len(),
{
    let t = crate::parser::lines_to_spaces_spec(s);
    if s.len() == 0 {
    } else if s.len() >= 2 && s[0] == '\r' && s[1] == '\n' {
        assert(t =~= seq![' '] + crate::parser::lines_to_spaces_spec(s.skip(2)));
        lemma_l2s_count(s.skip(2), c);
        lemma_count_offset(t, 1, c);
        lemma_count_offset(s, 1, c);
        lemma_count_offset(s.skip(1), 1, c);
        assert(s.skip(1).skip(1) =~= s.skip(2));
        assert(t.skip(1) =~= crate::parser::lines_to_spaces_spec(s.skip(2)));
        assert(t[0] != c && s[0] != c && s.skip(1)[0] != c) by {
            assert(is_ws('\r') && is_ws('\n') && is_ws(' '));
        };
    } else if s[0] == '\n' {
        assert(t =~= seq![' '] + crate::parser::lines_to_spaces_spec(s.skip(1)));
        lemma_l2s_count(s.skip(1), c);
        lemma_count_offset(t, 1, c);
        lemma_count_offset(s, 1, c);
        assert(t.skip(1) =~= crate::parser::lines_to_spaces_spec(s.skip(1)));
        assert(t[0] != c && s[0] != c) by {
            assert(is_ws('\n') && is_ws(' '));
        };
    } else {
        assert(t =~= seq![s[0]] + crate::parser::lines_to_spaces_spec(s.skip(1)));
        lemma_l2s_count(s.skip(1), c);
        lemma_count_offset(t, 1, c);
        lemma_count_offset(s, 1, c);
        assert(t.skip(1) =~= crate::parser::lines_to_spaces_spec(s.skip(1)));
        assert(t[0] == s[0]);
    }
}

proof fn lemma_count_offset(s: Seq<char>, i: int, c: char)
    requires
        0 <= i <= s.len(),
    ensures
        count_char_from(s.skip(i), 0, c) == count_char_from(s, i, c),
    decreases s.len() - i,
{
    if i < s.len() {
        lemma_count_offset(s, i + 1, c);
        lemma_count_offset(s.skip(i), 1, c);
        assert(s.skip(i).skip(1) =~= s.skip(i + 1));
        assert(s.skip(i)[0] == s[i]);
    }
}

/// Normalizing line terminators to spaces changes no parse: the same
/// expressions, or the same error, come from the raw text.
pub proof fn lemma_newlines_change_no_parse(s: Seq<char>)
    ensures
        parse_spec(crate::parser::lines_to_spaces_spec(s)) == parse_spec(s),
{
    let t = crate::parser::lines_to_spaces_spec(s);
    lemma_l2s_count(s, '(');
    lemma_l2s_count(s, ')');
    lemma_l2s_toks(s);
    assert(toks_from(t, 0) == toks_from(s, 0));
    assert(token_stream(t) == token_stream(s));
}

/// Equality of float values is equality of their literal texts, never of
/// their numeric values.
pub proof fn lemma_float_equality_textual(a: Seq<char>, b: Seq<char>)
    ensures
        (ObjectV::Number(NumberV::Float(a)) == ObjectV::Number(NumberV::Float(b))) <==> (a == b),
{
}

/// An argument that evaluates to an exit value stops the argument walk at
/// once: the walk halts with that message in the state the exit left, and
/// no later argument is evaluated.
pub proof fn lemma_exit_short_circuit(
    es: Seq<ExprV>,
    i: int,
    st: StateV,
    fuel: nat,
    m: Option<Seq<char>>,
)
    requires
        0 <= i < es.len(),
        eval_expr_spec(es[i], st, fuel).res == Result::Ok::<Option<ObjectV>, EvalErrorV>(
            Option::Some(ObjectV::Exit(m)),
        ),
    ensures
        eval_args_spec(es, i, st, fuel) == (ArgsOutV {
            res: ArgsResV::Halted(m),
            st: eval_expr_spec(es[i], st, fuel).st,
        }),
{
}

/// When the argument walk of a call halts at an exit value, the call's
/// result is that exit value and the function is never applied.
pub proof fn lemma_call_halts_on_exit(
    f: crate::data::FunctionV,
    es: Seq<ExprV>,
    st: StateV,
    fuel: nat,
    m: Option<Seq<char>>,
)
    requires
        eval_args_spec(es, 1, st, fuel).res == ArgsResV::Halted(m),
    ensures
        eval_call(f, es, st, fuel) == (EvalOutV {
            res: Result::Ok(Option::Some(ObjectV::Exit(m))),
            st: eval_args_spec(es, 1, st, fuel).st,
        }),
{
}

/// Defining an already-bound name is refused: the outcome is the
/// redefinition error, and no binding changes beyond those the value
/// expression itself made.  The driver treats this refusal as fatal, as the
/// environment's define-once discipline demands.
pub proof fn lemma_redefinition_rebinds_nothing(
    es: Seq<ExprV>,
    var: Seq<char>,
    st: StateV,
    fuel: nat,
)
    requires
        es.len() >= 3,
        es[1] == ExprV::Atom(ObjectV::Symbol(var)),
        eval_expr_spec(es[es.len() - 1], st, fuel).res matches Result::Ok(Option::Some(_)),
        eval_expr_spec(es[es.len() - 1], st, fuel).st.env.contains_key(var),
    ensures
        crate::semantics::eval_symbol_head("define"@, es, st, fuel) == (EvalOutV {
            res: Result::Err(EvalErrorV::Redefinition(var)),
            st: eval_expr_spec(es[es.len() - 1], st, fuel).st,
        }),
{
}

/// Calling a user-defined function with the wrong number of arguments is
/// the arity-mismatch error, and changes nothing.
pub proof fn lemma_arity_mismatch(
    params: Seq<ObjectV>,
    body: Seq<ExprV>,
    args: Seq<ObjectV>,
    st: StateV,
    fuel: nat,
)
    requires
        args.len() != params.len(),
    ensures
        apply_spec(crate::data::FunctionV::UserDef(params, body), args, st, fuel) == (EvalOutV {
            res: Result::Err(EvalErrorV::ArityMismatch(params.len(), args.len())),
            st,
        }),
{
}

/// Whether some argument is a float number.
pub open spec fn has_float(args: Seq<ObjectV>) -> bool {
    exists|i: int|
        0 <= i < args.len() && (#[trigger] args[i]) matches ObjectV::Number(NumberV::Float(_))
}

proof fn lemma_fold_float(op: crate::data::Builtin, acc: NumberV, args: Seq<ObjectV>, i: int)
    requires
        1 <= i <= args.len(),
        all_numbers(args),
        acc is Float || exists|j: int|
            i <= j < args.len() && (#[trigger] args[j]) matches ObjectV::Number(
                NumberV::Float(_),
            ),
    ensures
        arith_fold(op, acc, args, i) matches Result::Ok(n) ==> n is Float,
    decreases args.len() - i,
{
    if i < args.len() {
        match crate::semantics::num_step(op, acc, args[i as int]->Number_0) {
            Result::Ok(n2) => {
                if acc is Float || args[i as int]->Number_0 is Float {
                    assert(n2 is Float);
                    lemma_fold_float(op, n2, args, i + 1);
                } else {
                    assert(exists|j: int|
                        i + 1 <= j < args.len() && (#[trigger] args[j]) matches ObjectV::Number(
                            NumberV::Float(_),
                        ));
                    lemma_fold_float(op, n2, args, i + 1);
                }
            },
            Result::Err(_) => {},
        }
    }
}

/// Mixed arithmetic promotes to float: when some argument of a successful
/// arithmetic builtin is a float, the result is a float.
pub proof fn lemma_mixed_arith_promotes(op: crate::data::Builtin, args: Seq<ObjectV>)
    requires
        args.len() > 1,
        all_numbers(args),
        has_float(args),
    ensures
        arith_spec(op, args) matches Result::Ok(v) ==> v matches Option::Some(
            ObjectV::Number(NumberV::Float(_)),
        ),
{
    let i = choose|i: int|
        0 <= i < args.len() && (#[trigger] args[i]) matches ObjectV::Number(NumberV::Float(_));
    if args[0] is Number && args[0]->Number_0 is Float {
        lemma_fold_float(op, args[0]->Number_0, args, 1);
    } else {
        assert(1 <= i < args.len());
        assert(args[i]->Number_0 is Float);
        assert(exists|j: int|
            1 <= j < args.len() && (#[trigger] args[j]) matches ObjectV::Number(
                NumberV::Float(_),
            ));
        lemma_fold_float(op, args[0]->Number_0, args, 1);
    }
}

} // verus!
