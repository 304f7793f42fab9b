use rlisp::data::Boolean;
use rlisp::data::Expr;
use rlisp::data::Number;
use rlisp::data::Object;
use rlisp::parser::ParseError;
use rlisp::parser::count_parens;
use rlisp::parser::lines_to_spaces;
use rlisp::parser::parse;
use rlisp::parser::tokenize;

fn parse_str(src: &str) -> Result<Vec<Expr>, ParseError> {
    parse(&String::from(src))
}

#[test]
fn tokenize_pads_delimiters() {
    let toks = tokenize(&String::from("(+ 1 2)"));
    let texts: Vec<&str> = toks.iter().map(|t| t.as_str()).collect();
    assert_eq!(texts, vec!["(", " ", "+", " ", "1", " ", "2", " ", ")", " "]);
}

#[test]
fn lines_become_spaces() {
    assert_eq!(lines_to_spaces(&String::from("a\r\nb\nc")).as_str(), "a b c");
}

#[test]
fn count_parens_counts() {
    let r = count_parens(&String::from("((a) b) ("));
    assert_eq!(r, (3, 2));
}

#[test]
fn parse_integer_atom() {
    let es = parse_str("42").unwrap();
    assert_eq!(es.len(), 1);
    assert!(matches!(&es[0], Expr::Expr(Object::Number(Number::Int(42)))));
}

#[test]
fn parse_negative_integer() {
    let es = parse_str("-7").unwrap();
    assert!(matches!(&es[0], Expr::Expr(Object::Number(Number::Int(-7)))));
}

#[test]
fn parse_float_keeps_text() {
    let es = parse_str("1.50").unwrap();
    match &es[0] {
        Expr::Expr(Object::Number(Number::Float(t))) => assert_eq!(t.as_str(), "1.50"),
        other => panic!("expected a float atom, got {:?}", other),
    }
}

#[test]
fn dot_without_float_shape_is_symbol() {
    let es = parse_str("a.b").unwrap();
    assert!(matches!(&es[0], Expr::Expr(Object::Symbol(s)) if s == "a.b"));
}

#[test]
fn parse_booleans() {
    let es = parse_str("true false").unwrap();
    assert!(matches!(&es[0], Expr::Expr(Object::Boolean(Boolean::True))));
    assert!(matches!(&es[1], Expr::Expr(Object::Boolean(Boolean::False))));
}

#[test]
fn parse_string_with_spaces() {
    let es = parse_str("\"a b\"").unwrap();
    match &es[0] {
        Expr::Expr(Object::Str(s)) => assert_eq!(s.as_str(), "a b"),
        other => panic!("expected a string atom, got {:?}", other),
    }
}

#[test]
fn parse_empty_string() {
    let es = parse_str("\"\"").unwrap();
    assert!(matches!(&es[0], Expr::Expr(Object::Str(s)) if s.is_empty()));
}

#[test]
fn parse_compound() {
    let es = parse_str("(+ 1 2)").unwrap();
    match &es[0] {
        Expr::Exprs(items) => {
            assert_eq!(items.len(), 3);
            assert!(matches!(&items[0], Expr::Expr(Object::Symbol(s)) if s == "+"));
        },
        other => panic!("expected a compound, got {:?}", other),
    }
}

#[test]
fn parse_conditional_case() {
    let es = parse_str("[ true 1 ]").unwrap();
    match &es[0] {
        Expr::Expr(Object::ConditionalCase(cond, body)) => {
            assert!(matches!(&**cond, Expr::Expr(Object::Boolean(Boolean::True))));
            assert_eq!(body.len(), 1);
        },
        other => panic!("expected a conditional case, got {:?}", other),
    }
}

#[test]
fn unmatched_parens_is_reported_before_tokenizing() {
    assert!(matches!(parse_str("(a"), Err(ParseError::UnmatchedParens)));
}

#[test]
fn unexpected_close_delimiter() {
    assert!(matches!(parse_str("() )("), Err(ParseError::UnexpectedCloseDelimiter)));
}

#[test]
fn unterminated_string() {
    assert!(matches!(parse_str("\"abc"), Err(ParseError::UnterminatedString)));
}

#[test]
fn conditional_needs_condition_and_body() {
    assert!(matches!(parse_str("[ x ]"), Err(ParseError::EmptyOrMalformedConditional)));
}

#[test]
fn bracket_stream_exhausted() {
    assert!(matches!(parse_str("[ 1 2"), Err(ParseError::NoTokensToParse)));
}

#[test]
fn empty_input_parses_to_nothing() {
    let es = parse_str("   \n ").unwrap();
    assert!(es.is_empty());
}

#[test]
fn two_top_level_forms() {
    let es = parse_str("1 2").unwrap();
    assert_eq!(es.len(), 2);
}

#[test]
fn int_overflow_becomes_symbol() {
    let es = parse_str("9223372036854775808").unwrap();
    assert!(matches!(&es[0], Expr::Expr(Object::Symbol(_))));
    let es2 = parse_str("9223372036854775807").unwrap();
    assert!(matches!(&es2[0], Expr::Expr(Object::Number(Number::Int(9223372036854775807)))));
}
