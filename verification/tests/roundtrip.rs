use rlisp::data::Expr;
use rlisp::data::Object;
use rlisp::data::obj_eq;
use rlisp::parser::parse;
use rlisp::text::to_text;

fn parse_one(src: &str) -> Object {
    let es = parse(&String::from(src)).expect("the text should parse");
    assert_eq!(es.len(), 1, "expected one top-level form");
    match es.into_iter().next().unwrap() {
        Expr::Expr(o) => o,
        other => panic!("expected an atom, got {:?}", other),
    }
}

fn roundtrips(src: &str) {
    let v = parse_one(src);
    let printed = to_text(&v);
    let w = parse_one(printed.as_str());
    assert!(obj_eq(&v, &w), "{:?} reparsed as {:?}", v, w);
}

#[test]
fn integer_roundtrip() {
    roundtrips("42");
    roundtrips("-42");
    roundtrips("0");
    roundtrips("-9223372036854775808");
    roundtrips("007");
}

#[test]
fn float_roundtrip_keeps_the_literal() {
    roundtrips("1.50");
    roundtrips("-0.25");
    roundtrips(".5");
    roundtrips("2.");
    roundtrips("6.02e23");
}

#[test]
fn boolean_roundtrip() {
    roundtrips("true");
    roundtrips("false");
}

#[test]
fn symbol_roundtrip() {
    roundtrips("hello");
    roundtrips("+");
    roundtrips("a.b.c");
}

#[test]
fn string_roundtrip() {
    roundtrips("\"hello\"");
    roundtrips("\"a b\"");
    roundtrips("\"\"");
}

#[test]
fn printed_forms() {
    assert_eq!(to_text(&parse_one("42")).as_str(), "42");
    assert_eq!(to_text(&parse_one("1.50")).as_str(), "1.50");
    assert_eq!(to_text(&parse_one("\"a b\"")).as_str(), "\"a b\"");
    assert_eq!(to_text(&parse_one("true")).as_str(), "true");
    assert_eq!(to_text(&parse_one("sym")).as_str(), "sym");
}

#[test]
fn string_with_bracket_tokens_roundtrips() {
    roundtrips("\"a [ b ]\"");
    roundtrips("\"[ x\"");
}

#[test]
fn string_with_balanced_parens_roundtrips() {
    roundtrips("\"( a )\"");
    roundtrips("\") (\"");
}

#[test]
fn string_with_unbalanced_parens_does_not_reparse_alone() {
    // parsed from a balancing program, printed, the lone text fails the
    // parenthesis pre-check
    let es = parse(&String::from("\"(\" \")\"")).expect("balanced program");
    let printed = to_text(match &es[0] {
        Expr::Expr(o) => o,
        other => panic!("expected an atom, got {:?}", other),
    });
    assert!(parse(&printed).is_err());
}
