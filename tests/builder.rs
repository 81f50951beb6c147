use keyvalues_serde::builder::build;
use keyvalues_serde::error::{Error, TokenContext};
use keyvalues_serde::flatten::flatten;
use keyvalues_serde::render::render;
use keyvalues_serde::token::Token;
use keyvalues_serde::value::{Value, Vdf};

fn s(x: &str) -> Token {
    Token::Str(x.to_string())
}

fn scalar(v: &Value) -> &str {
    match v {
        Value::Str(s) => s.as_str(),
        Value::Obj(_) => panic!("expected a scalar"),
    }
}

fn entries(v: &Value) -> &Vec<(String, Value)> {
    match v {
        Value::Obj(es) => es,
        Value::Str(_) => panic!("expected a group"),
    }
}

fn context(r: Result<Vdf, Error>) -> TokenContext {
    match r {
        Err(Error::InvalidTokenStream(c)) => c,
        other => panic!("expected a structural error, got {:?}", other),
    }
}

#[test]
fn sequence_expands_to_repeated_keys() {
    let vdf = build(&vec![s("k"), Token::SeqBegin, s("x"), s("y"), Token::SeqEnd]).unwrap();
    assert_eq!(vdf.key, "k");
    let es = entries(&vdf.value);
    assert_eq!(es.len(), 2);
    assert_eq!(es[0].0, "k");
    assert_eq!(scalar(&es[0].1), "x");
    assert_eq!(es[1].0, "k");
    assert_eq!(scalar(&es[1].1), "y");
}

#[test]
fn nested_sequence_is_rejected() {
    let r = build(&vec![s("k"), Token::SeqBegin, Token::SeqBegin, Token::SeqEnd, Token::SeqEnd]);
    assert_eq!(context(r), TokenContext::ExpectedNonSeqVal);
}

#[test]
fn missing_value_at_end() {
    assert_eq!(context(build(&vec![s("k")])), TokenContext::EofWhileParsingVal);
}

#[test]
fn trailing_tokens_after_document() {
    let r = build(&vec![s("k"), s("v"), s("extra")]);
    assert_eq!(context(r), TokenContext::TrailingTokens);
}

#[test]
fn empty_stream_needs_a_key() {
    assert_eq!(context(build(&vec![])), TokenContext::EofWhileParsingKey);
}

#[test]
fn unclosed_sequence() {
    let r = build(&vec![s("k"), Token::SeqBegin, s("x")]);
    assert_eq!(context(r), TokenContext::EofWhileParsingSeq);
}

#[test]
fn unclosed_group() {
    let r = build(&vec![s("k"), Token::ObjBegin, s("a"), s("b")]);
    assert_eq!(context(r), TokenContext::EofWhileParsingObj);
}

#[test]
fn group_where_key_expected() {
    assert_eq!(context(build(&vec![Token::ObjBegin, Token::ObjEnd])), TokenContext::ExpectedSomeVal);
    let r = build(&vec![s("k"), Token::ObjBegin, Token::SeqBegin]);
    assert_eq!(context(r), TokenContext::ExpectedSomeVal);
}

#[test]
fn root_value_cannot_be_absent() {
    assert_eq!(context(build(&vec![s("k"), Token::Null])), TokenContext::ExpectedSomeVal);
}

#[test]
fn absent_field_is_dropped() {
    let t = vec![s("k"), Token::ObjBegin, s("a"), Token::Null, s("b"), s("2"), Token::ObjEnd];
    let vdf = build(&t).unwrap();
    let es = entries(&vdf.value);
    assert_eq!(es.len(), 1);
    assert_eq!(es[0].0, "b");
    assert_eq!(scalar(&es[0].1), "2");
}

#[test]
fn groups_inside_a_sequence() {
    let t = vec![
        s("root"),
        Token::ObjBegin,
        s("item"),
        Token::SeqBegin,
        Token::ObjBegin,
        s("n"),
        s("1"),
        Token::ObjEnd,
        Token::Null,
        s("plain"),
        Token::SeqEnd,
        s("last"),
        s("z"),
        Token::ObjEnd,
    ];
    let vdf = build(&t).unwrap();
    let es = entries(&vdf.value);
    assert_eq!(es.len(), 3);
    assert_eq!(es[0].0, "item");
    assert_eq!(scalar(&entries(&es[0].1)[0].1), "1");
    assert_eq!(es[1].0, "item");
    assert_eq!(scalar(&es[1].1), "plain");
    assert_eq!(es[2].0, "last");
}

#[test]
fn build_twice_gives_the_same_document() {
    let t = vec![s("k"), Token::ObjBegin, s("a"), s("1"), s("a"), s("2"), Token::ObjEnd];
    let a = render(&build(&t).unwrap());
    let b = render(&build(&t).unwrap());
    assert_eq!(a, b);
    assert_eq!(context(build(&vec![s("k")])), context(build(&vec![s("k")])));
}

#[test]
fn flatten_then_build_round_trips() {
    let t = vec![
        s("root"),
        Token::ObjBegin,
        s("a"),
        s("1"),
        s("a"),
        s("2"),
        s("sub"),
        Token::ObjBegin,
        s("x"),
        s("y"),
        Token::ObjEnd,
        Token::ObjEnd,
    ];
    let vdf = build(&t).unwrap();
    let flat = flatten(&vdf);
    assert_eq!(flat.len(), t.len());
    let again = build(&flat).unwrap();
    assert_eq!(render(&again), render(&vdf));
    let es = entries(&again.value);
    assert_eq!(es.len(), 3);
    assert_eq!((es[0].0.as_str(), scalar(&es[0].1)), ("a", "1"));
    assert_eq!((es[1].0.as_str(), scalar(&es[1].1)), ("a", "2"));
}

#[test]
fn flatten_emits_no_sequence_tokens() {
    let vdf = build(&vec![s("k"), Token::SeqBegin, s("x"), s("y"), Token::SeqEnd]).unwrap();
    let flat = flatten(&vdf);
    assert!(flat.iter().all(|t| !matches!(t, Token::SeqBegin | Token::SeqEnd | Token::Null)));
    assert_eq!(flat.len(), 7);
}

#[test]
fn render_nested_document() {
    let t = vec![
        s("root"),
        Token::ObjBegin,
        s("a"),
        s("1"),
        s("sub"),
        Token::ObjBegin,
        s("b"),
        s("2"),
        Token::ObjEnd,
        Token::ObjEnd,
    ];
    let text = render(&build(&t).unwrap());
    assert_eq!(text, "\"root\"\n{\n\t\"a\"\t\"1\"\n\t\"sub\"\n\t{\n\t\t\"b\"\t\"2\"\n\t}\n}\n");
}

#[test]
fn render_escapes_special_characters() {
    let text = render(&build(&vec![s("k\"q"), s("a\\b\nc\td\re")]).unwrap());
    assert_eq!(text, "\"k\\\"q\"\t\"a\\\\b\\nc\\td\\re\"\n");
}

#[test]
fn context_messages() {
    assert_eq!(TokenContext::EofWhileParsingKey.message(), "Token stream ended when needed key");
    assert_eq!(TokenContext::TrailingTokens.message(), "Trailing tokens after finishing conversion");
}

#[test]
fn lookup_by_key() {
    let t = vec![
        s("k"),
        Token::ObjBegin,
        s("v"),
        Token::SeqBegin,
        s("1"),
        s("2"),
        s("3"),
        Token::SeqEnd,
        s("w"),
        s("x"),
        Token::ObjEnd,
    ];
    let vdf = build(&t).unwrap();
    let all = vdf.value.get_all(&"v".to_string());
    let texts: Vec<&str> = all.iter().map(|v| scalar(v)).collect();
    assert_eq!(texts, vec!["1", "2", "3"]);
    assert_eq!(scalar(vdf.value.get(&"v".to_string()).unwrap()), "1");
    assert_eq!(scalar(vdf.value.get(&"w".to_string()).unwrap()), "x");
    assert!(vdf.value.get(&"missing".to_string()).is_none());
    assert!(vdf.value.get_all(&"missing".to_string()).is_empty());
    let leaf = Value::Str("s".to_string());
    assert!(leaf.get(&"s".to_string()).is_none());
}
