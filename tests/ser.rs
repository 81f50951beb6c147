use keyvalues_serde::error::{Error, Shape, TokenContext};
use keyvalues_serde::ser::{to_string, to_string_with_key, to_writer, to_writer_with_key, Serializer};
use keyvalues_serde::text::{signed_text, unsigned_text};
use keyvalues_serde::token::Token;

fn root_struct() -> Serializer {
    let mut ser = Serializer::new();
    ser.serialize_struct("root");
    ser.serialize_field_key("a");
    ser.serialize_i128(1);
    ser.serialize_field_key("b");
    ser.serialize_bool(true);
    ser.end_map();
    ser
}

#[test]
fn struct_name_is_the_root_key() {
    let text = to_string(root_struct()).unwrap();
    assert_eq!(text, "\"root\"\n{\n\t\"a\"\t\"1\"\n\t\"b\"\t\"1\"\n}\n");
}

#[test]
fn explicit_key_for_a_scalar() {
    let mut ser = Serializer::new();
    ser.serialize_i128(42);
    assert_eq!(to_string_with_key(ser, "num").unwrap(), "\"num\"\t\"42\"\n");
}

#[test]
fn explicit_key_replaces_struct_name() {
    let text = to_string_with_key(root_struct(), "other").unwrap();
    assert_eq!(text, "\"other\"\n{\n\t\"a\"\t\"1\"\n\t\"b\"\t\"1\"\n}\n");
}

#[test]
fn explicit_key_for_a_sequence() {
    let mut ser = Serializer::new();
    ser.serialize_seq();
    ser.serialize_str("x");
    ser.serialize_str("y");
    ser.end_seq();
    let text = to_string_with_key(ser, "k").unwrap();
    assert_eq!(text, "\"k\"\n{\n\t\"k\"\t\"x\"\n\t\"k\"\t\"y\"\n}\n");
}

#[test]
fn bare_scalar_without_key_fails() {
    let mut ser = Serializer::new();
    ser.serialize_i128(42);
    assert!(matches!(to_string(ser), Err(Error::InvalidTokenStream(TokenContext::EofWhileParsingVal))));
}

#[test]
fn repeated_field_names_keep_order() {
    let mut ser = Serializer::new();
    ser.serialize_struct("list");
    ser.serialize_field_key("v");
    ser.serialize_seq();
    ser.serialize_bool(true);
    ser.serialize_bool(false);
    ser.serialize_bool(true);
    ser.end_seq();
    ser.end_map();
    let text = to_string(ser).unwrap();
    assert_eq!(text, "\"list\"\n{\n\t\"v\"\t\"1\"\n\t\"v\"\t\"0\"\n\t\"v\"\t\"1\"\n}\n");
}

#[test]
fn nested_sequences_fail_to_encode() {
    let mut ser = Serializer::new();
    ser.serialize_struct("s");
    ser.serialize_field_key("v");
    ser.serialize_seq();
    ser.serialize_seq();
    ser.end_seq();
    ser.end_seq();
    ser.end_map();
    assert!(matches!(to_string(ser), Err(Error::InvalidTokenStream(TokenContext::ExpectedNonSeqVal))));
}

#[test]
fn absent_optional_field_is_left_out() {
    let mut ser = Serializer::new();
    ser.serialize_struct("s");
    ser.serialize_field_key("maybe");
    ser.serialize_none();
    ser.serialize_field_key("c");
    ser.serialize_char('z');
    ser.end_map();
    assert_eq!(to_string(ser).unwrap(), "\"s\"\n{\n\t\"c\"\t\"z\"\n}\n");
}

#[test]
fn unit_variant_is_its_name() {
    let mut ser = Serializer::new();
    ser.serialize_unit_variant("Foo");
    assert_eq!(to_string_with_key(ser, "e").unwrap(), "\"e\"\t\"Foo\"\n");
}

#[test]
fn integer_texts() {
    assert_eq!(signed_text(0), "0");
    assert_eq!(signed_text(-7), "-7");
    assert_eq!(signed_text(1234567890), "1234567890");
    assert_eq!(signed_text(i128::MIN), i128::MIN.to_string());
    assert_eq!(signed_text(i128::MAX), i128::MAX.to_string());
    assert_eq!(unsigned_text(u128::MAX), u128::MAX.to_string());
    assert_eq!(unsigned_text(10), "10");
}

#[test]
fn float_rules() {
    let mut ser = Serializer::new();
    assert!(ser.serialize_float(true, "1.5").is_ok());
    assert!(matches!(ser.serialize_float(false, "inf"), Err(Error::NonFiniteFloat)));
    assert_eq!(ser.tokens().len(), 1);
    assert!(matches!(&ser.tokens()[0], Token::Str(s) if s == "1.5"));
}

#[test]
fn unsupported_shapes() {
    let mut ser = Serializer::new();
    assert!(matches!(ser.serialize_bytes(), Err(Error::Unsupported(Shape::Bytes))));
    assert!(matches!(ser.serialize_unit(), Err(Error::Unsupported(Shape::UnitType))));
    assert!(matches!(ser.serialize_unit_struct(), Err(Error::Unsupported(Shape::UnitStruct))));
    assert!(matches!(ser.serialize_newtype_variant(), Err(Error::Unsupported(Shape::EnumNewtypeVariant))));
    assert!(matches!(ser.serialize_tuple_variant(), Err(Error::Unsupported(Shape::EnumTupleVariant))));
    assert!(matches!(ser.serialize_struct_variant(), Err(Error::Unsupported(Shape::EnumStructVariant))));
    assert_eq!(ser.tokens().len(), 0);
}

#[test]
fn struct_name_only_at_the_start() {
    let mut ser = Serializer::new();
    ser.serialize_seq();
    ser.serialize_struct("inner");
    assert_eq!(ser.tokens().len(), 2);
    assert!(matches!(ser.tokens()[1], Token::ObjBegin));
}

#[test]
fn writer_gets_the_bytes() {
    let mut out: Vec<u8> = b"x".to_vec();
    to_writer(&mut out, root_struct()).unwrap();
    assert_eq!(out, b"x\"root\"\n{\n\t\"a\"\t\"1\"\n\t\"b\"\t\"1\"\n}\n".to_vec());
    let mut ser = Serializer::new();
    ser.serialize_str("\u{e9}");
    let mut out2: Vec<u8> = Vec::new();
    to_writer_with_key(&mut out2, ser, "k").unwrap();
    assert_eq!(String::from_utf8(out2).unwrap(), "\"k\"\t\"\u{e9}\"\n");
}

#[test]
fn writer_untouched_on_failure() {
    let mut out: Vec<u8> = Vec::new();
    let ser = Serializer::new();
    assert!(to_writer(&mut out, ser).is_err());
    assert!(out.is_empty());
}
