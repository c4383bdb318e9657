use gom_decode::json::{
    get_key, unexpected, value_to_array, value_to_number, value_to_string, value_to_u64,
};
use gom_decode::{DecodeError, ErrorKind, Number, Unexpected};
use serde_json::Value;

fn parse(data: &str) -> Value {
    serde_json::from_str(data).unwrap()
}

fn failure(kind: ErrorKind, found: Unexpected) -> DecodeError {
    DecodeError { kind, found, path: vec![] }
}

#[test]
fn shapes_are_told_apart() {
    assert_eq!(Unexpected::Null, unexpected(&parse("null")));
    assert_eq!(Unexpected::Bool, unexpected(&parse("false")));
    assert_eq!(Unexpected::Signed, unexpected(&parse("0")));
    assert_eq!(Unexpected::Signed, unexpected(&parse("-7")));
    assert_eq!(Unexpected::Signed, unexpected(&parse("9223372036854775807")));
    assert_eq!(Unexpected::Unsigned, unexpected(&parse("9223372036854775808")));
    assert_eq!(Unexpected::Unsigned, unexpected(&parse("18446744073709551615")));
    assert_eq!(Unexpected::Float, unexpected(&parse("0.5")));
    assert_eq!(Unexpected::Float, unexpected(&parse("1e3")));
    assert_eq!(Unexpected::Float, unexpected(&parse("18446744073709551616")));
    assert_eq!(Unexpected::Str, unexpected(&parse(r#""7""#)));
    assert_eq!(Unexpected::Array, unexpected(&parse("[7]")));
    assert_eq!(Unexpected::Object, unexpected(&parse(r#"{"7":7}"#)));
}

#[test]
fn numbers_keep_their_class() {
    assert_eq!(Some(Number::PosInt(0)), value_to_number(&parse("0")));
    assert_eq!(Some(Number::PosInt(u64::MAX)), value_to_number(&parse("18446744073709551615")));
    assert_eq!(Some(Number::NegInt(-1)), value_to_number(&parse("-1")));
    assert_eq!(Some(Number::NegInt(i64::MIN)), value_to_number(&parse("-9223372036854775808")));
    assert_eq!(Some(Number::Float(0x3fe0_0000_0000_0000)), value_to_number(&parse("0.5")));
    assert_eq!(Some(Number::Float(0xc004_0000_0000_0000)), value_to_number(&parse("-2.5")));
    assert_eq!(Some(Number::Float(0)), value_to_number(&parse("0.0")));
    assert_eq!(Some(Number::Float(1 << 63)), value_to_number(&parse("-0.0")));
    assert_eq!(Some(Number::Float(270f64.to_bits())), value_to_number(&parse("270.0")));
    assert_eq!(None, value_to_number(&parse(r#""1""#)));
    assert_eq!(None, value_to_number(&parse("null")));
    assert_eq!(None, value_to_number(&parse("[1]")));
}

#[test]
fn required_key_of_an_object() {
    let value = parse(r#"{"a":{"b":1},"c":null}"#);
    assert_eq!(Ok(&parse(r#"{"b":1}"#)), get_key(&value, "a"));
    assert_eq!(Ok(&Value::Null), get_key(&value, "c"));
    assert_eq!(Err(failure(ErrorKind::MissingKey, Unexpected::Object)), get_key(&value, "b"));
    assert_eq!(Err(failure(ErrorKind::MissingKey, Unexpected::Object)), get_key(&value, ""));
    assert_eq!(
        Err(failure(ErrorKind::ShapeMismatch, Unexpected::Array)),
        get_key(&parse(r#"["a"]"#), "a")
    );
    assert_eq!(
        Err(failure(ErrorKind::ShapeMismatch, Unexpected::Str)),
        get_key(&parse(r#""a""#), "a")
    );
}

#[test]
fn required_unsigned_member() {
    let value = parse(r#"{"a":7,"b":-7,"c":7.0,"d":"7","e":18446744073709551615}"#);
    assert_eq!(Ok(7), value_to_u64(&value, "a"));
    assert_eq!(Ok(u64::MAX), value_to_u64(&value, "e"));
    assert_eq!(
        Err(failure(ErrorKind::ShapeMismatch, Unexpected::Signed)),
        value_to_u64(&value, "b")
    );
    assert_eq!(
        Err(failure(ErrorKind::ShapeMismatch, Unexpected::Float)),
        value_to_u64(&value, "c")
    );
    assert_eq!(Err(failure(ErrorKind::ShapeMismatch, Unexpected::Str)), value_to_u64(&value, "d"));
    assert_eq!(
        Err(failure(ErrorKind::MissingKey, Unexpected::Object)),
        value_to_u64(&value, "f")
    );
}

#[test]
fn required_array_member() {
    let value = parse(r#"{"a":[1,"x"],"b":{},"c":[]}"#);
    assert_eq!(Ok(&vec![parse("1"), parse(r#""x""#)]), value_to_array(&value, "a"));
    assert_eq!(Ok(&vec![]), value_to_array(&value, "c"));
    assert_eq!(
        Err(failure(ErrorKind::ShapeMismatch, Unexpected::Object)),
        value_to_array(&value, "b")
    );
    assert_eq!(
        Err(failure(ErrorKind::MissingKey, Unexpected::Object)),
        value_to_array(&value, "d")
    );
}

#[test]
fn required_string_member() {
    let value = parse(r#"{"a":"text","b":1,"c":""}"#);
    assert_eq!(Ok("text".to_string()), value_to_string(&value, "a"));
    assert_eq!(Ok(String::new()), value_to_string(&value, "c"));
    assert_eq!(
        Err(failure(ErrorKind::ShapeMismatch, Unexpected::Signed)),
        value_to_string(&value, "b")
    );
    assert_eq!(
        Err(failure(ErrorKind::MissingKey, Unexpected::Object)),
        value_to_string(&value, "d")
    );
}

#[test]
fn error_positions_run_outermost_first() {
    let inner = DecodeError::new(ErrorKind::IntegerOverflow, Unexpected::Object);
    assert_eq!(Vec::<usize>::new(), inner.path);
    let outer = inner.within(4).within(0).within(17);
    assert_eq!(vec![17, 0, 4], outer.path);
    assert_eq!(ErrorKind::IntegerOverflow, outer.kind);
    assert_eq!(Unexpected::Object, outer.found);
}

#[test]
fn every_kind_has_its_sentence() {
    assert_eq!("BigInt was negative", ErrorKind::NegativeIdentifier.message());
    assert_eq!("BigInt overflowed", ErrorKind::IntegerOverflow.message());
    assert_eq!("object lacks a required key", ErrorKind::MissingKey.message());
    assert_eq!(
        "value does not have the shape its type asks for",
        ErrorKind::ShapeMismatch.message()
    );
}
