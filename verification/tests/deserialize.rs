use gom_decode::{DecodeError, ErrorKind, FieldValue, Id, Int, List, LookupList, Number};
use serde_json::{Error, Value};

fn decode(data: &str) -> Result<Result<FieldValue, DecodeError>, Error> {
    let value: Value = serde_json::from_str(data)?;
    Ok(FieldValue::deserialize(&value))
}

fn single(number: Number) -> f32 {
    match number {
        Number::PosInt(n) => n as f32,
        Number::NegInt(n) => n as f32,
        Number::Float(bits) => f64::from_bits(bits) as f32,
    }
}

fn decode_float(data: &str) -> Result<f32, Error> {
    match decode(data)? {
        Ok(FieldValue::Float(number)) => Ok(single(number)),
        other => panic!("not a float: {:?}", other),
    }
}

#[test]
fn deserialize_id() -> Result<(), Error> {
    let data = r#"{"id":"123","type":1,"value":0}"#;
    let expected = FieldValue::Id(Id(0));
    assert_eq!(Ok(expected), decode(data)?);

    let data = r#"{"id":"123","type":1,"value":{"sign":1,"intLo":0,"intHi":0,"len":1}}"#;
    let expected = FieldValue::Id(Id(0));
    assert_eq!(Ok(expected), decode(data)?);

    let data = r#"{"id":"123","type":1,"value":1000}"#;
    let expected = FieldValue::Id(Id(1000));
    assert_eq!(Ok(expected), decode(data)?);

    let data = r#"{"id":"123","type":1,"value":{"sign":1,"intLo":30,"intHi":0,"len":1}}"#;
    let expected = FieldValue::Id(Id(30));
    assert_eq!(Ok(expected), decode(data)?);

    let data = r#"{"id":"4611686061870631196","type":1,"value":{"sign":1,"intLo":2807709627,"intHi":3758157504,"len":9}}"#;
    let expected = FieldValue::Id(Id(16141163575704698811));
    assert_eq!(Ok(expected), decode(data)?);

    // Negative
    let data = r#"{"id":"123","type":1,"value":-1000}"#;
    assert!(decode(data)?.is_err());

    let data = r#"{"id":"123","type":1,"value":{"sign":-1,"intLo":30,"intHi":0,"len":1}}"#;
    assert!(decode(data)?.is_err());

    Ok(())
}

#[test]
fn deserialize_int() -> Result<(), Error> {
    let data = r#"{"id":"123","type":2,"value":0}"#;
    let expected = FieldValue::Int(Int(0));
    assert_eq!(Ok(expected), decode(data)?);

    let data = r#"{"id":"123","type":2,"value":{"sign":1,"intLo":0,"intHi":0,"len":1}}"#;
    let expected = FieldValue::Int(Int(0));
    assert_eq!(Ok(expected), decode(data)?);

    let data = r#"{"id":"123","type":2,"value":1000}"#;
    let expected = FieldValue::Int(Int(1000));
    assert_eq!(Ok(expected), decode(data)?);

    let data = r#"{"id":"123","type":2,"value":{"sign":1,"intLo":30,"intHi":0,"len":1}}"#;
    let expected = FieldValue::Int(Int(30));
    assert_eq!(Ok(expected), decode(data)?);

    let data = r#"{"id":"123","type":2,"value":-1000}"#;
    let expected = FieldValue::Int(Int(-1000));
    assert_eq!(Ok(expected), decode(data)?);

    let data = r#"{"id":"123","type":2,"value":{"sign":-1,"intLo":30,"intHi":0,"len":1}}"#;
    let expected = FieldValue::Int(Int(-30));
    assert_eq!(Ok(expected), decode(data)?);

    // Overflow
    let data = r#"{"id":"4611686061870631196","type":2,"value":{"sign":1,"intLo":2807709627,"intHi":3758157504,"len":9}}"#;
    assert!(decode(data)?.is_err());

    Ok(())
}

#[test]
fn deserialize_bool() -> Result<(), Error> {
    let data = r#"{"id":"123","type":3,"value":true}"#;
    let expected = FieldValue::Boolean(true);
    assert_eq!(Ok(expected), decode(data)?);

    let data = r#"{"id":"123","type":3,"value":false}"#;
    let expected = FieldValue::Boolean(false);
    assert_eq!(Ok(expected), decode(data)?);

    Ok(())
}

#[test]
fn deserialize_float() -> Result<(), Error> {
    let data = r#"{"id":"123","type":4,"value":-1}"#;
    assert_eq!(-1f32, decode_float(data)?);

    let data = r#"{"id":"123","type":4,"value":0}"#;
    assert_eq!(0f32, decode_float(data)?);

    let data = r#"{"id":"123","type":4,"value":270}"#;
    assert_eq!(270f32, decode_float(data)?);

    let data = r#"{"id":"4611686019453829664","type":4,"value":0.4000000059604645}"#;
    assert_eq!(0.4f32, decode_float(data)?);

    Ok(())
}

#[test]
fn deserialize_string() -> Result<(), Error> {
    let data = r#"{"id":"4611686019453829629","type":6,"value": "viciousslash"}"#;
    let expected = FieldValue::String("viciousslash".to_string());
    assert_eq!(Ok(expected), decode(data)?);

    Ok(())
}

#[test]
fn deserialize_list() -> Result<(), Error> {
    let data = r#"{
      "id": "4611686061870631192",
      "type": 7,
      "value": {
        "type": 1,
        "list": [
          {
            "sign": 1,
            "intLo": 2385807014,
            "intHi": 3758149514,
            "len": 9
          },
          {
            "sign": 1,
            "intLo": 2385806453,
            "intHi": 3758149258,
            "len": 9
          },
          {
            "sign": 1,
            "intLo": 2385808156,
            "intHi": 3758150026,
            "len": 9
          }
        ]
      }
    }"#;
    let expected = FieldValue::List(List(vec![
        FieldValue::Id(Id(16141129258494101158)),
        FieldValue::Id(Id(16141128158982472821)),
        FieldValue::Id(Id(16141131457517357852)),
    ]));
    assert_eq!(Ok(expected), decode(data)?);

    Ok(())
}

#[test]
fn deserialize_lookuplist() -> Result<(), Error> {
    let data = r#"{
        "id": "4611686310422994002",
        "type": 8,
        "value": {
            "indexType": 1,
            "type": 2,
            "list": [
            {
                "key": {
                    "sign": 1,
                    "intLo": 1195329202,
                    "intHi": 3758117139,
                    "len": 9
                },
                "val": {
                    "sign": -1,
                    "intLo": 2873223640,
                    "intHi": 695039895,
                    "len": 9
                }
            }
            ]
        }
    }"#;
    let expected = FieldValue::LookupList(LookupList(vec![(
        FieldValue::Id(Id(16140990207737415346)),
        FieldValue::Int(Int(-2985173621313497560)),
    )]));
    assert_eq!(Ok(expected), decode(data)?);

    Ok(())
}

#[test]
fn negative_identifier_kind() -> Result<(), Error> {
    let data = r#"{"id":"123","type":1,"value":{"sign":-1,"intLo":30,"intHi":0,"len":1}}"#;
    let error = decode(data)?.unwrap_err();
    assert_eq!(ErrorKind::NegativeIdentifier, error.kind);
    Ok(())
}
