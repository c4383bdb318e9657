use gom_decode::{
    CodeClass, DecodeError, ErrorKind, Field, FieldValue, Id, Int, List, Node, NodeObjPair,
    Unexpected,
};
use serde_json::Value;

fn parse(data: &str) -> Value {
    serde_json::from_str(data).unwrap()
}

fn failure(kind: ErrorKind, found: Unexpected, path: &[usize]) -> DecodeError {
    DecodeError { kind, found, path: path.to_vec() }
}

fn node() -> Node {
    Node {
        id: "16141163575704698811".to_string(),
        fqn: "abl.sith_warrior.rage".to_string(),
        path: "/resources/server/abl".to_string(),
        file_name: "rage.node".to_string(),
    }
}

const NODE: &str = r#"{"id":"16141163575704698811","fqn":"abl.sith_warrior.rage",
    "path":"/resources/server/abl","fileName":"rage.node"}"#;

#[test]
fn node_maps_its_four_members() {
    assert_eq!(Ok(node()), Node::deserialize(&parse(NODE)));
    let extra = r#"{"id":"","fqn":"","path":"","fileName":"","more":1}"#;
    let empty = Node {
        id: String::new(),
        fqn: String::new(),
        path: String::new(),
        file_name: String::new(),
    };
    assert_eq!(Ok(empty), Node::deserialize(&parse(extra)));
}

#[test]
fn node_failures() {
    let missing = failure(ErrorKind::MissingKey, Unexpected::Object, &[]);
    for data in [
        r#"{"fqn":"b","path":"c","fileName":"d"}"#,
        r#"{"id":"a","path":"c","fileName":"d"}"#,
        r#"{"id":"a","fqn":"b","fileName":"d"}"#,
        r#"{"id":"a","fqn":"b","path":"c"}"#,
        r#"{"id":"a","fqn":"b","path":"c","file_name":"d"}"#,
    ] {
        assert_eq!(Err(missing.clone()), Node::deserialize(&parse(data)));
    }
    assert_eq!(
        Err(failure(ErrorKind::ShapeMismatch, Unexpected::Signed, &[])),
        Node::deserialize(&parse(r#"{"id":1,"fqn":"b","path":"c","fileName":"d"}"#))
    );
    assert_eq!(
        Err(failure(ErrorKind::ShapeMismatch, Unexpected::Null, &[])),
        Node::deserialize(&parse(r#"{"id":"a","fqn":"b","path":"c","fileName":null}"#))
    );
    assert_eq!(
        Err(failure(ErrorKind::ShapeMismatch, Unexpected::Array, &[])),
        Node::deserialize(&parse(r#"["a","b","c","d"]"#))
    );
}

#[test]
fn field_reads_id_type_and_value() {
    let field = Field::deserialize(&parse(r#"{"id":"123","type":2,"value":-5}"#));
    assert_eq!(Ok(Field { id: "123".to_string(), value: FieldValue::Int(Int(-5)) }), field);
    let field = Field::deserialize(&parse(
        r#"{"id":"4611686061870631196","type":1,
            "value":{"sign":1,"intLo":2807709627,"intHi":3758157504,"len":9}}"#,
    ));
    assert_eq!(
        Ok(Field {
            id: "4611686061870631196".to_string(),
            value: FieldValue::Id(Id(16141163575704698811)),
        }),
        field
    );
}

#[test]
fn field_failures() {
    let decode = |data: &str| Field::deserialize(&parse(data));
    let missing = failure(ErrorKind::MissingKey, Unexpected::Object, &[]);
    assert_eq!(Err(missing.clone()), decode(r#"{"type":2,"value":-5}"#));
    assert_eq!(Err(missing.clone()), decode(r#"{"id":"1","value":-5}"#));
    assert_eq!(Err(missing.clone()), decode(r#"{"id":"1","type":2}"#));
    assert_eq!(
        Err(failure(ErrorKind::ShapeMismatch, Unexpected::Signed, &[])),
        decode(r#"{"id":1,"type":2,"value":-5}"#)
    );
    assert_eq!(
        Err(failure(ErrorKind::ShapeMismatch, Unexpected::Signed, &[])),
        decode(r#"{"id":"1","type":-2,"value":-5}"#)
    );
    assert_eq!(
        Err(failure(ErrorKind::ShapeMismatch, Unexpected::Str, &[])),
        decode(r#"{"id":"1","type":"2","value":-5}"#)
    );
    assert_eq!(
        Err(failure(ErrorKind::ShapeMismatch, Unexpected::Str, &[])),
        decode(r#"{"id":"1","type":2,"value":"-5"}"#)
    );
    assert_eq!(
        Err(failure(ErrorKind::ShapeMismatch, Unexpected::Bool, &[1])),
        decode(r#"{"id":"1","type":7,"value":{"type":2,"list":[1,true]}}"#)
    );
    assert_eq!(
        Err(failure(ErrorKind::ShapeMismatch, Unexpected::Str, &[])),
        decode(r#""field""#)
    );
}

#[test]
fn record_keeps_field_order() {
    let data = format!(
        r#"{{"node":{},"obj":[
            {{"id":"b","type":3,"value":true}},
            {{"id":"a","type":7,"value":{{"type":1,"list":[3,1,2]}}}},
            {{"id":"b","type":44,"value":[null]}}
        ]}}"#,
        NODE
    );
    let expected = NodeObjPair {
        node: node(),
        obj: CodeClass(vec![
            Field { id: "b".to_string(), value: FieldValue::Boolean(true) },
            Field {
                id: "a".to_string(),
                value: FieldValue::List(List(vec![
                    FieldValue::Id(Id(3)),
                    FieldValue::Id(Id(1)),
                    FieldValue::Id(Id(2)),
                ])),
            },
            Field { id: "b".to_string(), value: FieldValue::Other(parse("[null]")) },
        ]),
    };
    assert_eq!(Ok(expected), NodeObjPair::deserialize(&parse(&data)));
}

#[test]
fn record_failures() {
    let missing = failure(ErrorKind::MissingKey, Unexpected::Object, &[]);
    let decode = |data: &str| NodeObjPair::deserialize(&parse(data));
    assert_eq!(Err(missing.clone()), decode(r#"{"obj":[]}"#));
    assert_eq!(Err(missing.clone()), decode(&format!(r#"{{"node":{}}}"#, NODE)));
    assert_eq!(Err(missing.clone()), decode(r#"{"node":{},"obj":[]}"#));
    assert_eq!(
        Err(failure(ErrorKind::ShapeMismatch, Unexpected::Object, &[])),
        decode(&format!(r#"{{"node":{},"obj":{{}}}}"#, NODE))
    );
    assert_eq!(
        Err(failure(ErrorKind::MissingKey, Unexpected::Object, &[1])),
        decode(&format!(
            r#"{{"node":{},"obj":[{{"id":"a","type":3,"value":true}},{{"id":"b","type":3}}]}}"#,
            NODE
        ))
    );
    assert_eq!(
        Err(failure(ErrorKind::IntegerOverflow, Unexpected::Object, &[0, 2])),
        decode(&format!(
            r#"{{"node":{},"obj":[{{"id":"a","type":7,"value":{{"type":2,"list":[
                1,2,{{"sign":1,"intLo":0,"intHi":2147483648,"len":9}}]}}}}]}}"#,
            NODE
        ))
    );
    assert_eq!(
        Err(failure(ErrorKind::ShapeMismatch, Unexpected::Array, &[])),
        decode("[]")
    );
}

#[test]
fn field_list_must_be_an_array() {
    assert_eq!(Ok(CodeClass(vec![])), CodeClass::deserialize(&parse("[]")));
    assert_eq!(
        Err(failure(ErrorKind::ShapeMismatch, Unexpected::Null, &[])),
        CodeClass::deserialize(&parse("null"))
    );
    assert_eq!(
        Err(failure(ErrorKind::ShapeMismatch, Unexpected::Signed, &[0])),
        CodeClass::deserialize(&parse("[7]"))
    );
}

#[test]
fn field_lists_clone_field_by_field() {
    let obj = CodeClass::deserialize(&parse(
        r#"[{"id":"a","type":6,"value":"x"},{"id":"b","type":8,
            "value":{"indexType":2,"type":2,"list":[{"key":1,"val":-1}]}}]"#,
    ))
    .unwrap();
    assert_eq!(obj, obj.clone());
    assert_eq!(obj.0[1], obj.0[1].clone());
    assert_eq!(2, obj.clone().0.len());
}
