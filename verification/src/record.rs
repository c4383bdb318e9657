//! Node records: identifying metadata and an ordered list of fields.

use vstd::prelude::*;
use serde_json::Value;
use crate::error::{DecodeError, ErrorKind, ErrorModel};
use crate::field::{decode, deserialize_with_type, FieldModel, FieldValue};
use crate::json::{
    fail, get_key, json_of, jsons_of, member, member_str, member_u64, mismatch, value_to_string,
    value_to_u64, Json,
};

verus! {

/// The metadata that identifies one exported game object.
#[derive(Debug, PartialEq, Eq)]
pub struct Node {
    pub id: String,
    pub fqn: String,
    pub path: String,
    pub file_name: String,
}

/// One field of a game object: its id and its decoded value.
#[derive(Debug, PartialEq)]
pub struct Field {
    pub id: String,
    pub value: FieldValue,
}

/// The fields of a game object, in the order of the export.
#[derive(Debug, PartialEq)]
pub struct CodeClass(pub Vec<Field>);

/// One decoded record: a node and its fields.
#[derive(Debug, PartialEq)]
pub struct NodeObjPair {
    pub node: Node,
    pub obj: CodeClass,
}

/// The mathematical content of a [`Node`].
pub struct NodeModel {
    pub id: Seq<char>,
    pub fqn: Seq<char>,
    pub path: Seq<char>,
    pub file_name: Seq<char>,
}

/// The mathematical content of a [`Field`].
pub struct FieldEntry {
    pub id: Seq<char>,
    pub value: FieldModel,
}

/// The mathematical content of a [`NodeObjPair`].
pub struct RecordModel {
    pub node: NodeModel,
    pub obj: Seq<FieldEntry>,
}

impl View for Node {
    type V = NodeModel;

    open spec fn view(&self) -> NodeModel {
        NodeModel { id: self.id@, fqn: self.fqn@, path: self.path@, file_name: self.file_name@ }
    }
}

impl View for Field {
    type V = FieldEntry;

    open spec fn view(&self) -> FieldEntry {
        FieldEntry { id: self.id@, value: self.value@ }
    }
}

impl View for CodeClass {
    type V = Seq<FieldEntry>;

    open spec fn view(&self) -> Seq<FieldEntry> {
        self.0@.map_values(|f: Field| f@)
    }
}

impl View for NodeObjPair {
    type V = RecordModel;

    open spec fn view(&self) -> RecordModel {
        RecordModel { node: self.node@, obj: self.obj@ }
    }
}

impl Clone for Field {
    fn clone(&self) -> (r: Field)
        ensures
            r@ == self@,
    {
        Field { id: self.id.clone(), value: self.value.clone() }
    }
}

impl Clone for CodeClass {
    fn clone(&self) -> (r: CodeClass)
        ensures
            r@ == self@,
    {
        let mut fields: Vec<Field> = Vec::new();
        let mut i: usize = 0;
        while i < self.0.len()
            invariant
                i <= self.0.len(),
                CodeClass(fields)@ =~= self@.take(i as int),
            decreases self.0.len() - i,
        {
            let ghost before = CodeClass(fields)@;
            let field = self.0[i].clone();
            fields.push(field);
            assert(CodeClass(fields)@ =~= before.push(field@));
            assert(self@.take(i + 1) =~= self@.take(i as int).push(self.0@[i as int]@));
            i += 1;
        }
        assert(self@.take(i as int) =~= self@);
        CodeClass(fields)
    }
}

/// What decoding the node object `j` gives. The members are read in the
/// order id, fqn, path, fileName; each must be present and a string.
pub open spec fn decode_node(j: Json) -> Result<NodeModel, ErrorModel> {
    match member_str(j, "id"@) {
        Ok(id) => match member_str(j, "fqn"@) {
            Ok(fqn) => match member_str(j, "path"@) {
                Ok(path) => match member_str(j, "fileName"@) {
                    Ok(file_name) => Ok(NodeModel { id, fqn, path, file_name }),
                    Err(e) => Err(e),
                },
                Err(e) => Err(e),
            },
            Err(e) => Err(e),
        },
        Err(e) => Err(e),
    }
}

/// What decoding the field object `j` gives: its `id`, and its `value`
/// decoded under its `type`.
pub open spec fn decode_field(j: Json) -> Result<FieldEntry, ErrorModel> {
    match member_str(j, "id"@) {
        Ok(id) => match member_u64(j, "type"@) {
            Ok(code) => match member(j, "value"@) {
                Ok(value) => match decode(value, code) {
                    Ok(value) => Ok(FieldEntry { id, value }),
                    Err(e) => Err(e),
                },
                Err(e) => Err(e),
            },
            Err(e) => Err(e),
        },
        Err(e) => Err(e),
    }
}

/// What decoding the first `n` of `items` as fields gives: the fields in
/// order, or the failure of the first field that fails, marked with that
/// field's position.
pub open spec fn decode_fields(items: Seq<Json>, n: int) -> Result<Seq<FieldEntry>, ErrorModel>
    decreases n,
{
    if n <= 0 || n > items.len() {
        Ok(Seq::empty())
    } else {
        match decode_fields(items, n - 1) {
            Ok(front) => match decode_field(items[n - 1]) {
                Ok(field) => Ok(front.push(field)),
                Err(e) => Err(e.within((n - 1) as usize)),
            },
            Err(e) => Err(e),
        }
    }
}

/// What decoding `j` as the field list of an object gives. It must be an
/// array.
pub open spec fn decode_code_class(j: Json) -> Result<Seq<FieldEntry>, ErrorModel> {
    match j {
        Json::Array(items) => decode_fields(items, items.len() as int),
        _ => Err(mismatch(j)),
    }
}

/// What decoding the record object `j` gives: its `node`, then its `obj`.
pub open spec fn decode_record(j: Json) -> Result<RecordModel, ErrorModel> {
    match member(j, "node"@) {
        Ok(node) => match decode_node(node) {
            Ok(node) => match member(j, "obj"@) {
                Ok(obj) => match decode_code_class(obj) {
                    Ok(obj) => Ok(RecordModel { node, obj }),
                    Err(e) => Err(e),
                },
                Err(e) => Err(e),
            },
            Err(e) => Err(e),
        },
        Err(e) => Err(e),
    }
}

/// Once a field has failed, decoding more fields reports the same failure.
pub proof fn lemma_fields_failure_stays(items: Seq<Json>, k: int, n: int)
    requires
        0 <= k <= n <= items.len(),
        decode_fields(items, k) is Err,
    ensures
        decode_fields(items, n) == decode_fields(items, k),
    decreases n - k,
{
    if k < n {
        lemma_fields_failure_stays(items, k, n - 1);
    }
}

impl Node {
    /// Decodes the metadata of a node.
    pub fn deserialize(value: &Value) -> (r: Result<Node, DecodeError>)
        ensures
            match r {
                Ok(node) => decode_node(json_of(*value)) == Ok::<NodeModel, ErrorModel>(node@),
                Err(e) => decode_node(json_of(*value)) == Err::<NodeModel, ErrorModel>(e@),
            },
    {
        let id = value_to_string(value, "id")?;
        let fqn = value_to_string(value, "fqn")?;
        let path = value_to_string(value, "path")?;
        let file_name = value_to_string(value, "fileName")?;
        Ok(Node { id, fqn, path, file_name })
    }
}

impl Field {
    /// Decodes one field object.
    pub fn deserialize(value: &Value) -> (r: Result<Field, DecodeError>)
        ensures
            match r {
                Ok(field) => decode_field(json_of(*value)) == Ok::<FieldEntry, ErrorModel>(field@),
                Err(e) => decode_field(json_of(*value)) == Err::<FieldEntry, ErrorModel>(e@),
            },
    {
        let id = value_to_string(value, "id")?;
        let value_type = value_to_u64(value, "type")?;
        let inner = get_key(value, "value")?;
        match deserialize_with_type(inner, value_type) {
            Ok(value) => Ok(Field { id, value }),
            Err(e) => Err(e),
        }
    }
}

impl CodeClass {
    /// Decodes the field list of an object. The first field that fails ends
    /// the decode.
    pub fn deserialize(value: &Value) -> (r: Result<CodeClass, DecodeError>)
        ensures
            match r {
                Ok(obj) => decode_code_class(json_of(*value)) == Ok::<Seq<FieldEntry>, ErrorModel>(
                    obj@,
                ),
                Err(e) => decode_code_class(json_of(*value)) == Err::<Seq<FieldEntry>, ErrorModel>(
                    e@,
                ),
            },
    {
        let list = match value.as_array() {
            Some(list) => list,
            None => {
                return Err(fail(ErrorKind::ShapeMismatch, value));
            },
        };
        let ghost items = jsons_of(list@);
        let mut fields: Vec<Field> = Vec::new();
        let mut i: usize = 0;
        assert(CodeClass(fields)@ =~= Seq::empty());
        while i < list.len()
            invariant
                i <= list.len(),
                items == jsons_of(list@),
                json_of(*value) == Json::Array(items),
                decode_fields(items, i as int) == Ok::<Seq<FieldEntry>, ErrorModel>(
                    CodeClass(fields)@,
                ),
            decreases list.len() - i,
        {
            let ghost before = CodeClass(fields)@;
            match Field::deserialize(&list[i]) {
                Ok(field) => {
                    fields.push(field);
                    assert(CodeClass(fields)@ =~= before.push(field@));
                },
                Err(e) => {
                    proof {
                        lemma_fields_failure_stays(items, i + 1, items.len() as int);
                    }
                    return Err(e.within(i));
                },
            }
            i += 1;
        }
        Ok(CodeClass(fields))
    }
}

impl NodeObjPair {
    /// Decodes one record.
    pub fn deserialize(value: &Value) -> (r: Result<NodeObjPair, DecodeError>)
        ensures
            match r {
                Ok(pair) => decode_record(json_of(*value)) == Ok::<RecordModel, ErrorModel>(pair@),
                Err(e) => decode_record(json_of(*value)) == Err::<RecordModel, ErrorModel>(e@),
            },
    {
        let node = Node::deserialize(get_key(value, "node")?)?;
        let obj = CodeClass::deserialize(get_key(value, "obj")?)?;
        Ok(NodeObjPair { node, obj })
    }
}

} // verus!
