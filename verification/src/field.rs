//! Typed field values and their decoders.

use vstd::prelude::*;
use serde_json::Value;
use crate::bigint::{bigint, BigInt};
use crate::error::{DecodeError, ErrorKind, ErrorModel};
use crate::json::{
    fail, failure, get_key, json_of, jsons_of, member, member_array, member_u64, mismatch,
    value_to_array, value_to_number, value_to_u64, Json, Number,
};

verus! {

/// An identifier: an unsigned 64-bit number that is never negative.
#[derive(Debug, Clone, Copy, PartialEq, Eq, Structural)]
pub struct Id(pub u64);

/// A signed 64-bit integer.
#[derive(Debug, Clone, Copy, PartialEq, Eq, Structural)]
pub struct Int(pub i64);

/// An ordered list of values that share one type code.
#[derive(Debug, PartialEq)]
pub struct List(pub Vec<FieldValue>);

/// An ordered list of key/value pairs. Keys may repeat; order is kept.
#[derive(Debug, PartialEq)]
pub struct LookupList(pub Vec<(FieldValue, FieldValue)>);

/// A decoded value. The variant follows from the type code alone.
#[derive(Debug, PartialEq)]
pub enum FieldValue {
    Id(Id),
    Int(Int),
    Boolean(bool),
    /// A number of single precision, held as the JSON number it was written
    /// as; narrowing it is left to the caller.
    Float(Number),
    Enum(Id),
    String(String),
    List(List),
    LookupList(LookupList),
    /// A value under a type code that has no decoder, kept as it came.
    Other(Value),
}

/// The mathematical content of a [`FieldValue`].
pub enum FieldModel {
    Id(u64),
    Int(i64),
    Boolean(bool),
    Float(Number),
    Enum(u64),
    String(Seq<char>),
    List(Seq<FieldModel>),
    LookupList(Seq<(FieldModel, FieldModel)>),
    Other(Json),
}

impl View for List {
    type V = Seq<FieldModel>;

    open spec fn view(&self) -> Seq<FieldModel>
        decreases self,
    {
        Seq::new(
            self.0@.len(),
            |i: int|
                if 0 <= i < self.0@.len() {
                    self.0@[i].view()
                } else {
                    arbitrary()
                },
        )
    }
}

impl View for LookupList {
    type V = Seq<(FieldModel, FieldModel)>;

    open spec fn view(&self) -> Seq<(FieldModel, FieldModel)>
        decreases self,
    {
        Seq::new(
            self.0@.len(),
            |i: int|
                if 0 <= i < self.0@.len() {
                    (self.0@[i].0.view(), self.0@[i].1.view())
                } else {
                    arbitrary()
                },
        )
    }
}

impl View for FieldValue {
    type V = FieldModel;

    open spec fn view(&self) -> FieldModel
        decreases self,
    {
        match self {
            FieldValue::Id(id) => FieldModel::Id(id.0),
            FieldValue::Int(n) => FieldModel::Int(n.0),
            FieldValue::Boolean(b) => FieldModel::Boolean(*b),
            FieldValue::Float(n) => FieldModel::Float(*n),
            FieldValue::Enum(id) => FieldModel::Enum(id.0),
            FieldValue::String(s) => FieldModel::String(s@),
            FieldValue::List(list) => FieldModel::List(list.view()),
            FieldValue::LookupList(list) => FieldModel::LookupList(list.view()),
            FieldValue::Other(value) => FieldModel::Other(json_of(*value)),
        }
    }
}

impl Clone for List {
    fn clone(&self) -> (r: List)
        ensures
            r@ == self@,
        decreases self,
    {
        let mut out: Vec<FieldValue> = Vec::new();
        let mut i: usize = 0;
        assert(List(out)@ =~= self@.take(0));
        while i < self.0.len()
            invariant
                i <= self.0.len(),
                List(out)@ == self@.take(i as int),
            decreases self.0.len() - i,
        {
            let ghost before = List(out)@;
            let item = self.0[i].clone();
            out.push(item);
            assert(List(out)@ =~= before.push(item@));
            assert(self@.take(i + 1) =~= self@.take(i as int).push(self.0@[i as int]@));
            i += 1;
        }
        assert(self@.take(i as int) =~= self@);
        List(out)
    }
}

impl Clone for LookupList {
    fn clone(&self) -> (r: LookupList)
        ensures
            r@ == self@,
        decreases self,
    {
        let mut out: Vec<(FieldValue, FieldValue)> = Vec::new();
        let mut i: usize = 0;
        assert(LookupList(out)@ =~= self@.take(0));
        while i < self.0.len()
            invariant
                i <= self.0.len(),
                LookupList(out)@ == self@.take(i as int),
            decreases self.0.len() - i,
        {
            let ghost before = LookupList(out)@;
            let key = self.0[i].0.clone();
            let val = self.0[i].1.clone();
            let ghost entry = (key@, val@);
            out.push((key, val));
            assert(LookupList(out)@ =~= before.push(entry));
            assert(self@.take(i + 1) =~= self@.take(i as int).push(entry));
            i += 1;
        }
        assert(self@.take(i as int) =~= self@);
        LookupList(out)
    }
}

impl Clone for FieldValue {
    fn clone(&self) -> (r: FieldValue)
        ensures
            r@ == self@,
        decreases self,
    {
        match self {
            FieldValue::Id(id) => FieldValue::Id(*id),
            FieldValue::Int(n) => FieldValue::Int(*n),
            FieldValue::Boolean(b) => FieldValue::Boolean(*b),
            FieldValue::Float(n) => FieldValue::Float(*n),
            FieldValue::Enum(id) => FieldValue::Enum(*id),
            FieldValue::String(s) => FieldValue::String(s.clone()),
            FieldValue::List(list) => FieldValue::List(list.clone()),
            FieldValue::LookupList(list) => FieldValue::LookupList(list.clone()),
            FieldValue::Other(value) => FieldValue::Other(value.clone()),
        }
    }
}

/// Whether the library can compare the value with another: it holds,
/// at no depth, a number under type code 4 or a value kept as it came.
/// Comparing those takes floating-point or raw JSON equality, which the
/// library does not have.
pub open spec fn comparable(v: FieldModel) -> bool
    decreases v, 1int,
{
    match v {
        FieldModel::Float(_) => false,
        FieldModel::Other(_) => false,
        FieldModel::List(items) => all_comparable(items, items.len() as int),
        FieldModel::LookupList(pairs) => all_pairs_comparable(pairs, pairs.len() as int),
        _ => true,
    }
}

/// Whether each of the first `n` of `items` can be compared.
pub open spec fn all_comparable(items: Seq<FieldModel>, n: int) -> bool
    decreases items, n,
{
    if n <= 0 || n > items.len() {
        true
    } else {
        all_comparable(items, n - 1) && comparable(items[n - 1])
    }
}

/// Whether both halves of each of the first `n` of `pairs` can be compared.
pub open spec fn all_pairs_comparable(pairs: Seq<(FieldModel, FieldModel)>, n: int) -> bool
    decreases pairs, n,
{
    if n <= 0 || n > pairs.len() {
        true
    } else {
        all_pairs_comparable(pairs, n - 1) && comparable(pairs[n - 1].0) && comparable(
            pairs[n - 1].1,
        )
    }
}

/// Where the first `n` elements can be compared, so can each of them.
pub proof fn lemma_comparable_element(items: Seq<FieldModel>, n: int, i: int)
    requires
        all_comparable(items, n),
        0 <= i < n <= items.len(),
    ensures
        comparable(items[i]),
    decreases n,
{
    if i < n - 1 {
        lemma_comparable_element(items, n - 1, i);
    }
}

/// Where the first `n` pairs can be compared, so can both halves of each.
pub proof fn lemma_comparable_pair(pairs: Seq<(FieldModel, FieldModel)>, n: int, i: int)
    requires
        all_pairs_comparable(pairs, n),
        0 <= i < n <= pairs.len(),
    ensures
        comparable(pairs[i].0),
        comparable(pairs[i].1),
    decreases n,
{
    if i < n - 1 {
        lemma_comparable_pair(pairs, n - 1, i);
    }
}

/// The position of the first of the first `n` pairs whose key equals `key`.
pub open spec fn first_keyed(pairs: Seq<(FieldModel, FieldModel)>, key: FieldModel, n: int)
    -> Option<int>
    decreases n,
{
    if n <= 0 || n > pairs.len() {
        None
    } else {
        match first_keyed(pairs, key, n - 1) {
            Some(i) => Some(i),
            None => if pairs[n - 1].0 == key {
                Some(n - 1)
            } else {
                None
            },
        }
    }
}

/// The value that `pairs` holds under `key`: that of the first pair whose
/// key equals `key`, where the key can be compared; nothing where no key
/// equals it, and nothing where the key cannot be compared.
pub open spec fn lookup(pairs: Seq<(FieldModel, FieldModel)>, key: FieldModel) -> Option<
    FieldModel,
> {
    if comparable(key) {
        match first_keyed(pairs, key, pairs.len() as int) {
            Some(i) => Some(pairs[i].1),
            None => None,
        }
    } else {
        None
    }
}

/// A pair found among the first `k` is the one found among the first `n`.
pub proof fn lemma_first_keyed_stays(
    pairs: Seq<(FieldModel, FieldModel)>,
    key: FieldModel,
    k: int,
    n: int,
)
    requires
        0 <= k <= n <= pairs.len(),
        first_keyed(pairs, key, k) is Some,
    ensures
        first_keyed(pairs, key, n) == first_keyed(pairs, key, k),
    decreases n - k,
{
    if k < n {
        lemma_first_keyed_stays(pairs, key, k, n - 1);
    }
}

impl List {
    /// Whether the list can be compared and equals `other`, element by
    /// element.
    pub fn same(&self, other: &List) -> (r: bool)
        ensures
            r == (comparable(FieldModel::List(self@)) && self@ == other@),
        decreases self,
    {
        if self.0.len() != other.0.len() {
            return false;
        }
        let mut i: usize = 0;
        while i < self.0.len()
            invariant
                i <= self.0.len(),
                self.0.len() == other.0.len(),
                self@.len() == self.0.len(),
                other@.len() == other.0.len(),
                all_comparable(self@, i as int),
                forall|k: int| 0 <= k < i ==> self@[k] == other@[k],
            decreases self.0.len() - i,
        {
            assert(self@[i as int] == self.0@[i as int]@);
            assert(other@[i as int] == other.0@[i as int]@);
            if !self.0[i].same(&other.0[i]) {
                proof {
                    if comparable(FieldModel::List(self@)) {
                        lemma_comparable_element(self@, self@.len() as int, i as int);
                    }
                }
                return false;
            }
            i += 1;
        }
        assert(self@ =~= other@);
        true
    }
}

impl LookupList {
    /// Whether the list can be compared and equals `other`, pair by pair.
    pub fn same(&self, other: &LookupList) -> (r: bool)
        ensures
            r == (comparable(FieldModel::LookupList(self@)) && self@ == other@),
        decreases self,
    {
        if self.0.len() != other.0.len() {
            return false;
        }
        let mut i: usize = 0;
        while i < self.0.len()
            invariant
                i <= self.0.len(),
                self.0.len() == other.0.len(),
                self@.len() == self.0.len(),
                other@.len() == other.0.len(),
                all_pairs_comparable(self@, i as int),
                forall|k: int| 0 <= k < i ==> self@[k] == other@[k],
            decreases self.0.len() - i,
        {
            assert(self@[i as int] == (self.0@[i as int].0@, self.0@[i as int].1@));
            assert(other@[i as int] == (other.0@[i as int].0@, other.0@[i as int].1@));
            proof {
                if comparable(FieldModel::LookupList(self@)) {
                    lemma_comparable_pair(self@, self@.len() as int, i as int);
                }
            }
            if !self.0[i].0.same(&other.0[i].0) {
                return false;
            }
            if !self.0[i].1.same(&other.0[i].1) {
                return false;
            }
            i += 1;
        }
        assert(self@ =~= other@);
        true
    }

    /// The value of the first pair whose key equals `key`. A key that
    /// holds a number under type code 4 or a value kept as it came equals
    /// no key, so nothing is found under it.
    pub fn get(&self, key: &FieldValue) -> (r: Option<&FieldValue>)
        ensures
            match r {
                Some(value) => lookup(self@, key@) == Some(value@),
                None => lookup(self@, key@) is None,
            },
    {
        let mut i: usize = 0;
        while i < self.0.len()
            invariant
                i <= self.0.len(),
                self@.len() == self.0.len(),
                comparable(key@) ==> first_keyed(self@, key@, i as int) is None,
            decreases self.0.len() - i,
        {
            assert(self@[i as int] == (self.0@[i as int].0@, self.0@[i as int].1@));
            if key.same(&self.0[i].0) {
                proof {
                    lemma_first_keyed_stays(self@, key@, i + 1, self@.len() as int);
                }
                return Some(&self.0[i].1);
            }
            i += 1;
        }
        None
    }
}

impl FieldValue {
    /// Whether the value can be compared and equals `other`. Values of
    /// different kinds are never equal; a number under type code 4 and a
    /// value kept as it came equal nothing, themselves included.
    pub fn same(&self, other: &FieldValue) -> (r: bool)
        ensures
            r == (comparable(self@) && self@ == other@),
        decreases self,
    {
        match self {
            FieldValue::Id(a) => match other {
                FieldValue::Id(b) => a.0 == b.0,
                _ => false,
            },
            FieldValue::Int(a) => match other {
                FieldValue::Int(b) => a.0 == b.0,
                _ => false,
            },
            FieldValue::Boolean(a) => match other {
                FieldValue::Boolean(b) => *a == *b,
                _ => false,
            },
            FieldValue::Enum(a) => match other {
                FieldValue::Enum(b) => a.0 == b.0,
                _ => false,
            },
            FieldValue::String(a) => match other {
                FieldValue::String(b) => *a == *b,
                _ => false,
            },
            FieldValue::List(a) => match other {
                FieldValue::List(b) => a.same(b),
                _ => false,
            },
            FieldValue::LookupList(a) => match other {
                FieldValue::LookupList(b) => a.same(b),
                _ => false,
            },
            FieldValue::Float(_) => false,
            FieldValue::Other(_) => false,
        }
    }
}

/// What decoding `j` as an identifier gives: a non-negative plain integer
/// as it is, an encoded integer by its unsigned value.
pub open spec fn decode_id(j: Json) -> Result<u64, ErrorModel> {
    match j {
        Json::Number(Number::PosInt(n)) => Ok(n),
        Json::Object(_) => match bigint(j) {
            Ok(b) => match b.unsigned() {
                Some(n) => Ok(n),
                None => Err(failure(ErrorKind::NegativeIdentifier, j)),
            },
            Err(e) => Err(e),
        },
        _ => Err(mismatch(j)),
    }
}

/// What decoding `j` as a signed integer gives: a plain integer that fits in
/// 64 signed bits as it is, an encoded integer by its signed value.
pub open spec fn decode_int(j: Json) -> Result<i64, ErrorModel> {
    match j {
        Json::Number(Number::PosInt(n)) => if n <= i64::MAX {
            Ok(n as i64)
        } else {
            Err(mismatch(j))
        },
        Json::Number(Number::NegInt(i)) => Ok(i),
        Json::Object(_) => match bigint(j) {
            Ok(b) => match b.signed() {
                Some(n) => Ok(n),
                None => Err(failure(ErrorKind::IntegerOverflow, j)),
            },
            Err(e) => Err(e),
        },
        _ => Err(mismatch(j)),
    }
}

/// What decoding `j` under the type code `code` gives.
pub open spec fn decode(j: Json, code: u64) -> Result<FieldModel, ErrorModel>
    decreases j, 1int,
{
    if code == 1 {
        match decode_id(j) {
            Ok(n) => Ok(FieldModel::Id(n)),
            Err(e) => Err(e),
        }
    } else if code == 2 {
        match decode_int(j) {
            Ok(n) => Ok(FieldModel::Int(n)),
            Err(e) => Err(e),
        }
    } else if code == 3 {
        match j {
            Json::Bool(b) => Ok(FieldModel::Boolean(b)),
            _ => Err(mismatch(j)),
        }
    } else if code == 4 {
        match j {
            Json::Number(n) => Ok(FieldModel::Float(n)),
            _ => Err(mismatch(j)),
        }
    } else if code == 5 {
        match decode_id(j) {
            Ok(n) => Ok(FieldModel::Enum(n)),
            Err(e) => Err(e),
        }
    } else if code == 6 {
        match j {
            Json::String(s) => Ok(FieldModel::String(s)),
            _ => Err(mismatch(j)),
        }
    } else if code == 7 {
        match decode_list(j) {
            Ok(items) => Ok(FieldModel::List(items)),
            Err(e) => Err(e),
        }
    } else if code == 8 {
        match decode_lookup_list(j) {
            Ok(pairs) => Ok(FieldModel::LookupList(pairs)),
            Err(e) => Err(e),
        }
    } else {
        Ok(FieldModel::Other(j))
    }
}

/// What decoding the list object `j` gives: the elements of its `list`,
/// each decoded under its `type`.
pub open spec fn decode_list(j: Json) -> Result<Seq<FieldModel>, ErrorModel>
    decreases j, 0int,
{
    match member_u64(j, "type"@) {
        Ok(code) => match member_array(j, "list"@) {
            Ok(items) => decode_items(items, code, items.len() as int),
            Err(e) => Err(e),
        },
        Err(e) => Err(e),
    }
}

/// What decoding the first `n` of `items` under `code` gives: the decoded
/// elements in order, or the failure of the first element that fails, marked
/// with that element's position.
pub open spec fn decode_items(items: Seq<Json>, code: u64, n: int) -> Result<
    Seq<FieldModel>,
    ErrorModel,
>
    decreases items, n,
{
    if n <= 0 || n > items.len() {
        Ok(Seq::empty())
    } else {
        match decode_items(items, code, n - 1) {
            Ok(front) => match decode(items[n - 1], code) {
                Ok(x) => Ok(front.push(x)),
                Err(e) => Err(e.within((n - 1) as usize)),
            },
            Err(e) => Err(e),
        }
    }
}

/// What decoding the lookup-list object `j` gives: the pairs of its `list`,
/// keys decoded under its `indexType` and values under its `type`.
pub open spec fn decode_lookup_list(j: Json) -> Result<Seq<(FieldModel, FieldModel)>, ErrorModel>
    decreases j, 0int,
{
    match member_u64(j, "indexType"@) {
        Ok(key_code) => match member_u64(j, "type"@) {
            Ok(val_code) => match member_array(j, "list"@) {
                Ok(items) => decode_pairs(items, key_code, val_code, items.len() as int),
                Err(e) => Err(e),
            },
            Err(e) => Err(e),
        },
        Err(e) => Err(e),
    }
}

/// What decoding one `{key, val}` object gives: the key is looked up and
/// decoded first, then the value.
pub open spec fn decode_pair(pair: Json, key_code: u64, val_code: u64) -> Result<
    (FieldModel, FieldModel),
    ErrorModel,
>
    decreases pair, 0int,
{
    match member(pair, "key"@) {
        Ok(key) => match decode(key, key_code) {
            Ok(k) => match member(pair, "val"@) {
                Ok(val) => match decode(val, val_code) {
                    Ok(v) => Ok((k, v)),
                    Err(e) => Err(e),
                },
                Err(e) => Err(e),
            },
            Err(e) => Err(e),
        },
        Err(e) => Err(e),
    }
}

/// What decoding the first `n` of `items` as pairs gives: the decoded pairs
/// in order, or the failure of the first pair that fails, marked with that
/// pair's position.
pub open spec fn decode_pairs(items: Seq<Json>, key_code: u64, val_code: u64, n: int) -> Result<
    Seq<(FieldModel, FieldModel)>,
    ErrorModel,
>
    decreases items, n,
{
    if n <= 0 || n > items.len() {
        Ok(Seq::empty())
    } else {
        match decode_pairs(items, key_code, val_code, n - 1) {
            Ok(front) => match decode_pair(items[n - 1], key_code, val_code) {
                Ok(pair) => Ok(front.push(pair)),
                Err(e) => Err(e.within((n - 1) as usize)),
            },
            Err(e) => Err(e),
        }
    }
}

/// What decoding a tagged value gives: the `value` of the object `j`,
/// decoded under its `type`.
pub open spec fn decode_tagged(j: Json) -> Result<FieldModel, ErrorModel> {
    match member_u64(j, "type"@) {
        Ok(code) => match member(j, "value"@) {
            Ok(value) => decode(value, code),
            Err(e) => Err(e),
        },
        Err(e) => Err(e),
    }
}

/// An element of a member array lies below the object that holds the array.
pub proof fn lemma_element_below(j: Json, key: Seq<char>, items: Seq<Json>, i: int)
    requires
        member_array(j, key) == Ok::<Seq<Json>, ErrorModel>(items),
        0 <= i < items.len(),
    ensures
        decreases_to!(j => items[i]),
{
}

/// A member lies below the object that holds it.
pub proof fn lemma_member_below(j: Json, key: Seq<char>, x: Json)
    requires
        member(j, key) == Ok::<Json, ErrorModel>(x),
    ensures
        decreases_to!(j => x),
{
}

/// Once an element has failed, decoding more elements reports the same
/// failure.
pub proof fn lemma_items_failure_stays(items: Seq<Json>, code: u64, k: int, n: int)
    requires
        0 <= k <= n <= items.len(),
        decode_items(items, code, k) is Err,
    ensures
        decode_items(items, code, n) == decode_items(items, code, k),
    decreases n - k,
{
    if k < n {
        lemma_items_failure_stays(items, code, k, n - 1);
    }
}

/// Once a pair has failed, decoding more pairs reports the same failure.
pub proof fn lemma_pairs_failure_stays(
    items: Seq<Json>,
    key_code: u64,
    val_code: u64,
    k: int,
    n: int,
)
    requires
        0 <= k <= n <= items.len(),
        decode_pairs(items, key_code, val_code, k) is Err,
    ensures
        decode_pairs(items, key_code, val_code, n) == decode_pairs(items, key_code, val_code, k),
    decreases n - k,
{
    if k < n {
        lemma_pairs_failure_stays(items, key_code, val_code, k, n - 1);
    }
}

/// The content of a decoder's result.
pub open spec fn decoded(r: Result<FieldValue, DecodeError>) -> Result<FieldModel, ErrorModel> {
    match r {
        Ok(v) => Ok(v@),
        Err(e) => Err(e@),
    }
}

impl Id {
    /// Decodes an identifier from a plain number or an encoded integer.
    pub fn deserialize(value: &Value) -> (r: Result<Id, DecodeError>)
        ensures
            match r {
                Ok(id) => decode_id(json_of(*value)) == Ok::<u64, ErrorModel>(id.0),
                Err(e) => decode_id(json_of(*value)) == Err::<u64, ErrorModel>(e@),
            },
    {
        if value.is_number() {
            match value.as_u64() {
                Some(n) => Ok(Id(n)),
                None => Err(fail(ErrorKind::ShapeMismatch, value)),
            }
        } else if value.is_object() {
            let big = BigInt::deserialize(value)?;
            match big.try_into_u64() {
                Ok(n) => Ok(Id(n)),
                Err(kind) => Err(fail(kind, value)),
            }
        } else {
            Err(fail(ErrorKind::ShapeMismatch, value))
        }
    }
}

impl Int {
    /// Decodes a signed integer from a plain number or an encoded integer.
    pub fn deserialize(value: &Value) -> (r: Result<Int, DecodeError>)
        ensures
            match r {
                Ok(n) => decode_int(json_of(*value)) == Ok::<i64, ErrorModel>(n.0),
                Err(e) => decode_int(json_of(*value)) == Err::<i64, ErrorModel>(e@),
            },
    {
        if value.is_number() {
            match value.as_i64() {
                Some(n) => Ok(Int(n)),
                None => Err(fail(ErrorKind::ShapeMismatch, value)),
            }
        } else if value.is_object() {
            let big = BigInt::deserialize(value)?;
            match big.try_into_i64() {
                Ok(n) => Ok(Int(n)),
                Err(kind) => Err(fail(kind, value)),
            }
        } else {
            Err(fail(ErrorKind::ShapeMismatch, value))
        }
    }
}

impl List {
    /// Decodes a list object: every element of `list` under the one `type`.
    /// The first element that fails ends the decode.
    pub fn deserialize(value: &Value) -> (r: Result<List, DecodeError>)
        ensures
            match r {
                Ok(list) => decode_list(json_of(*value)) == Ok::<Seq<FieldModel>, ErrorModel>(
                    list@,
                ),
                Err(e) => decode_list(json_of(*value)) == Err::<Seq<FieldModel>, ErrorModel>(e@),
            },
        decreases json_of(*value), 0int,
    {
        let value_type = value_to_u64(value, "type")?;
        let list = value_to_array(value, "list")?;
        let ghost items = jsons_of(list@);
        let mut out: Vec<FieldValue> = Vec::new();
        let mut i: usize = 0;
        assert(List(out)@ =~= Seq::empty());
        while i < list.len()
            invariant
                i <= list.len(),
                items == jsons_of(list@),
                member_u64(json_of(*value), "type"@) == Ok::<u64, ErrorModel>(value_type),
                member_array(json_of(*value), "list"@) == Ok::<Seq<Json>, ErrorModel>(items),
                decode_items(items, value_type, i as int) == Ok::<Seq<FieldModel>, ErrorModel>(
                    List(out)@,
                ),
            decreases list.len() - i,
        {
            let ghost before = List(out)@;
            proof {
                lemma_element_below(json_of(*value), "list"@, items, i as int);
            }
            match deserialize_with_type(&list[i], value_type) {
                Ok(x) => {
                    out.push(x);
                    assert(List(out)@ =~= before.push(x@));
                },
                Err(e) => {
                    proof {
                        lemma_items_failure_stays(items, value_type, i + 1, items.len() as int);
                    }
                    return Err(e.within(i));
                },
            }
            i += 1;
        }
        Ok(List(out))
    }
}

impl LookupList {
    /// Decodes a lookup-list object: every pair of `list`, the key under
    /// `indexType` and the value under `type`. The first pair that fails
    /// ends the decode.
    pub fn deserialize(value: &Value) -> (r: Result<LookupList, DecodeError>)
        ensures
            match r {
                Ok(list) => decode_lookup_list(json_of(*value)) == Ok::<
                    Seq<(FieldModel, FieldModel)>,
                    ErrorModel,
                >(list@),
                Err(e) => decode_lookup_list(json_of(*value)) == Err::<
                    Seq<(FieldModel, FieldModel)>,
                    ErrorModel,
                >(e@),
            },
        decreases json_of(*value), 0int,
    {
        let index_type = value_to_u64(value, "indexType")?;
        let value_type = value_to_u64(value, "type")?;
        let list = value_to_array(value, "list")?;
        let ghost items = jsons_of(list@);
        let mut map: Vec<(FieldValue, FieldValue)> = Vec::new();
        let mut i: usize = 0;
        assert(LookupList(map)@ =~= Seq::empty());
        while i < list.len()
            invariant
                i <= list.len(),
                items == jsons_of(list@),
                member_u64(json_of(*value), "indexType"@) == Ok::<u64, ErrorModel>(index_type),
                member_u64(json_of(*value), "type"@) == Ok::<u64, ErrorModel>(value_type),
                member_array(json_of(*value), "list"@) == Ok::<Seq<Json>, ErrorModel>(items),
                decode_pairs(items, index_type, value_type, i as int) == Ok::<
                    Seq<(FieldModel, FieldModel)>,
                    ErrorModel,
                >(LookupList(map)@),
            decreases list.len() - i,
        {
            let ghost before = LookupList(map)@;
            let pair = &list[i];
            proof {
                lemma_element_below(json_of(*value), "list"@, items, i as int);
                if decode_pair(items[i as int], index_type, value_type) is Err {
                    lemma_pairs_failure_stays(
                        items,
                        index_type,
                        value_type,
                        i + 1,
                        items.len() as int,
                    );
                }
            }
            let key = match get_key(pair, "key") {
                Ok(key) => key,
                Err(e) => {
                    return Err(e.within(i));
                },
            };
            proof {
                lemma_member_below(json_of(*pair), "key"@, json_of(*key));
            }
            let parsed_key = match deserialize_with_type(key, index_type) {
                Ok(k) => k,
                Err(e) => {
                    return Err(e.within(i));
                },
            };
            let val = match get_key(pair, "val") {
                Ok(val) => val,
                Err(e) => {
                    return Err(e.within(i));
                },
            };
            proof {
                lemma_member_below(json_of(*pair), "val"@, json_of(*val));
            }
            let parsed_val = match deserialize_with_type(val, value_type) {
                Ok(v) => v,
                Err(e) => {
                    return Err(e.within(i));
                },
            };
            let ghost entry = (parsed_key@, parsed_val@);
            map.push((parsed_key, parsed_val));
            assert(LookupList(map)@ =~= before.push(entry));
            i += 1;
        }
        Ok(LookupList(map))
    }
}

/// Decodes `value` under the type code `value_type`. Codes 1 to 8 select a
/// decoder; any other code keeps the value as it came.
pub fn deserialize_with_type(value: &Value, value_type: u64) -> (r: Result<FieldValue, DecodeError>)
    ensures
        decoded(r) == decode(json_of(*value), value_type),
    decreases json_of(*value), 1int,
{
    match value_type {
        1 => match Id::deserialize(value) {
            Ok(id) => Ok(FieldValue::Id(id)),
            Err(e) => Err(e),
        },
        2 => match Int::deserialize(value) {
            Ok(n) => Ok(FieldValue::Int(n)),
            Err(e) => Err(e),
        },
        3 => match value.as_bool() {
            Some(b) => Ok(FieldValue::Boolean(b)),
            None => Err(fail(ErrorKind::ShapeMismatch, value)),
        },
        4 => match value_to_number(value) {
            Some(n) => Ok(FieldValue::Float(n)),
            None => Err(fail(ErrorKind::ShapeMismatch, value)),
        },
        5 => match Id::deserialize(value) {
            Ok(id) => Ok(FieldValue::Enum(id)),
            Err(e) => Err(e),
        },
        6 => match value.as_str() {
            Some(s) => Ok(FieldValue::String(s.to_owned())),
            None => Err(fail(ErrorKind::ShapeMismatch, value)),
        },
        7 => match List::deserialize(value) {
            Ok(list) => Ok(FieldValue::List(list)),
            Err(e) => Err(e),
        },
        8 => match LookupList::deserialize(value) {
            Ok(list) => Ok(FieldValue::LookupList(list)),
            Err(e) => Err(e),
        },
        _ => Ok(FieldValue::Other(value.clone())),
    }
}

impl FieldValue {
    /// Decodes a tagged value: an object whose `type` says how its `value`
    /// is to be read.
    pub fn deserialize(value: &Value) -> (r: Result<FieldValue, DecodeError>)
        ensures
            decoded(r) == decode_tagged(json_of(*value)),
    {
        let value_type = value_to_u64(value, "type")?;
        let inner = get_key(value, "value")?;
        deserialize_with_type(inner, value_type)
    }
}

} // verus!
