//! What holds of the decoders on every input.
//!
//! Each statement here is proved from the definitions that the decoders'
//! own contracts use, so it holds of the executable decoders as well.

use vstd::prelude::*;
use crate::bigint::{bigint, encoded, lemma_encoded_reads_back, BigInt};
use crate::error::{ErrorKind, ErrorModel};
use crate::field::{
    comparable, decode, decode_items, decode_pair, decode_pairs, first_keyed, lookup, FieldModel,
};
use crate::json::{failure, Json, Number};

verus! {

/// The magnitude of an encoded integer is its high half shifted left by 32
/// bits, or-ed with its low half.
pub proof fn law_magnitude_is_shift_or(b: BigInt)
    ensures
        b.magnitude() == ((b.int_hi as u64) << 32) | (b.int_lo as u64),
{
    let hi = b.int_hi;
    let lo = b.int_lo;
    assert((((hi as u64) << 32) | (lo as u64)) == (hi as u64) * 0x1_0000_0000 + (lo as u64))
        by (bit_vector);
}

/// Bit 31 of the high half is clear exactly where the magnitude is below
/// 2^63.
pub proof fn law_top_bit(b: BigInt)
    ensures
        (b.int_hi & 0x8000_0000 == 0) <==> b.int_hi < 0x8000_0000,
        b.int_hi < 0x8000_0000 <==> b.magnitude() < 0x8000_0000_0000_0000,
{
    let hi = b.int_hi;
    assert((hi & 0x8000_0000 == 0) <==> hi < 0x8000_0000) by (bit_vector);
}

/// An encoded integer with bit 31 of the high half clear decodes, as a
/// signed integer, to its high half shifted above its low half where the
/// sign is 1, and to the negation of that where the sign is -1.
pub proof fn law_signed_decode(j: Json, b: BigInt)
    requires
        j is Object,
        bigint(j) == Ok::<BigInt, ErrorModel>(b),
        b.sign == 1 || b.sign == -1,
        b.int_hi & 0x8000_0000 == 0,
    ensures
        b.sign == 1 ==> decode(j, 2) == Ok::<FieldModel, ErrorModel>(
            FieldModel::Int(((((b.int_hi as u64) << 32) | (b.int_lo as u64))) as i64),
        ),
        b.sign == -1 ==> decode(j, 2) == Ok::<FieldModel, ErrorModel>(
            FieldModel::Int((-((((b.int_hi as u64) << 32) | (b.int_lo as u64)) as int)) as i64),
        ),
{
    law_magnitude_is_shift_or(b);
    law_top_bit(b);
}

/// An encoded integer with sign -1 never decodes as an identifier, nor as
/// an enum reference: it fails as a negative identifier.
pub proof fn law_negative_identifier(j: Json, b: BigInt)
    requires
        j is Object,
        bigint(j) == Ok::<BigInt, ErrorModel>(b),
        b.sign == -1,
    ensures
        decode(j, 1) == Err::<FieldModel, ErrorModel>(failure(ErrorKind::NegativeIdentifier, j)),
        decode(j, 5) == Err::<FieldModel, ErrorModel>(failure(ErrorKind::NegativeIdentifier, j)),
{
}

/// An encoded integer with bit 31 of the high half set never decodes as a
/// signed integer: it fails as an overflow.
pub proof fn law_integer_overflow(j: Json, b: BigInt)
    requires
        j is Object,
        bigint(j) == Ok::<BigInt, ErrorModel>(b),
        b.int_hi & 0x8000_0000 != 0,
    ensures
        decode(j, 2) == Err::<FieldModel, ErrorModel>(failure(ErrorKind::IntegerOverflow, j)),
{
    law_top_bit(b);
}

/// An encoded integer of sign 1 and the plain number of the same magnitude
/// decode alike: as identifiers always, as signed integers where the
/// magnitude is below 2^63.
pub proof fn law_plain_and_encoded_agree(j: Json, b: BigInt)
    requires
        j is Object,
        bigint(j) == Ok::<BigInt, ErrorModel>(b),
        b.sign == 1,
    ensures
        decode(j, 1) == decode(Json::Number(Number::PosInt(b.magnitude() as u64)), 1),
        decode(j, 1) == Ok::<FieldModel, ErrorModel>(FieldModel::Id(b.magnitude() as u64)),
        b.int_hi < 0x8000_0000 ==> decode(j, 2) == decode(
            Json::Number(Number::PosInt(b.magnitude() as u64)),
            2,
        ),
{
}

/// The object `{sign: 1, intLo, intHi, len}` and the plain number
/// `intHi * 2^32 + intLo` decode to the same identifier.
pub proof fn law_encoded_identifier(int_lo: u32, int_hi: u32, len: u8)
    ensures
        ({
            let b = BigInt { sign: 1, int_lo, int_hi, len };
            let plain = Json::Number(Number::PosInt((int_hi * 0x1_0000_0000 + int_lo) as u64));
            &&& decode(encoded(b), 1) == decode(plain, 1)
            &&& decode(plain, 1) == Ok::<FieldModel, ErrorModel>(
                FieldModel::Id((int_hi * 0x1_0000_0000 + int_lo) as u64),
            )
        }),
{
    let b = BigInt { sign: 1, int_lo, int_hi, len };
    lemma_encoded_reads_back(b);
    law_plain_and_encoded_agree(encoded(b), b);
}

/// A sign other than 1 and -1 is read like this: as an identifier the
/// encoding is refused, and as a signed integer with bit 31 of the high half
/// clear it is the sign times the magnitude, or an overflow where that
/// product does not fit in 64 bits. A sign of 0 gives zero.
pub proof fn law_other_signs(j: Json, b: BigInt)
    requires
        j is Object,
        bigint(j) == Ok::<BigInt, ErrorModel>(b),
        !b.canonical(),
    ensures
        decode(j, 1) == Err::<FieldModel, ErrorModel>(failure(ErrorKind::NegativeIdentifier, j)),
        b.int_hi < 0x8000_0000 && i64::MIN <= b.sign * b.magnitude() <= i64::MAX ==> decode(j, 2)
            == Ok::<FieldModel, ErrorModel>(FieldModel::Int((b.sign * b.magnitude()) as i64)),
        b.int_hi < 0x8000_0000 && !(i64::MIN <= b.sign * b.magnitude() <= i64::MAX) ==> decode(
            j,
            2,
        ) == Err::<FieldModel, ErrorModel>(failure(ErrorKind::IntegerOverflow, j)),
        b.int_hi < 0x8000_0000 && b.sign == 0 ==> decode(j, 2) == Ok::<FieldModel, ErrorModel>(
            FieldModel::Int(0),
        ),
{
    assert(b.sign == 0 ==> b.sign * b.magnitude() == 0) by (nonlinear_arith);
}

/// The length that an encoded integer carries takes no part in its value:
/// two encodings that differ in it alone decode alike, as identifiers, as
/// signed integers and as enum references.
pub proof fn law_length_takes_no_part(b: BigInt, len: u8)
    ensures
        ({
            let other = BigInt { sign: b.sign, int_lo: b.int_lo, int_hi: b.int_hi, len };
            &&& other.unsigned() == b.unsigned()
            &&& other.signed() == b.signed()
            &&& decode(encoded(other), 1) == decode(encoded(b), 1)
            &&& decode(encoded(other), 2) == decode(encoded(b), 2)
            &&& decode(encoded(other), 5) == decode(encoded(b), 5)
        }),
{
    let other = BigInt { sign: b.sign, int_lo: b.int_lo, int_hi: b.int_hi, len };
    lemma_encoded_reads_back(b);
    lemma_encoded_reads_back(other);
}

/// A type code outside 1 to 8 never fails: the value is kept as it came.
pub proof fn law_unknown_code_is_kept(j: Json, code: u64)
    requires
        !(1 <= code <= 8),
    ensures
        decode(j, code) == Ok::<FieldModel, ErrorModel>(FieldModel::Other(j)),
{
}

/// Decoding the first `n` elements of a list either succeeds with one
/// result for each element, in input order, or stops at the first element
/// that fails and reports that element's failure at its position.
pub proof fn law_items_in_order(items: Seq<Json>, code: u64, n: int)
    requires
        0 <= n <= items.len(),
    ensures
        match decode_items(items, code, n) {
            Ok(out) => {
                &&& out.len() == n
                &&& forall|i: int|
                    0 <= i < n ==> decode(items[i], code) == Ok::<FieldModel, ErrorModel>(
                        #[trigger] out[i],
                    )
            },
            Err(e) => exists|i: int|
                {
                    &&& 0 <= i < n
                    &&& #[trigger] decode(items[i], code) matches Err(inner)
                    &&& e == inner.within(i as usize)
                    &&& forall|k: int| 0 <= k < i ==> #[trigger] decode(items[k], code) is Ok
                },
        },
    decreases n,
{
    if n > 0 {
        law_items_in_order(items, code, n - 1);
        match decode_items(items, code, n - 1) {
            Ok(front) => {
                match decode(items[n - 1], code) {
                    Ok(x) => {},
                    Err(inner) => {
                        assert(forall|k: int|
                            0 <= k < n - 1 ==> #[trigger] decode(items[k], code) == Ok::<
                                FieldModel,
                                ErrorModel,
                            >(front[k]));
                    },
                }
            },
            Err(e) => {},
        }
    }
}

/// A list decodes to exactly as many values as it has elements, each the
/// decoding of the element at the same position.
pub proof fn law_list_keeps_order_and_count(items: Seq<Json>, code: u64, out: Seq<FieldModel>)
    requires
        decode_items(items, code, items.len() as int) == Ok::<Seq<FieldModel>, ErrorModel>(out),
    ensures
        out.len() == items.len(),
        forall|i: int|
            0 <= i < items.len() ==> decode(items[i], code) == Ok::<FieldModel, ErrorModel>(
                #[trigger] out[i],
            ),
{
    law_items_in_order(items, code, items.len() as int);
}

/// Decoding the first `n` pairs of a lookup list either succeeds with one
/// pair for each input pair, in input order, or stops at the first pair that
/// fails and reports that pair's failure at its position.
pub proof fn law_pairs_in_order(items: Seq<Json>, key_code: u64, val_code: u64, n: int)
    requires
        0 <= n <= items.len(),
    ensures
        match decode_pairs(items, key_code, val_code, n) {
            Ok(out) => {
                &&& out.len() == n
                &&& forall|i: int|
                    0 <= i < n ==> decode_pair(items[i], key_code, val_code) == Ok::<
                        (FieldModel, FieldModel),
                        ErrorModel,
                    >(#[trigger] out[i])
            },
            Err(e) => exists|i: int|
                {
                    &&& 0 <= i < n
                    &&& #[trigger] decode_pair(items[i], key_code, val_code) matches Err(inner)
                    &&& e == inner.within(i as usize)
                    &&& forall|k: int|
                        0 <= k < i ==> #[trigger] decode_pair(items[k], key_code, val_code) is Ok
                },
        },
    decreases n,
{
    if n > 0 {
        law_pairs_in_order(items, key_code, val_code, n - 1);
        match decode_pairs(items, key_code, val_code, n - 1) {
            Ok(front) => {
                match decode_pair(items[n - 1], key_code, val_code) {
                    Ok(x) => {},
                    Err(inner) => {
                        assert(forall|k: int|
                            0 <= k < n - 1 ==> #[trigger] decode_pair(
                                items[k],
                                key_code,
                                val_code,
                            ) == Ok::<(FieldModel, FieldModel), ErrorModel>(front[k]));
                    },
                }
            },
            Err(e) => {},
        }
    }
}

/// A lookup list decodes to exactly as many pairs as it has entries, each
/// the decoding of the entry at the same position; equal keys stay apart.
pub proof fn law_lookup_list_keeps_order_and_count(
    items: Seq<Json>,
    key_code: u64,
    val_code: u64,
    out: Seq<(FieldModel, FieldModel)>,
)
    requires
        decode_pairs(items, key_code, val_code, items.len() as int) == Ok::<
            Seq<(FieldModel, FieldModel)>,
            ErrorModel,
        >(out),
    ensures
        out.len() == items.len(),
        forall|i: int|
            0 <= i < items.len() ==> decode_pair(items[i], key_code, val_code) == Ok::<
                (FieldModel, FieldModel),
                ErrorModel,
            >(#[trigger] out[i]),
{
    law_pairs_in_order(items, key_code, val_code, items.len() as int);
}

/// The pair that a search among the first `n` pairs finds is the first
/// whose key equals the key; where it finds none, no key equals it.
pub proof fn law_first_keyed_is_first_match(
    pairs: Seq<(FieldModel, FieldModel)>,
    key: FieldModel,
    n: int,
)
    requires
        0 <= n <= pairs.len(),
    ensures
        match first_keyed(pairs, key, n) {
            Some(i) => {
                &&& 0 <= i < n
                &&& pairs[i].0 == key
                &&& forall|k: int| 0 <= k < i ==> (#[trigger] pairs[k]).0 != key
            },
            None => forall|k: int| 0 <= k < n ==> (#[trigger] pairs[k]).0 != key,
        },
    decreases n,
{
    if n > 0 {
        law_first_keyed_is_first_match(pairs, key, n - 1);
    }
}

/// Looking a key up gives the value of the first pair whose key equals it,
/// of whatever kind the key is, as long as it can be compared. A key that
/// holds a number under type code 4 or a value kept as it came is found
/// nowhere.
pub proof fn law_lookup_is_by_value(pairs: Seq<(FieldModel, FieldModel)>, key: FieldModel)
    ensures
        !comparable(key) ==> lookup(pairs, key) is None,
        comparable(key) ==> match lookup(pairs, key) {
            Some(value) => exists|i: int|
                {
                    &&& 0 <= i < pairs.len()
                    &&& #[trigger] pairs[i] == (key, value)
                    &&& forall|k: int| 0 <= k < i ==> (#[trigger] pairs[k]).0 != key
                },
            None => forall|k: int| 0 <= k < pairs.len() ==> (#[trigger] pairs[k]).0 != key,
        },
{
    law_first_keyed_is_first_match(pairs, key, pairs.len() as int);
}

} // verus!
