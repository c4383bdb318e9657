//! The sign/low/high encoding of a 64-bit integer.
//!
//! Integers too wide for a plain JSON number travel as an object with a
//! sign and two 32-bit halves. This module reads such an object and turns it
//! into a native integer, unsigned for identifiers and signed for integers.

use vstd::prelude::*;
use serde_json::Value;
use crate::error::{DecodeError, ErrorKind, ErrorModel};
use crate::json::{fail, get_key, json_of, member, mismatch, Json, Number};

verus! {

/// An integer as the wire carries it: a sign and the two halves of a 64-bit
/// magnitude. `len` is carried along and takes no part in the value.
///
/// The format writes the sign as `1` or `-1`. Any other sign that fits in
/// eight bits is read as well, and means this: an identifier refuses it as
/// it refuses `-1`, and a signed integer takes it as a factor, so that a
/// sign of `0` gives zero and a sign of `2` doubles the magnitude, with an
/// overflow where the product leaves the 64-bit range.
#[derive(Clone, Copy, Debug, PartialEq, Eq, Structural)]
pub struct BigInt {
    pub sign: i8,
    pub int_lo: u32,
    pub int_hi: u32,
    pub len: u8,
}

impl BigInt {
    /// Whether the sign is one of the two that the format writes.
    pub open spec fn canonical(self) -> bool {
        self.sign == 1 || self.sign == -1
    }

    /// The magnitude: the high half above the low half.
    pub open spec fn magnitude(self) -> int {
        self.int_hi as int * 0x1_0000_0000 + self.int_lo as int
    }

    /// The value as an identifier: the magnitude, where the sign is `1`.
    /// Every other sign, `-1` or not, gives nothing.
    pub open spec fn unsigned(self) -> Option<u64> {
        if self.sign == 1 {
            Some(self.magnitude() as u64)
        } else {
            None
        }
    }

    /// The value as a signed integer: the sign times the magnitude, where the
    /// top bit of the high half is clear and the product fits in 64 bits.
    /// With a sign of `1` or `-1` the product always fits; with another
    /// sign it is still the product, where that fits.
    pub open spec fn signed(self) -> Option<i64> {
        let product = self.sign as int * self.magnitude();
        if self.int_hi < 0x8000_0000 && i64::MIN <= product <= i64::MAX {
            Some(product as i64)
        } else {
            None
        }
    }

    /// The native unsigned integer, or `NegativeIdentifier` where the sign
    /// is not `1`.
    pub fn try_into_u64(&self) -> (r: Result<u64, ErrorKind>)
        ensures
            r == match self.unsigned() {
                Some(n) => Ok::<u64, ErrorKind>(n),
                None => Err::<u64, ErrorKind>(ErrorKind::NegativeIdentifier),
            },
            r matches Ok(n) ==> n == self.magnitude(),
    {
        if self.sign != 1 {
            return Err(ErrorKind::NegativeIdentifier);
        }
        let high: u64 = (self.int_hi as u64) * 0x1_0000_0000;
        Ok(high + (self.int_lo as u64))
    }

    /// The native signed integer, or `IntegerOverflow` where the magnitude
    /// reaches 2^63 or the signed value leaves the 64-bit range.
    pub fn try_into_i64(&self) -> (r: Result<i64, ErrorKind>)
        ensures
            r == match self.signed() {
                Some(n) => Ok::<i64, ErrorKind>(n),
                None => Err::<i64, ErrorKind>(ErrorKind::IntegerOverflow),
            },
            r matches Ok(n) ==> n == self.sign * self.magnitude(),
            self.sign == 1 && self.int_hi < 0x8000_0000 ==> r == Ok::<i64, ErrorKind>(
                self.magnitude() as i64,
            ),
            self.sign == -1 && self.int_hi < 0x8000_0000 ==> r == Ok::<i64, ErrorKind>(
                (-self.magnitude()) as i64,
            ),
    {
        if self.int_hi >= 0x8000_0000 {
            return Err(ErrorKind::IntegerOverflow);
        }
        let magnitude: i128 = (self.int_hi as i128) * 0x1_0000_0000 + (self.int_lo as i128);
        let sign: i128 = self.sign as i128;
        assert(-128 * 0x8000_0000_0000_0000 <= sign * magnitude <= 128 * 0x8000_0000_0000_0000)
            by (nonlinear_arith)
            requires
                -128 <= sign <= 127,
                0 <= magnitude < 0x8000_0000_0000_0000,
        ;
        let product: i128 = sign * magnitude;
        assert(sign == 1 ==> product == magnitude) by (nonlinear_arith)
            requires
                product == sign * magnitude,
        ;
        assert(sign == -1 ==> product == -magnitude) by (nonlinear_arith)
            requires
                product == sign * magnitude,
        ;
        if product < (i64::MIN as i128) || product > (i64::MAX as i128) {
            return Err(ErrorKind::IntegerOverflow);
        }
        Ok(product as i64)
    }

    /// Reads the four members of an encoded integer from an object.
    pub fn deserialize(value: &Value) -> (r: Result<BigInt, DecodeError>)
        ensures
            match r {
                Ok(b) => bigint(json_of(*value)) == Ok::<BigInt, ErrorModel>(b),
                Err(e) => bigint(json_of(*value)) == Err::<BigInt, ErrorModel>(e@),
            },
    {
        let sign = value_to_int(value, "sign", -128, 127)?;
        let int_lo = value_to_int(value, "intLo", 0, 0xffff_ffff)?;
        let int_hi = value_to_int(value, "intHi", 0, 0xffff_ffff)?;
        let len = value_to_int(value, "len", 0, 255)?;
        Ok(BigInt { sign: sign as i8, int_lo: int_lo as u32, int_hi: int_hi as u32, len: len as u8 })
    }
}

/// The integer that `j` is, if it is a number without a fraction.
pub open spec fn integer(j: Json) -> Option<int> {
    match j {
        Json::Number(Number::PosInt(n)) => Some(n as int),
        Json::Number(Number::NegInt(i)) => Some(i as int),
        _ => None,
    }
}

/// The member of `j` under `key`, read as an integer between `low` and
/// `high`. A member that is no such integer is a shape mismatch.
pub open spec fn member_int(j: Json, key: Seq<char>, low: int, high: int) -> Result<
    int,
    ErrorModel,
> {
    match member(j, key) {
        Ok(x) => match integer(x) {
            Some(i) => if low <= i <= high {
                Ok(i)
            } else {
                Err(mismatch(x))
            },
            None => Err(mismatch(x)),
        },
        Err(e) => Err(e),
    }
}

/// The encoded integer that the object `j` spells out. Its members are read
/// in the order sign, low half, high half, length, and the first one that is
/// absent or out of range decides the failure.
pub open spec fn bigint(j: Json) -> Result<BigInt, ErrorModel> {
    match member_int(j, "sign"@, -128, 127) {
        Err(e) => Err(e),
        Ok(sign) => match member_int(j, "intLo"@, 0, 0xffff_ffff) {
            Err(e) => Err(e),
            Ok(int_lo) => match member_int(j, "intHi"@, 0, 0xffff_ffff) {
                Err(e) => Err(e),
                Ok(int_hi) => match member_int(j, "len"@, 0, 255) {
                    Err(e) => Err(e),
                    Ok(len) => Ok(
                        BigInt {
                            sign: sign as i8,
                            int_lo: int_lo as u32,
                            int_hi: int_hi as u32,
                            len: len as u8,
                        },
                    ),
                },
            },
        },
    }
}

/// The JSON number that spells the integer `i`.
pub open spec fn whole(i: int) -> Json {
    if i < 0 {
        Json::Number(Number::NegInt(i as i64))
    } else {
        Json::Number(Number::PosInt(i as u64))
    }
}

/// The object that spells out `b` on the wire.
pub open spec fn encoded(b: BigInt) -> Json {
    Json::Object(
        map![
            "sign"@ => whole(b.sign as int),
            "intLo"@ => whole(b.int_lo as int),
            "intHi"@ => whole(b.int_hi as int),
            "len"@ => whole(b.len as int),
        ],
    )
}

/// Reading the object that spells out `b` gives `b` back.
pub proof fn lemma_encoded_reads_back(b: BigInt)
    ensures
        encoded(b) is Object,
        bigint(encoded(b)) == Ok::<BigInt, ErrorModel>(b),
{
    reveal_strlit("sign");
    reveal_strlit("intLo");
    reveal_strlit("intHi");
    reveal_strlit("len");
    assert("intLo"@[3] != "intHi"@[3]);
    assert("sign"@.len() != "intLo"@.len());
    assert("sign"@.len() != "len"@.len());
    assert("len"@.len() != "intLo"@.len());
}

/// Looks up a required key and reads it as an integer between `low` and
/// `high`.
pub fn value_to_int(value: &Value, key: &str, low: i64, high: i64) -> (r: Result<i64, DecodeError>)
    ensures
        match r {
            Ok(i) => member_int(json_of(*value), key@, low as int, high as int) == Ok::<
                int,
                ErrorModel,
            >(i as int),
            Err(e) => member_int(json_of(*value), key@, low as int, high as int) == Err::<
                int,
                ErrorModel,
            >(e@),
        },
{
    let inner = get_key(value, key)?;
    match inner.as_i64() {
        Some(i) => if low <= i && i <= high {
            Ok(i)
        } else {
            Err(fail(ErrorKind::ShapeMismatch, inner))
        },
        None => Err(fail(ErrorKind::ShapeMismatch, inner)),
    }
}

} // verus!
