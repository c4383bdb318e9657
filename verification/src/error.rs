//! What a failed decode reports.

use vstd::prelude::*;

verus! {

/// Why a value could not be decoded.
#[derive(Clone, Copy, Debug, PartialEq, Eq, Structural)]
pub enum ErrorKind {
    /// The value does not have the shape that its type code asks for.
    ShapeMismatch,
    /// An identifier was written with a sign other than `1`.
    NegativeIdentifier,
    /// A signed integer does not fit in 64 bits.
    IntegerOverflow,
    /// An object lacks a key that the format requires.
    MissingKey,
}

impl ErrorKind {
    /// The sentence that says what went wrong.
    pub open spec fn text(self) -> Seq<char> {
        match self {
            ErrorKind::ShapeMismatch => "value does not have the shape its type asks for"@,
            ErrorKind::NegativeIdentifier => "BigInt was negative"@,
            ErrorKind::IntegerOverflow => "BigInt overflowed"@,
            ErrorKind::MissingKey => "object lacks a required key"@,
        }
    }

    /// The sentence that says what went wrong.
    pub fn message(&self) -> (r: &'static str)
        ensures
            r@ == self.text(),
    {
        match self {
            ErrorKind::ShapeMismatch => "value does not have the shape its type asks for",
            ErrorKind::NegativeIdentifier => "BigInt was negative",
            ErrorKind::IntegerOverflow => "BigInt overflowed",
            ErrorKind::MissingKey => "object lacks a required key",
        }
    }
}

/// The shape of the value at which decoding stopped.
#[derive(Clone, Copy, Debug, PartialEq, Eq, Structural)]
pub enum Unexpected {
    /// `null`
    Null,
    /// `true` or `false`
    Bool,
    /// An integer above `i64::MAX`.
    Unsigned,
    /// An integer that fits in `i64`.
    Signed,
    /// A number that is no 64-bit integer.
    Float,
    /// A string.
    Str,
    /// An array.
    Array,
    /// An object.
    Object,
}

/// A failed decode: the kind of failure, the shape of the offending value,
/// and the indices of the array elements that were entered on the way to it,
/// outermost first.
#[derive(Clone, Debug, PartialEq, Eq)]
pub struct DecodeError {
    pub kind: ErrorKind,
    pub found: Unexpected,
    pub path: Vec<usize>,
}

/// The mathematical content of a [`DecodeError`].
pub struct ErrorModel {
    pub kind: ErrorKind,
    pub found: Unexpected,
    pub path: Seq<usize>,
}

impl ErrorModel {
    /// A failure at the value itself, with no array entered yet.
    pub open spec fn here(kind: ErrorKind, found: Unexpected) -> ErrorModel {
        ErrorModel { kind, found, path: Seq::empty() }
    }

    /// The same failure, seen from the array that holds the offending value
    /// at position `index`.
    pub open spec fn within(self, index: usize) -> ErrorModel {
        ErrorModel { kind: self.kind, found: self.found, path: seq![index] + self.path }
    }
}

impl View for DecodeError {
    type V = ErrorModel;

    open spec fn view(&self) -> ErrorModel {
        ErrorModel { kind: self.kind, found: self.found, path: self.path@ }
    }
}

impl DecodeError {
    /// A failure at the value itself.
    pub fn new(kind: ErrorKind, found: Unexpected) -> (e: DecodeError)
        ensures
            e@ == ErrorModel::here(kind, found),
    {
        DecodeError { kind, found, path: Vec::new() }
    }

    /// Records that the offending value lies in element `index` of an array.
    pub fn within(self, index: usize) -> (e: DecodeError)
        ensures
            e@ == self@.within(index),
    {
        let mut path = self.path;
        path.insert(0, index);
        assert(path@ =~= seq![index] + self.path@);
        DecodeError { kind: self.kind, found: self.found, path }
    }
}

} // verus!
