//! Decoder for game-object-model node exports.
//!
//! A node export is a JSON document in which every field carries a numeric
//! type code next to its value. This crate turns an already parsed JSON tree
//! into typed values: identifiers and integers (plain numbers, or a
//! sign/low/high big-integer object), booleans, numbers, strings, ordered
//! lists and ordered key/value lists. Every decoder is stated against a
//! mathematical model of the JSON tree and proved to compute exactly what the
//! model says.

pub mod bigint;
pub mod discipline;
pub mod error;
pub mod field;
pub mod json;
pub mod laws;
pub mod record;

pub use bigint::BigInt;
pub use discipline::{Class, CombatStyle, TreeChoice, TreeChoices};
pub use error::{DecodeError, ErrorKind, ErrorModel, Unexpected};
pub use field::{deserialize_with_type, FieldModel, FieldValue, Id, Int, List, LookupList};
pub use json::{Json, Number};
pub use record::{CodeClass, Field, Node, NodeObjPair};
