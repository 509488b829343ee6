//! Column types as the server resolves them, and the values they carry.

use vstd::prelude::*;
use crate::wire::{base, le_bytes, as_unsigned};

verus! {

/// A 256-bit signed integer, its bytes most significant first.
#[derive(Clone, Copy, Debug, PartialEq, Eq)]
pub struct I256(pub [u8; 32]);

/// A 256-bit unsigned integer, its bytes most significant first.
#[derive(Clone, Copy, Debug, PartialEq, Eq)]
pub struct U256(pub [u8; 32]);

/// A calendar date as a count of days since 1970-01-01.
#[derive(Clone, Copy, Debug, PartialEq, Eq)]
pub struct Date(pub u16);

/// Seconds since the Unix epoch, with the time zone of the column.
#[derive(Clone, Debug, PartialEq, Eq)]
pub struct DateTime(pub String, pub u32);

/// The type of a column.
///
/// The composite types are known to the type system but have no scalar wire
/// form: the codec refuses them.
#[derive(Debug, PartialEq, Eq)]
pub enum Type {
    Int8,
    Int16,
    Int32,
    Int64,
    Int128,
    Int256,
    UInt8,
    UInt16,
    UInt32,
    UInt64,
    UInt128,
    UInt256,
    Float32,
    Float64,
    /// Carries the scale: the number of fractional decimal digits.
    Decimal32(usize),
    Decimal64(usize),
    Decimal128(usize),
    Decimal256(usize),
    Uuid,
    Date,
    /// Carries the time zone name.
    DateTime(String),
    /// Carries the sub-second precision and the time zone name.
    DateTime64(usize, String),
    /// Carries the symbol table, name to tag.
    Enum8(Vec<(String, i8)>),
    Enum16(Vec<(String, i16)>),
    String,
    FixedString(usize),
    Array(Box<Type>),
    Nullable(Box<Type>),
    MapOf(Box<Type>, Box<Type>),
    LowCardinality(Box<Type>),
}

/// One decoded cell, tagged like the type it was read with.
///
/// Floats are held as their raw bit patterns: turning them into numbers is
/// left to the consumer.
#[derive(Clone, Debug, PartialEq, Eq)]
pub enum Value {
    Int8(i8),
    Int16(i16),
    Int32(i32),
    Int64(i64),
    Int128(i128),
    Int256(I256),
    UInt8(u8),
    UInt16(u16),
    UInt32(u32),
    UInt64(u64),
    UInt128(u128),
    UInt256(U256),
    Float32(u32),
    Float64(u64),
    /// Scale, then the unscaled integer.
    Decimal32(usize, i32),
    Decimal64(usize, i64),
    Decimal128(usize, i128),
    Decimal256(usize, I256),
    Uuid(u128),
    Date(Date),
    DateTime(DateTime),
    /// Time zone, precision, then the raw count of sub-second ticks.
    DateTime64(String, usize, u64),
    Enum8(i8),
    Enum16(i16),
}

/// Why a value could not be read or written.
#[derive(Clone, Copy, Debug, PartialEq, Eq)]
pub enum CodecError {
    /// The input ended before the value's last byte.
    Truncated,
    /// The type has no scalar wire form.
    Unsupported,
    /// The value is not of the type it was to be written as.
    Mismatch,
}

/// The number of bytes a value of type `t` takes on the wire, or `None` for a
/// type without a scalar wire form.
pub open spec fn width_of(t: Type) -> Option<nat> {
    match t {
        Type::Int8 | Type::UInt8 | Type::Enum8(_) => Some(1),
        Type::Int16 | Type::UInt16 | Type::Date | Type::Enum16(_) => Some(2),
        Type::Int32 | Type::UInt32 | Type::Float32 | Type::Decimal32(_)
        | Type::DateTime(_) => Some(4),
        Type::Int64 | Type::UInt64 | Type::Float64 | Type::Decimal64(_)
        | Type::DateTime64(_, _) => Some(8),
        Type::Int128 | Type::UInt128 | Type::Decimal128(_) | Type::Uuid => Some(16),
        Type::Int256 | Type::UInt256 | Type::Decimal256(_) => Some(32),
        _ => None,
    }
}

/// `v` is a value of type `t`, with the type's scale, precision and time
/// zone where it has them.
pub open spec fn value_matches(v: Value, t: Type) -> bool {
    match (v, t) {
        (Value::Int8(_), Type::Int8) => true,
        (Value::Int16(_), Type::Int16) => true,
        (Value::Int32(_), Type::Int32) => true,
        (Value::Int64(_), Type::Int64) => true,
        (Value::Int128(_), Type::Int128) => true,
        (Value::Int256(_), Type::Int256) => true,
        (Value::UInt8(_), Type::UInt8) => true,
        (Value::UInt16(_), Type::UInt16) => true,
        (Value::UInt32(_), Type::UInt32) => true,
        (Value::UInt64(_), Type::UInt64) => true,
        (Value::UInt128(_), Type::UInt128) => true,
        (Value::UInt256(_), Type::UInt256) => true,
        (Value::Float32(_), Type::Float32) => true,
        (Value::Float64(_), Type::Float64) => true,
        (Value::Decimal32(s, _), Type::Decimal32(ts)) => s == ts,
        (Value::Decimal64(s, _), Type::Decimal64(ts)) => s == ts,
        (Value::Decimal128(s, _), Type::Decimal128(ts)) => s == ts,
        (Value::Decimal256(s, _), Type::Decimal256(ts)) => s == ts,
        (Value::Uuid(_), Type::Uuid) => true,
        (Value::Date(_), Type::Date) => true,
        (Value::DateTime(d), Type::DateTime(tz)) => d.0@ == tz@,
        (Value::DateTime64(tz, p, _), Type::DateTime64(tp, ttz)) => tz@ == ttz@ && p == tp,
        (Value::Enum8(_), Type::Enum8(_)) => true,
        (Value::Enum16(_), Type::Enum16(_)) => true,
        _ => false,
    }
}

/// `a` and `b` are the same value: equal in every field, time zones equal
/// as text.
pub open spec fn same_value(a: Value, b: Value) -> bool {
    match (a, b) {
        (Value::DateTime(x), Value::DateTime(y)) => x.0@ == y.0@ && x.1 == y.1,
        (Value::DateTime64(tx, px, x), Value::DateTime64(ty, py, y)) => tx@ == ty@ && px == py
            && x == y,
        _ => a == b,
    }
}

/// The `n`-byte little-endian form of the signed integer `v`.
pub open spec fn signed_le(v: int, n: nat) -> Seq<u8> {
    le_bytes(as_unsigned(v, n), n)
}

/// 2^64, the weight of an identifier's high half.
pub open spec fn half_base() -> nat {
    base(8)
}

/// The wire form of a value: little-endian integers, 256-bit integers with
/// their big-endian bytes reversed, identifiers as the high then the low 64
/// bits. Scale, precision and time zone belong to the type and are not sent.
pub open spec fn wire_of(v: Value) -> Seq<u8> {
    match v {
        Value::Int8(x) => signed_le(x as int, 1),
        Value::Int16(x) => signed_le(x as int, 2),
        Value::Int32(x) => signed_le(x as int, 4),
        Value::Int64(x) => signed_le(x as int, 8),
        Value::Int128(x) => signed_le(x as int, 16),
        Value::Int256(x) => x.0@.reverse(),
        Value::UInt8(x) => le_bytes(x as nat, 1),
        Value::UInt16(x) => le_bytes(x as nat, 2),
        Value::UInt32(x) => le_bytes(x as nat, 4),
        Value::UInt64(x) => le_bytes(x as nat, 8),
        Value::UInt128(x) => le_bytes(x as nat, 16),
        Value::UInt256(x) => x.0@.reverse(),
        Value::Float32(x) => le_bytes(x as nat, 4),
        Value::Float64(x) => le_bytes(x as nat, 8),
        Value::Decimal32(_, x) => signed_le(x as int, 4),
        Value::Decimal64(_, x) => signed_le(x as int, 8),
        Value::Decimal128(_, x) => signed_le(x as int, 16),
        Value::Decimal256(_, x) => x.0@.reverse(),
        Value::Uuid(x) => le_bytes(x as nat / half_base(), 8) + le_bytes(
            x as nat % half_base(),
            8,
        ),
        Value::Date(d) => le_bytes(d.0 as nat, 2),
        Value::DateTime(d) => le_bytes(d.1 as nat, 4),
        Value::DateTime64(_, _, x) => le_bytes(x as nat, 8),
        Value::Enum8(x) => signed_le(x as int, 1),
        Value::Enum16(x) => signed_le(x as int, 2),
    }
}

/// Reading type `t` from the front of `input` takes `n` bytes and gives `v`:
/// `v` is of type `t` and its wire form is exactly those bytes.
pub open spec fn decodes(t: Type, input: Seq<u8>, v: Value, n: nat) -> bool {
    &&& width_of(t) == Some(n)
    &&& n <= input.len()
    &&& value_matches(v, t)
    &&& wire_of(v) == input.subrange(0, n as int)
}

} // verus!
