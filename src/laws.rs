//! What holds of the reader and the writer together.

use vstd::prelude::*;
use crate::types::{Type, Value, decodes, half_base, same_value, signed_le, value_matches, width_of, wire_of};
use crate::wire::{as_unsigned, fits_signed, le_bytes, lemma_base_values, lemma_le_bytes_injective, lemma_le_bytes_len, lemma_signed_round_trip};

verus! {

proof fn lemma_signed_le_facts(x: int, y: int, n: nat)
    requires
        n >= 1,
        fits_signed(x, n),
        fits_signed(y, n),
    ensures
        signed_le(x, n).len() == n,
        signed_le(x, n) == signed_le(y, n) ==> x == y,
{
    lemma_signed_round_trip(0, x, n);
    lemma_signed_round_trip(0, y, n);
    lemma_le_bytes_len(as_unsigned(x, n), n);
    if signed_le(x, n) == signed_le(y, n) {
        lemma_le_bytes_injective(as_unsigned(x, n), as_unsigned(y, n), n);
    }
}

proof fn lemma_reversed_facts(a: [u8; 32], b: [u8; 32])
    ensures
        a@.reverse().len() == 32,
        a@.reverse() == b@.reverse() ==> a == b,
{
    if a@.reverse() == b@.reverse() {
        assert forall|i: int| 0 <= i < 32 implies a[i] == b[i] by {
            assert(a@.reverse()[31 - i] == b@.reverse()[31 - i]);
        }
        assert(a =~= b);
    }
}

proof fn lemma_uuid_facts(x: u128, y: u128)
    ensures
        wire_of(Value::Uuid(x)).len() == 16,
        wire_of(Value::Uuid(x)) == wire_of(Value::Uuid(y)) ==> x == y,
{
    lemma_base_values();
    let b = half_base();
    let (hx, lx, hy, ly) = (x as nat / b, x as nat % b, y as nat / b, y as nat % b);
    assert(hx < b && hy < b && lx < b && ly < b && x == hx * b + lx && y == hy * b + ly)
        by (nonlinear_arith)
        requires
            hx == x as nat / b,
            lx == x as nat % b,
            hy == y as nat / b,
            ly == y as nat % b,
            x < b * b,
            y < b * b,
            b > 0,
    ;
    lemma_le_bytes_len(hx, 8);
    lemma_le_bytes_len(lx, 8);
    lemma_le_bytes_len(hy, 8);
    lemma_le_bytes_len(ly, 8);
    let wx = wire_of(Value::Uuid(x));
    let wy = wire_of(Value::Uuid(y));
    if wx == wy {
        assert(wx.subrange(0, 8) =~= le_bytes(hx, 8));
        assert(wy.subrange(0, 8) =~= le_bytes(hy, 8));
        assert(wx.subrange(8, 16) =~= le_bytes(lx, 8));
        assert(wy.subrange(8, 16) =~= le_bytes(ly, 8));
        lemma_le_bytes_injective(hx, hy, 8);
        lemma_le_bytes_injective(lx, ly, 8);
    }
}

/// Fixed width: a value of a type is written in exactly the type's width,
/// whatever its magnitude.
pub proof fn lemma_wire_width(v: Value, t: Type)
    requires
        value_matches(v, t),
    ensures
        width_of(t) == Some(wire_of(v).len()),
{
    lemma_base_values();
    match v {
        Value::Int8(x) => lemma_signed_le_facts(x as int, x as int, 1),
        Value::Int16(x) => lemma_signed_le_facts(x as int, x as int, 2),
        Value::Int32(x) => lemma_signed_le_facts(x as int, x as int, 4),
        Value::Int64(x) => lemma_signed_le_facts(x as int, x as int, 8),
        Value::Int128(x) => lemma_signed_le_facts(x as int, x as int, 16),
        Value::Int256(x) => lemma_reversed_facts(x.0, x.0),
        Value::UInt8(x) => lemma_le_bytes_len(x as nat, 1),
        Value::UInt16(x) => lemma_le_bytes_len(x as nat, 2),
        Value::UInt32(x) => lemma_le_bytes_len(x as nat, 4),
        Value::UInt64(x) => lemma_le_bytes_len(x as nat, 8),
        Value::UInt128(x) => lemma_le_bytes_len(x as nat, 16),
        Value::UInt256(x) => lemma_reversed_facts(x.0, x.0),
        Value::Float32(x) => lemma_le_bytes_len(x as nat, 4),
        Value::Float64(x) => lemma_le_bytes_len(x as nat, 8),
        Value::Decimal32(_, x) => lemma_signed_le_facts(x as int, x as int, 4),
        Value::Decimal64(_, x) => lemma_signed_le_facts(x as int, x as int, 8),
        Value::Decimal128(_, x) => lemma_signed_le_facts(x as int, x as int, 16),
        Value::Decimal256(_, x) => lemma_reversed_facts(x.0, x.0),
        Value::Uuid(x) => lemma_uuid_facts(x, x),
        Value::Date(d) => lemma_le_bytes_len(d.0 as nat, 2),
        Value::DateTime(d) => lemma_le_bytes_len(d.1 as nat, 4),
        Value::DateTime64(_, _, x) => lemma_le_bytes_len(x as nat, 8),
        Value::Enum8(x) => lemma_signed_le_facts(x as int, x as int, 1),
        Value::Enum16(x) => lemma_signed_le_facts(x as int, x as int, 2),
    }
}

/// Two values of one type with the same wire form are the same value: the
/// wire form of a type loses nothing.
pub proof fn lemma_wire_injective(v: Value, w: Value, t: Type)
    requires
        value_matches(v, t),
        value_matches(w, t),
        wire_of(v) == wire_of(w),
    ensures
        same_value(v, w),
{
    lemma_base_values();
    match (v, w) {
        (Value::Int8(x), Value::Int8(y)) => lemma_signed_le_facts(x as int, y as int, 1),
        (Value::Int16(x), Value::Int16(y)) => lemma_signed_le_facts(x as int, y as int, 2),
        (Value::Int32(x), Value::Int32(y)) => lemma_signed_le_facts(x as int, y as int, 4),
        (Value::Int64(x), Value::Int64(y)) => lemma_signed_le_facts(x as int, y as int, 8),
        (Value::Int128(x), Value::Int128(y)) => lemma_signed_le_facts(x as int, y as int, 16),
        (Value::Int256(x), Value::Int256(y)) => lemma_reversed_facts(x.0, y.0),
        (Value::UInt8(x), Value::UInt8(y)) => lemma_le_bytes_injective(x as nat, y as nat, 1),
        (Value::UInt16(x), Value::UInt16(y)) => lemma_le_bytes_injective(x as nat, y as nat, 2),
        (Value::UInt32(x), Value::UInt32(y)) => lemma_le_bytes_injective(x as nat, y as nat, 4),
        (Value::UInt64(x), Value::UInt64(y)) => lemma_le_bytes_injective(x as nat, y as nat, 8),
        (Value::UInt128(x), Value::UInt128(y)) => lemma_le_bytes_injective(
            x as nat,
            y as nat,
            16,
        ),
        (Value::UInt256(x), Value::UInt256(y)) => lemma_reversed_facts(x.0, y.0),
        (Value::Float32(x), Value::Float32(y)) => lemma_le_bytes_injective(x as nat, y as nat, 4),
        (Value::Float64(x), Value::Float64(y)) => lemma_le_bytes_injective(x as nat, y as nat, 8),
        (Value::Decimal32(_, x), Value::Decimal32(_, y)) => lemma_signed_le_facts(
            x as int,
            y as int,
            4,
        ),
        (Value::Decimal64(_, x), Value::Decimal64(_, y)) => lemma_signed_le_facts(
            x as int,
            y as int,
            8,
        ),
        (Value::Decimal128(_, x), Value::Decimal128(_, y)) => lemma_signed_le_facts(
            x as int,
            y as int,
            16,
        ),
        (Value::Decimal256(_, x), Value::Decimal256(_, y)) => lemma_reversed_facts(x.0, y.0),
        (Value::Uuid(x), Value::Uuid(y)) => lemma_uuid_facts(x, y),
        (Value::Date(x), Value::Date(y)) => lemma_le_bytes_injective(x.0 as nat, y.0 as nat, 2),
        (Value::DateTime(x), Value::DateTime(y)) => lemma_le_bytes_injective(
            x.1 as nat,
            y.1 as nat,
            4,
        ),
        (Value::DateTime64(_, _, x), Value::DateTime64(_, _, y)) => lemma_le_bytes_injective(
            x as nat,
            y as nat,
            8,
        ),
        (Value::Enum8(x), Value::Enum8(y)) => lemma_signed_le_facts(x as int, y as int, 1),
        (Value::Enum16(x), Value::Enum16(y)) => lemma_signed_le_facts(x as int, y as int, 2),
        _ => {},
    }
}

/// Round trip: reading type `t` from the wire form of a value `v` of that
/// type, whatever bytes follow, takes exactly the type's width and gives `v`
/// back: `v` is a possible result, and every possible result is `v`.
pub proof fn lemma_round_trip(v: Value, t: Type, rest: Seq<u8>)
    requires
        value_matches(v, t),
    ensures
        decodes(t, wire_of(v) + rest, v, wire_of(v).len()),
        forall|w: Value, n: nat|
            decodes(t, wire_of(v) + rest, w, n) ==> n == wire_of(v).len() && same_value(w, v),
{
    lemma_wire_width(v, t);
    let input = wire_of(v) + rest;
    assert(input.subrange(0, wire_of(v).len() as int) =~= wire_of(v));
    assert forall|w: Value, n: nat| decodes(t, input, w, n) implies n == wire_of(v).len()
        && same_value(w, v) by {
        lemma_wire_injective(w, v, t);
    }
}

} // verus!
