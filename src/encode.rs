//! Writing one value in the wire form of a given type.

use vstd::prelude::*;
use crate::decode::fixed_width;
use crate::types::{CodecError, Type, Value, half_base, signed_le, value_matches, width_of, wire_of};
use crate::wire::{fits_signed, lemma_base_values, to_unsigned, write_le};

verus! {

/// Appends the `n`-byte little-endian two's-complement form of `x`.
fn write_signed(out: &mut Vec<u8>, x: i128, n: usize)
    requires
        1 <= n <= 16,
        fits_signed(x as int, n as nat),
    ensures
        final(out)@ == old(out)@ + signed_le(x as int, n as nat),
{
    let u = to_unsigned(x, n);
    write_le(out, u, n);
}

/// Appends the bytes of a most significant first 256-bit integer in wire
/// order, that is reversed.
fn write_reversed_32(out: &mut Vec<u8>, a: &[u8; 32])
    ensures
        final(out)@ == old(out)@ + a@.reverse(),
{
    let ghost start = old(out)@;
    let mut i: usize = 0;
    while i < 32
        invariant
            i <= 32,
            a@.len() == 32,
            out@ == start + a@.reverse().subrange(0, i as int),
        decreases 32 - i,
    {
        out.push(a[31 - i]);
        i = i + 1;
        assert(out@ =~= start + a@.reverse().subrange(0, i as int));
    }
    assert(a@.reverse().subrange(0, 32) =~= a@.reverse());
}

/// Appends an identifier: the high 64 bits, then the low 64 bits.
fn write_uuid(out: &mut Vec<u8>, x: u128)
    ensures
        final(out)@ == old(out)@ + wire_of(Value::Uuid(x)),
{
    proof {
        lemma_base_values();
    }
    let high = x / 0x1_0000_0000_0000_0000;
    let low = x % 0x1_0000_0000_0000_0000;
    proof {
        let b = half_base();
        assert(high < b) by (nonlinear_arith)
            requires
                high == x as nat / b,
                x < b * b,
                b > 0,
        ;
    }
    write_le(out, high, 8);
    write_le(out, low, 8);
    assert(out@ =~= old(out)@ + wire_of(Value::Uuid(x)));
}

/// Whether `v` is a value of type `t`, with the type's scale, precision and
/// time zone.
fn matches_type(v: &Value, t: &Type) -> (r: bool)
    ensures
        r == value_matches(*v, *t),
{
    match (v, t) {
        (Value::Int8(_), Type::Int8) => true,
        (Value::Int16(_), Type::Int16) => true,
        (Value::Int32(_), Type::Int32) => true,
        (Value::Int64(_), Type::Int64) => true,
        (Value::Int128(_), Type::Int128) => true,
        (Value::Int256(_), Type::Int256) => true,
        (Value::UInt8(_), Type::UInt8) => true,
        (Value::UInt16(_), Type::UInt16) => true,
        (Value::UInt32(_), Type::UInt32) => true,
        (Value::UInt64(_), Type::UInt64) => true,
        (Value::UInt128(_), Type::UInt128) => true,
        (Value::UInt256(_), Type::UInt256) => true,
        (Value::Float32(_), Type::Float32) => true,
        (Value::Float64(_), Type::Float64) => true,
        (Value::Decimal32(s, _), Type::Decimal32(ts)) => *s == *ts,
        (Value::Decimal64(s, _), Type::Decimal64(ts)) => *s == *ts,
        (Value::Decimal128(s, _), Type::Decimal128(ts)) => *s == *ts,
        (Value::Decimal256(s, _), Type::Decimal256(ts)) => *s == *ts,
        (Value::Uuid(_), Type::Uuid) => true,
        (Value::Date(_), Type::Date) => true,
        (Value::DateTime(d), Type::DateTime(tz)) => d.0 == *tz,
        (Value::DateTime64(tz, p, _), Type::DateTime64(tp, ttz)) => *tz == *ttz && *p == *tp,
        (Value::Enum8(_), Type::Enum8(_)) => true,
        (Value::Enum16(_), Type::Enum16(_)) => true,
        _ => false,
    }
}

/// The stateless writer of fixed-width values.
pub struct SizedSerializer;

impl SizedSerializer {
    /// Appends the wire form of `value`, written as type `type_`, to `out`.
    ///
    /// A type without a scalar wire form gives `Unsupported`; a value that is
    /// not of the type, or carries another scale, precision or time zone,
    /// gives `Mismatch`. On error nothing is written.
    #[verifier::rlimit(40)]
    pub fn write(value: &Value, type_: &Type, out: &mut Vec<u8>) -> (r: Result<(), CodecError>)
        ensures
            match r {
                Ok(()) => final(out)@ == old(out)@ + wire_of(*value),
                Err(e) => final(out)@ == old(out)@ && match width_of(*type_) {
                    None => e == CodecError::Unsupported,
                    Some(_) => e == CodecError::Mismatch,
                },
            },
            r is Ok <==> value_matches(*value, *type_),
    {
        if fixed_width(type_).is_none() {
            return Err(CodecError::Unsupported);
        }
        if !matches_type(value, type_) {
            return Err(CodecError::Mismatch);
        }
        proof {
            lemma_base_values();
        }
        match value {
            Value::Int8(x) => write_signed(out, *x as i128, 1),
            Value::Int16(x) => write_signed(out, *x as i128, 2),
            Value::Int32(x) => write_signed(out, *x as i128, 4),
            Value::Int64(x) => write_signed(out, *x as i128, 8),
            Value::Int128(x) => write_signed(out, *x, 16),
            Value::Int256(x) => write_reversed_32(out, &x.0),
            Value::UInt8(x) => write_le(out, *x as u128, 1),
            Value::UInt16(x) => write_le(out, *x as u128, 2),
            Value::UInt32(x) => write_le(out, *x as u128, 4),
            Value::UInt64(x) => write_le(out, *x as u128, 8),
            Value::UInt128(x) => write_le(out, *x, 16),
            Value::UInt256(x) => write_reversed_32(out, &x.0),
            Value::Float32(x) => write_le(out, *x as u128, 4),
            Value::Float64(x) => write_le(out, *x as u128, 8),
            Value::Decimal32(_, x) => write_signed(out, *x as i128, 4),
            Value::Decimal64(_, x) => write_signed(out, *x as i128, 8),
            Value::Decimal128(_, x) => write_signed(out, *x, 16),
            Value::Decimal256(_, x) => write_reversed_32(out, &x.0),
            Value::Uuid(x) => write_uuid(out, *x),
            Value::Date(d) => write_le(out, d.0 as u128, 2),
            Value::DateTime(d) => write_le(out, d.1 as u128, 4),
            Value::DateTime64(_, _, x) => write_le(out, *x as u128, 8),
            Value::Enum8(x) => write_signed(out, *x as i128, 1),
            Value::Enum16(x) => write_signed(out, *x as i128, 2),
        }
        Ok(())
    }
}

} // verus!
