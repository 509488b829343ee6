//! Reading one value of a given type from the front of a byte string.

use vstd::prelude::*;
use crate::types::{CodecError, Date, DateTime, I256, Type, U256, Value, decodes, half_base, signed_le, width_of};
use crate::wire::{base, fits_signed, le_bytes, lemma_base_values, lemma_le_bytes_of_value, lemma_signed_round_trip, read_le, to_signed};

verus! {

/// The number of bytes a value of type `t` takes on the wire, or `None` for a
/// type without a scalar wire form.
pub fn fixed_width(t: &Type) -> (r: Option<usize>)
    ensures
        match width_of(*t) {
            Some(w) => r == Some(w as usize),
            None => r is None,
        },
{
    match t {
        Type::Int8 | Type::UInt8 | Type::Enum8(_) => Some(1),
        Type::Int16 | Type::UInt16 | Type::Date | Type::Enum16(_) => Some(2),
        Type::Int32 | Type::UInt32 | Type::Float32 | Type::Decimal32(_) | Type::DateTime(_) => Some(
            4,
        ),
        Type::Int64 | Type::UInt64 | Type::Float64 | Type::Decimal64(_) | Type::DateTime64(
            _,
            _,
        ) => Some(8),
        Type::Int128 | Type::UInt128 | Type::Decimal128(_) | Type::Uuid => Some(16),
        Type::Int256 | Type::UInt256 | Type::Decimal256(_) => Some(32),
        _ => None,
    }
}

/// Reads the `n`-byte little-endian unsigned integer at the front of `input`.
fn read_unsigned(input: &[u8], n: usize) -> (r: u128)
    requires
        n <= 16,
        n <= input@.len(),
    ensures
        (r as nat) < base(n as nat),
        le_bytes(r as nat, n as nat) == input@.subrange(0, n as int),
{
    let r = read_le(input, 0, n);
    proof {
        lemma_le_bytes_of_value(input@.subrange(0, n as int));
    }
    r
}

/// Reads the `n`-byte little-endian two's-complement integer at the front of
/// `input`.
fn read_signed(input: &[u8], n: usize) -> (r: i128)
    requires
        1 <= n <= 16,
        n <= input@.len(),
    ensures
        fits_signed(r as int, n as nat),
        signed_le(r as int, n as nat) == input@.subrange(0, n as int),
{
    let u = read_unsigned(input, n);
    proof {
        lemma_signed_round_trip(u as nat, 0, n as nat);
    }
    to_signed(u, n)
}

/// Reads 32 bytes in wire order and reverses them into a most significant
/// first array: the wire form of a 256-bit integer.
fn read_reversed_32(input: &[u8]) -> (r: [u8; 32])
    requires
        32 <= input@.len(),
    ensures
        r@.reverse() == input@.subrange(0, 32),
{
    let mut buf = [0u8; 32];
    let mut i: usize = 0;
    while i < 32
        invariant
            i <= 32,
            32 <= input@.len(),
            buf@.len() == 32,
            forall|j: int| 0 <= j < i ==> buf@[j] == input@[31 - j],
        decreases 32 - i,
    {
        buf[i] = input[31 - i];
        i = i + 1;
    }
    assert(buf@.reverse() =~= input@.subrange(0, 32));
    buf
}

/// Reads an identifier: the high 64 bits, then the low 64 bits.
fn read_uuid(input: &[u8]) -> (r: u128)
    requires
        16 <= input@.len(),
    ensures
        le_bytes(r as nat / half_base(), 8) + le_bytes(r as nat % half_base(), 8)
            == input@.subrange(0, 16),
{
    proof {
        lemma_base_values();
    }
    let high = read_le(input, 0, 8);
    let low = read_le(input, 8, 8);
    let r = high * 0x1_0000_0000_0000_0000 + low;
    proof {
        let b = half_base();
        assert(r as nat / b == high as nat && r as nat % b == low as nat) by (nonlinear_arith)
            requires
                r == high * b + low,
                low < b,
                b > 0,
        ;
        let s = input@.subrange(0, 16);
        lemma_le_bytes_of_value(input@.subrange(0, 8));
        lemma_le_bytes_of_value(input@.subrange(8, 16));
        assert(input@.subrange(0, 8) + input@.subrange(8, 16) =~= s);
    }
    r
}

/// The stateless reader of fixed-width values.
pub struct SizedDeserializer;

impl SizedDeserializer {
    /// Reads one value of type `type_` from the front of `input`, returning it
    /// with the number of bytes it took.
    ///
    /// That number is the type's fixed width, whatever the value. Scale,
    /// precision and time zone come from the type unchanged. A type without a
    /// scalar wire form is refused before any byte is looked at; an input
    /// shorter than the width gives `Truncated`.
    #[verifier::rlimit(40)]
    pub fn read(type_: &Type, input: &[u8]) -> (r: Result<(Value, usize), CodecError>)
        ensures
            match r {
                Ok((v, n)) => decodes(*type_, input@, v, n as nat),
                Err(e) => match width_of(*type_) {
                    None => e == CodecError::Unsupported,
                    Some(w) => input@.len() < w && e == CodecError::Truncated,
                },
            },
            r is Ok <==> (width_of(*type_) is Some && width_of(*type_)->0 <= input@.len()),
    {
        let w = match fixed_width(type_) {
            None => return Err(CodecError::Unsupported),
            Some(w) => w,
        };
        if input.len() < w {
            return Err(CodecError::Truncated);
        }
        proof {
            lemma_base_values();
        }
        let v = match type_ {
            Type::Int8 => Value::Int8(read_signed(input, 1) as i8),
            Type::Int16 => Value::Int16(read_signed(input, 2) as i16),
            Type::Int32 => Value::Int32(read_signed(input, 4) as i32),
            Type::Int64 => Value::Int64(read_signed(input, 8) as i64),
            Type::Int128 => Value::Int128(read_signed(input, 16)),
            Type::Int256 => Value::Int256(I256(read_reversed_32(input))),
            Type::UInt8 => Value::UInt8(read_unsigned(input, 1) as u8),
            Type::UInt16 => Value::UInt16(read_unsigned(input, 2) as u16),
            Type::UInt32 => Value::UInt32(read_unsigned(input, 4) as u32),
            Type::UInt64 => Value::UInt64(read_unsigned(input, 8) as u64),
            Type::UInt128 => Value::UInt128(read_unsigned(input, 16)),
            Type::UInt256 => Value::UInt256(U256(read_reversed_32(input))),
            Type::Float32 => Value::Float32(read_unsigned(input, 4) as u32),
            Type::Float64 => Value::Float64(read_unsigned(input, 8) as u64),
            Type::Decimal32(s) => Value::Decimal32(*s, read_signed(input, 4) as i32),
            Type::Decimal64(s) => Value::Decimal64(*s, read_signed(input, 8) as i64),
            Type::Decimal128(s) => Value::Decimal128(*s, read_signed(input, 16)),
            Type::Decimal256(s) => Value::Decimal256(*s, I256(read_reversed_32(input))),
            Type::Uuid => Value::Uuid(read_uuid(input)),
            Type::Date => Value::Date(Date(read_unsigned(input, 2) as u16)),
            Type::DateTime(tz) => Value::DateTime(
                DateTime(tz.clone(), read_unsigned(input, 4) as u32),
            ),
            Type::DateTime64(precision, tz) => Value::DateTime64(
                tz.clone(),
                *precision,
                read_unsigned(input, 8) as u64,
            ),
            Type::Enum8(_) => Value::Enum8(read_signed(input, 1) as i8),
            Type::Enum16(_) => Value::Enum16(read_signed(input, 2) as i16),
            _ => return Err(CodecError::Unsupported),
        };
        Ok((v, w))
    }
}

} // verus!
