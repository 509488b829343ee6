use klickhouse::decode::{fixed_width, SizedDeserializer};
use klickhouse::encode::SizedSerializer;
use klickhouse::types::{CodecError, Date, DateTime, Type, Value, I256, U256};

fn encode(v: &Value, t: &Type) -> Vec<u8> {
    let mut out = Vec::new();
    SizedSerializer::write(v, t, &mut out).expect("value matches its type");
    out
}

fn check_round_trip(v: Value, t: Type) {
    let bytes = encode(&v, &t);
    assert_eq!(Some(bytes.len()), fixed_width(&t));
    let mut stream = bytes.clone();
    stream.extend_from_slice(&[0xAA, 0xBB, 0xCC]);
    let (back, n) = SizedDeserializer::read(&t, &stream).expect("decodes");
    assert_eq!(back, v);
    assert_eq!(n, bytes.len());
}

fn wide(last: u8, fill: u8) -> [u8; 32] {
    let mut a = [fill; 32];
    a[31] = last;
    a
}

#[test]
fn round_trip_signed_boundaries() {
    for x in [0i8, 1, -1, i8::MIN, i8::MAX] {
        check_round_trip(Value::Int8(x), Type::Int8);
        check_round_trip(Value::Enum8(x), Type::Enum8(vec![("a".to_string(), 1)]));
    }
    for x in [0i16, 1, -1, i16::MIN, i16::MAX] {
        check_round_trip(Value::Int16(x), Type::Int16);
        check_round_trip(Value::Enum16(x), Type::Enum16(vec![]));
    }
    for x in [0i32, 1, -1, i32::MIN, i32::MAX] {
        check_round_trip(Value::Int32(x), Type::Int32);
        check_round_trip(Value::Decimal32(2, x), Type::Decimal32(2));
    }
    for x in [0i64, 1, -1, i64::MIN, i64::MAX] {
        check_round_trip(Value::Int64(x), Type::Int64);
        check_round_trip(Value::Decimal64(9, x), Type::Decimal64(9));
    }
    for x in [0i128, 1, -1, i128::MIN, i128::MAX] {
        check_round_trip(Value::Int128(x), Type::Int128);
        check_round_trip(Value::Decimal128(20, x), Type::Decimal128(20));
    }
}

#[test]
fn round_trip_unsigned_boundaries() {
    for x in [0u8, 1, u8::MAX] {
        check_round_trip(Value::UInt8(x), Type::UInt8);
    }
    for x in [0u16, 1, u16::MAX] {
        check_round_trip(Value::UInt16(x), Type::UInt16);
        check_round_trip(Value::Date(Date(x)), Type::Date);
    }
    for x in [0u32, 1, u32::MAX] {
        check_round_trip(Value::UInt32(x), Type::UInt32);
        check_round_trip(Value::Float32(x), Type::Float32);
        check_round_trip(Value::DateTime(DateTime("UTC".to_string(), x)), Type::DateTime("UTC".to_string()));
    }
    for x in [0u64, 1, u64::MAX] {
        check_round_trip(Value::UInt64(x), Type::UInt64);
        check_round_trip(Value::Float64(x), Type::Float64);
        check_round_trip(
            Value::DateTime64("Europe/Berlin".to_string(), 3, x),
            Type::DateTime64(3, "Europe/Berlin".to_string()),
        );
    }
    for x in [0u128, 1, u128::MAX] {
        check_round_trip(Value::UInt128(x), Type::UInt128);
        check_round_trip(Value::Uuid(x), Type::Uuid);
    }
}

#[test]
fn round_trip_wide_boundaries() {
    let samples = [wide(0, 0), wide(1, 0), wide(0xFF, 0xFF), wide(0xFF, 0x7F), wide(0, 0x80)];
    for a in samples {
        check_round_trip(Value::Int256(I256(a)), Type::Int256);
        check_round_trip(Value::UInt256(U256(a)), Type::UInt256);
        check_round_trip(Value::Decimal256(4, I256(a)), Type::Decimal256(4));
    }
}

#[test]
fn fixed_widths_per_type() {
    let cases: Vec<(Type, usize)> = vec![
        (Type::Int8, 1),
        (Type::UInt8, 1),
        (Type::Enum8(vec![]), 1),
        (Type::Int16, 2),
        (Type::UInt16, 2),
        (Type::Date, 2),
        (Type::Enum16(vec![]), 2),
        (Type::Int32, 4),
        (Type::UInt32, 4),
        (Type::Float32, 4),
        (Type::Decimal32(1), 4),
        (Type::DateTime("UTC".to_string()), 4),
        (Type::Int64, 8),
        (Type::UInt64, 8),
        (Type::Float64, 8),
        (Type::Decimal64(1), 8),
        (Type::DateTime64(6, "UTC".to_string()), 8),
        (Type::Int128, 16),
        (Type::UInt128, 16),
        (Type::Decimal128(1), 16),
        (Type::Uuid, 16),
        (Type::Int256, 32),
        (Type::UInt256, 32),
        (Type::Decimal256(1), 32),
    ];
    let input = [0x5Au8; 40];
    for (t, w) in cases {
        assert_eq!(fixed_width(&t), Some(w));
        let (_, n) = SizedDeserializer::read(&t, &input).expect("decodes");
        assert_eq!(n, w);
    }
}

#[test]
fn wide_integer_one_is_reversed_on_the_wire() {
    let one = wide(1, 0);
    let bytes = encode(&Value::Int256(I256(one)), &Type::Int256);
    let mut reversed = one;
    reversed.reverse();
    assert_eq!(bytes, reversed.to_vec());
    assert_eq!(bytes[0], 1);
    assert!(bytes[1..].iter().all(|b| *b == 0));
    let (back, n) = SizedDeserializer::read(&Type::Int256, &bytes).unwrap();
    assert_eq!(back, Value::Int256(I256(one)));
    assert_eq!(n, 32);
}

#[test]
fn identifier_halves_compose_high_first() {
    let mut input = Vec::new();
    input.extend_from_slice(&0x0102030405060708u64.to_le_bytes());
    input.extend_from_slice(&0x1112131415161718u64.to_le_bytes());
    let (v, n) = SizedDeserializer::read(&Type::Uuid, &input).unwrap();
    assert_eq!(v, Value::Uuid(0x0102030405060708_1112131415161718));
    assert_eq!(n, 16);
    assert_eq!(encode(&v, &Type::Uuid), input);
}

#[test]
fn decimal_scale_passes_through() {
    let input = 12345i64.to_le_bytes();
    let (v, n) = SizedDeserializer::read(&Type::Decimal64(3), &input).unwrap();
    assert_eq!(v, Value::Decimal64(3, 12345));
    assert_eq!(n, 8);
}

#[test]
fn short_input_is_truncated() {
    let input = [1u8, 2, 3, 4];
    assert_eq!(SizedDeserializer::read(&Type::Int64, &input), Err(CodecError::Truncated));
    assert_eq!(SizedDeserializer::read(&Type::Uuid, &[0u8; 15]), Err(CodecError::Truncated));
    assert_eq!(SizedDeserializer::read(&Type::Int8, &[]), Err(CodecError::Truncated));
}

#[test]
fn composite_types_are_unsupported() {
    let input = [0u8; 64];
    let composites = vec![
        Type::Array(Box::new(Type::Int32)),
        Type::Nullable(Box::new(Type::Int8)),
        Type::MapOf(Box::new(Type::String), Box::new(Type::UInt64)),
        Type::LowCardinality(Box::new(Type::String)),
        Type::String,
        Type::FixedString(4),
    ];
    for t in composites {
        assert_eq!(fixed_width(&t), None);
        assert_eq!(SizedDeserializer::read(&t, &input), Err(CodecError::Unsupported));
        assert_eq!(SizedDeserializer::read(&t, &[]), Err(CodecError::Unsupported));
        let mut out = vec![9u8];
        assert_eq!(SizedSerializer::write(&Value::Int8(1), &t, &mut out), Err(CodecError::Unsupported));
        assert_eq!(out, vec![9u8]);
    }
}

#[test]
fn mismatched_value_is_refused() {
    let mut out = vec![7u8];
    assert_eq!(SizedSerializer::write(&Value::Int8(1), &Type::UInt8, &mut out), Err(CodecError::Mismatch));
    assert_eq!(SizedSerializer::write(&Value::Decimal64(2, 5), &Type::Decimal64(3), &mut out), Err(CodecError::Mismatch));
    assert_eq!(
        SizedSerializer::write(&Value::DateTime(DateTime("UTC".to_string(), 0)), &Type::DateTime("Asia/Tokyo".to_string()), &mut out),
        Err(CodecError::Mismatch)
    );
    assert_eq!(
        SizedSerializer::write(&Value::DateTime64("UTC".to_string(), 3, 0), &Type::DateTime64(6, "UTC".to_string()), &mut out),
        Err(CodecError::Mismatch)
    );
    assert_eq!(out, vec![7u8]);
}

#[test]
fn exact_wire_bytes() {
    assert_eq!(encode(&Value::Int16(-2), &Type::Int16), vec![0xFE, 0xFF]);
    assert_eq!(encode(&Value::UInt32(0x01020304), &Type::UInt32), vec![4, 3, 2, 1]);
    assert_eq!(encode(&Value::Int8(i8::MIN), &Type::Int8), vec![0x80]);
    assert_eq!(encode(&Value::Int128(-1), &Type::Int128), vec![0xFF; 16]);
    assert_eq!(encode(&Value::Float64(1.5f64.to_bits()), &Type::Float64), 1.5f64.to_bits().to_le_bytes().to_vec());
    let (v, _) = SizedDeserializer::read(&Type::Float32, &2.5f32.to_bits().to_le_bytes()).unwrap();
    assert_eq!(v, Value::Float32(2.5f32.to_bits()));
    let (v, _) = SizedDeserializer::read(&Type::Int32, &[0xFF, 0xFF, 0xFF, 0x80]).unwrap();
    assert_eq!(v, Value::Int32(i32::MIN + 0xFF_FFFF));
}

#[test]
fn time_zone_and_precision_come_from_the_type() {
    let t = Type::DateTime64(9, "America/New_York".to_string());
    let (v, n) = SizedDeserializer::read(&t, &42u64.to_le_bytes()).unwrap();
    assert_eq!(v, Value::DateTime64("America/New_York".to_string(), 9, 42));
    assert_eq!(n, 8);
    let (v, _) = SizedDeserializer::read(&Type::DateTime("UTC".to_string()), &[1, 0, 0, 0, 9]).unwrap();
    assert_eq!(v, Value::DateTime(DateTime("UTC".to_string(), 1)));
}
