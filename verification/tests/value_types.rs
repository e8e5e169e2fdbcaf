//! Tests of the scalar type lattice, widening, and literal resolution.

use hot_eval::errors::CommonError;
use hot_eval::float_bits;
use hot_eval::value::{UntypedValue, Value};
use hot_eval::value_type::ValueType;

#[test]
fn priority_ordering() {
    let order = [
        ValueType::Bool,
        ValueType::U8,
        ValueType::I8,
        ValueType::U16,
        ValueType::I16,
        ValueType::U32,
        ValueType::I32,
        ValueType::U64,
        ValueType::I64,
        ValueType::USize,
        ValueType::F32,
        ValueType::F64,
    ];
    for (i, t) in order.iter().enumerate() {
        assert_eq!(t.get_implicit_cast_priority(), i as u32);
    }
}

#[test]
fn signedness_and_floatness() {
    assert!(!ValueType::U64.is_signed());
    assert!(!ValueType::USize.is_signed());
    assert!(!ValueType::Bool.is_signed());
    assert!(ValueType::I8.is_signed());
    assert!(ValueType::F32.is_signed());
    assert!(ValueType::F64.is_float());
    assert!(ValueType::F32.is_float());
    assert!(!ValueType::I64.is_float());
}

#[test]
fn implicit_cast_rules() {
    // unsigned -> larger unsigned
    assert!(ValueType::U8.can_implicit_cast_to(&ValueType::U16));
    // unsigned -> larger signed
    assert!(ValueType::U8.can_implicit_cast_to(&ValueType::I8));
    assert!(ValueType::U32.can_implicit_cast_to(&ValueType::I32));
    // signed -> larger signed
    assert!(ValueType::I8.can_implicit_cast_to(&ValueType::I16));
    // signed -> unsigned is forbidden, even when wider
    assert!(!ValueType::I8.can_implicit_cast_to(&ValueType::U64));
    assert!(!ValueType::I32.can_implicit_cast_to(&ValueType::USize));
    // integers -> floats
    assert!(ValueType::U64.can_implicit_cast_to(&ValueType::F32));
    assert!(ValueType::I64.can_implicit_cast_to(&ValueType::F64));
    // nothing casts downward
    assert!(!ValueType::F64.can_implicit_cast_to(&ValueType::F32));
    assert!(!ValueType::I32.can_implicit_cast_to(&ValueType::U8));
}

#[test]
fn widen_pairs() {
    assert!(matches!(ValueType::widen(ValueType::I32, ValueType::I32), Ok(ValueType::I32)));
    assert!(matches!(ValueType::widen(ValueType::U8, ValueType::I32), Ok(ValueType::I32)));
    assert!(matches!(ValueType::widen(ValueType::I32, ValueType::U8), Ok(ValueType::I32)));
    assert!(matches!(ValueType::widen(ValueType::I32, ValueType::F64), Ok(ValueType::F64)));
    match ValueType::widen(ValueType::I32, ValueType::U64) {
        Err(CommonError::CannotImplicitCast { from, to }) => {
            assert_eq!(from, ValueType::I32);
            assert_eq!(to, ValueType::U64);
        },
        other => panic!("expected CannotImplicitCast, got {:?}", other),
    }
}

#[test]
fn widen_is_commutative_on_samples() {
    let types = [
        ValueType::Bool,
        ValueType::U8,
        ValueType::I8,
        ValueType::U16,
        ValueType::I16,
        ValueType::U32,
        ValueType::I32,
        ValueType::U64,
        ValueType::I64,
        ValueType::USize,
        ValueType::F32,
        ValueType::F64,
    ];
    for a in types.iter() {
        for b in types.iter() {
            let ab = ValueType::widen(*a, *b).ok();
            let ba = ValueType::widen(*b, *a).ok();
            assert_eq!(ab, ba, "widen({:?},{:?})", a, b);
        }
    }
}

#[test]
fn widen_optional_variants() {
    // greedy takes whichever side is present
    assert!(matches!(
        ValueType::widen_optional_greedy(Some(ValueType::I32), None),
        Ok(Some(ValueType::I32))
    ));
    assert!(matches!(
        ValueType::widen_optional_greedy(None, Some(ValueType::F32)),
        Ok(Some(ValueType::F32))
    ));
    assert!(matches!(ValueType::widen_optional_greedy(None, None), Ok(None)));
    // non-greedy demands both
    assert!(matches!(
        ValueType::widen_optional_non_greedy(Some(ValueType::I32), None),
        Ok(None)
    ));
    assert!(matches!(
        ValueType::widen_optional_non_greedy(Some(ValueType::U8), Some(ValueType::I16)),
        Ok(Some(ValueType::I16))
    ));
    assert!(ValueType::widen_optional_non_greedy(Some(ValueType::I32), Some(ValueType::U64))
        .is_err());
}

#[test]
fn to_signed_rules() {
    assert!(matches!(ValueType::U8.to_signed(), Ok(ValueType::I8)));
    assert!(matches!(ValueType::U16.to_signed(), Ok(ValueType::I16)));
    assert!(matches!(ValueType::U32.to_signed(), Ok(ValueType::I32)));
    assert!(matches!(ValueType::U64.to_signed(), Ok(ValueType::I64)));
    assert!(matches!(ValueType::I32.to_signed(), Ok(ValueType::I32)));
    assert!(matches!(ValueType::F64.to_signed(), Ok(ValueType::F64)));
    assert!(matches!(
        ValueType::Bool.to_signed(),
        Err(CommonError::CannotMakeSigned { from: ValueType::Bool })
    ));
    assert!(matches!(
        ValueType::USize.to_signed(),
        Err(CommonError::CannotMakeSigned { from: ValueType::USize })
    ));
}

#[test]
fn value_type_tags() {
    assert_eq!(Value::U32 { inner: 7 }.get_value_type(), ValueType::U32);
    assert_eq!(Value::F64 { bits: 0 }.get_value_type(), ValueType::F64);
    assert_eq!(Value::Bool { inner: true }.get_value_type(), ValueType::Bool);
}

#[test]
fn integer_bits_to_f64_match_hardware() {
    for n in [0u64, 1, 2, 3, 42, 1023, 1 << 52, (1 << 53) - 1, (1 << 53) + 1, u64::MAX, u64::MAX - 1023] {
        assert_eq!(
            float_bits::f64_bits_from_u64(n),
            (n as f64).to_bits(),
            "u64 -> f64 for {}",
            n
        );
    }
}

#[test]
fn integer_bits_to_f32_match_hardware() {
    for n in [0u64, 1, 7, 16_777_215, 16_777_217, 1 << 40, u64::MAX, u64::MAX / 3] {
        assert_eq!(
            float_bits::f32_bits_from_u64(n),
            (n as f32).to_bits(),
            "u64 -> f32 for {}",
            n
        );
    }
}

#[test]
fn narrowing_bits_match_hardware() {
    for x in [0.0f64, 1.0, 2.5, -7.0, 0.1, 3.5e38, 1e39, -1e39, 1e-40, 1e-310, -0.0, f64::INFINITY, f64::NEG_INFINITY] {
        assert_eq!(
            float_bits::f32_bits_from_f64_bits(x.to_bits()),
            (x as f32).to_bits(),
            "f64 -> f32 for {}",
            x
        );
    }
}

#[test]
fn narrowing_nan_is_quiet_nan() {
    let bits = float_bits::f32_bits_from_f64_bits(f64::NAN.to_bits());
    assert!(f32::from_bits(bits).is_nan());
}

#[test]
fn untyped_float_resolution() {
    let v = UntypedValue::Float { bits: 2.5f64.to_bits() };
    assert_eq!(
        v.get_resolved_value(ValueType::F64).unwrap(),
        Value::F64 { bits: 2.5f64.to_bits() }
    );
    assert_eq!(
        v.get_resolved_value(ValueType::F32).unwrap(),
        Value::F32 { bits: 2.5f32.to_bits() }
    );
    assert!(matches!(
        v.get_resolved_value(ValueType::I32),
        Err(CommonError::CannotResolve { .. })
    ));
}

#[test]
fn untyped_integer_resolution() {
    let v = UntypedValue::Integer { inner: 300 };
    assert!(matches!(
        v.get_resolved_value(ValueType::U8),
        Err(CommonError::CannotResolve { .. })
    ));
    assert_eq!(v.get_resolved_value(ValueType::U16).unwrap(), Value::U16 { inner: 300 });
    assert_eq!(v.get_resolved_value(ValueType::I32).unwrap(), Value::I32 { inner: 300 });
    assert_eq!(
        v.get_resolved_value(ValueType::F64).unwrap(),
        Value::F64 { bits: 300.0f64.to_bits() }
    );
    let big = UntypedValue::Integer { inner: u64::MAX };
    assert!(big.get_resolved_value(ValueType::I64).is_err());
    assert_eq!(big.get_resolved_value(ValueType::U64).unwrap(), Value::U64 { inner: u64::MAX });
    assert!(matches!(
        UntypedValue::Integer { inner: 1 }.get_resolved_value(ValueType::Bool),
        Err(CommonError::CannotResolve { .. })
    ));
}
