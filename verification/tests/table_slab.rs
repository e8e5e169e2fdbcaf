//! Tests of symbol registration, function specialization, and slab layout.

use hot_eval::binding::{Binding, FnSpecCallArg};
use hot_eval::errors::CommonError;
use hot_eval::slab::{Slab, SlabBindingInfo};
use hot_eval::table::Table;
use hot_eval::value::Value;
use hot_eval::value_type::ValueType;

#[test]
fn duplicate_binding_is_rejected() {
    let mut table = Table::new();
    table.add_variable("x".to_string(), ValueType::U32).unwrap();
    match table.add_const("x".to_string(), Value::U8 { inner: 1 }) {
        Err(CommonError::BindingAlreadyExists { name }) => assert_eq!(name, "x"),
        other => panic!("expected BindingAlreadyExists, got {:?}", other),
    }
}

#[test]
fn hidden_states_are_numbered_in_order() {
    let mut table = Table::new();
    assert_eq!(table.add_hidden_state(ValueType::U32), 0);
    assert_eq!(table.add_ptr_hidden_state(), 1);
    assert_eq!(table.get_hidden_state_count(), 2);
    assert_eq!(table.get_hidden_state(0), Some(ValueType::U32));
    assert_eq!(table.get_hidden_state(1), Some(ValueType::USize));
    assert_eq!(table.get_hidden_state(2), None);
}

#[test]
fn plain_function_registration() {
    let mut table = Table::new();
    table.add_function_2::<u32, u32, u16>("f".to_string(), 0xbeef).unwrap();
    match table.get_binding(&"f".to_string()) {
        Some(Binding::Function { ret_type, params, call_args, fn_ptr }) => {
            assert_eq!(*ret_type, ValueType::U32);
            assert_eq!(params.as_slice(), &[ValueType::U32, ValueType::U16]);
            assert_eq!(call_args.len(), 2);
            assert!(matches!(call_args[0], FnSpecCallArg::MappedArgument { param_idx: 0 }));
            assert!(matches!(call_args[1], FnSpecCallArg::MappedArgument { param_idx: 1 }));
            assert_eq!(*fn_ptr, 0xbeef);
        },
        other => panic!("expected function binding, got {:?}", other),
    }
}

#[test]
fn specialized_function_registration() {
    let mut table = Table::new();
    let h = table.add_ptr_hidden_state();
    // physical params (u32, u32, usize); expression-level params: just p2
    table
        .add_function_3_map::<u32, u32, u32, usize>(
            "g".to_string(),
            0x1000,
            FnSpecCallArg::ConstArgument { value: Value::U32 { inner: 3 } },
            FnSpecCallArg::MappedArgument { param_idx: 0 },
            FnSpecCallArg::from_hidden_state(h),
        )
        .unwrap();
    match table.get_binding(&"g".to_string()) {
        Some(Binding::Function { ret_type, params, call_args, .. }) => {
            assert_eq!(*ret_type, ValueType::U32);
            // one expression-level parameter, at the mapped position's type
            assert_eq!(params.as_slice(), &[ValueType::U32]);
            assert_eq!(call_args.len(), 3);
        },
        other => panic!("expected function binding, got {:?}", other),
    }
}

#[test]
fn conflicting_param_mapping_is_rejected() {
    let mut table = Table::new();
    // parameter index 0 claimed at u32 by the first position and at u16 by the
    // second: a conflict
    let r = table.add_function_2_map::<u32, u32, u16>(
        "g".to_string(),
        0x1000,
        FnSpecCallArg::MappedArgument { param_idx: 0 },
        FnSpecCallArg::MappedArgument { param_idx: 0 },
    );
    match r {
        Err(CommonError::FuncSpecArgParamIndexConflict { idx, new_type, existing_type }) => {
            assert_eq!(idx, 0);
            assert_eq!(new_type, ValueType::U16);
            assert_eq!(existing_type, ValueType::U32);
        },
        other => panic!("expected FuncSpecArgParamIndexConflict, got {:?}", other),
    }
}

#[test]
fn discontinuous_param_mapping_is_rejected() {
    let mut table = Table::new();
    // only parameter index 1 is mapped; index 0 is missing
    let r = table.add_function_1_map::<u32, u32>(
        "g".to_string(),
        0x1000,
        FnSpecCallArg::MappedArgument { param_idx: 1 },
    );
    match r {
        Err(CommonError::FuncSpecArgDiscontinuousParamMap { max_idx, missing_idx }) => {
            assert_eq!(max_idx, 0);
            assert_eq!(missing_idx, 0);
        },
        other => panic!("expected FuncSpecArgDiscontinuousParamMap, got {:?}", other),
    }
}

#[test]
fn bad_guard_type_is_rejected() {
    let mut table = Table::new();
    // constant u16 bound at a u32 position
    let r = table.add_function_1_map::<u32, u32>(
        "g".to_string(),
        0x1000,
        FnSpecCallArg::ConstArgument { value: Value::U16 { inner: 1 } },
    );
    match r {
        Err(CommonError::FuncSpecArgBadType { expected, got }) => {
            assert_eq!(expected, ValueType::U32);
            assert_eq!(got, ValueType::U16);
        },
        other => panic!("expected FuncSpecArgBadType, got {:?}", other),
    }
}

fn sample_table() -> Table {
    let mut table = Table::new();
    table.add_hidden_state(ValueType::USize);
    table.add_const("c".to_string(), Value::I32 { inner: 5 }).unwrap();
    table.add_variable("x".to_string(), ValueType::U32).unwrap();
    table.add_variable("y".to_string(), ValueType::F64).unwrap();
    table
}

#[test]
fn slab_layout_from_table() {
    let table = sample_table();
    let slab = Slab::from_table(&table).unwrap();
    assert_eq!(slab.get_hidden_state_count(), 1);
    assert_eq!(slab.get_hidden_state_type(0), Some(ValueType::USize));
    assert_eq!(slab.get_hidden_state_type(1), None);
    // hidden state takes slot 0; variables get 1 and 2 in insertion order
    assert_eq!(slab.get_binding_index(&"x".to_string()), Some(1));
    assert_eq!(slab.get_binding_index(&"y".to_string()), Some(2));
    // constants get no slot
    assert!(slab.get_binding_index(&"c".to_string()).is_none());
    assert!(slab.get_binding_info(&"nope".to_string()).is_none());
    match slab.get_binding_info(&"x".to_string()) {
        Some(SlabBindingInfo::Variable { idx, value_type }) => {
            assert_eq!(*idx, 1);
            assert_eq!(*value_type, ValueType::U32);
        },
        other => panic!("expected variable info, got {:?}", other),
    }
    assert_eq!(slab.slot_count(), 3);
}

#[test]
fn slab_layout_is_deterministic() {
    // two identical registration sequences give identical slot assignments
    let s1 = Slab::from_table(&sample_table()).unwrap();
    let s2 = Slab::from_table(&sample_table()).unwrap();
    assert_eq!(s1.get_hidden_state_count(), s2.get_hidden_state_count());
    for name in ["x", "y"] {
        assert_eq!(
            s1.get_binding_index(&name.to_string()),
            s2.get_binding_index(&name.to_string())
        );
    }
    assert_eq!(s1.slot_count(), s2.slot_count());
}

#[test]
fn slab_values_round_trip() {
    let table = sample_table();
    let mut slab = Slab::from_table(&table).unwrap();
    // slots start zeroed
    assert_eq!(slab.get_raw(1), 0);
    slab.set_value(1, Value::U32 { inner: 41 });
    assert_eq!(slab.get_value(1, ValueType::U32), Value::U32 { inner: 41 });
    slab.set_value(2, Value::F64 { bits: (-7.0f64).to_bits() });
    assert_eq!(
        slab.get_value(2, ValueType::F64),
        Value::F64 { bits: (-7.0f64).to_bits() }
    );
    slab.set_value(0, Value::USize { inner: 42 });
    assert_eq!(slab.get_raw(0), 42);
    slab.set_raw(0, 1337);
    assert_eq!(slab.get_value(0, ValueType::USize), Value::USize { inner: 1337 });
    // narrow writes overwrite the slot
    slab.set_value(1, Value::I8 { inner: -1 });
    assert_eq!(slab.get_value(1, ValueType::I8), Value::I8 { inner: -1 });
    slab.set_value(1, Value::Bool { inner: true });
    assert_eq!(slab.get_value(1, ValueType::Bool), Value::Bool { inner: true });
}

#[test]
fn slab_addresses_are_distinct_and_stable() {
    let table = sample_table();
    let slab = Slab::from_table(&table).unwrap();
    let a0 = slab.get_address(0);
    let a1 = slab.get_address(1);
    let a2 = slab.get_address(2);
    assert_ne!(a0, a1);
    assert_ne!(a1, a2);
    // addresses do not move while the slab stays put
    assert_eq!(slab.get_address(0), a0);
    assert_eq!(slab.get_address(2), a2);
}
