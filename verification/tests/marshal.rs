use signal_dispatch::{ArgumentTuple, DynamicValue, MarshalError, Pointer, PrimitiveValue, TypeTag};
use signal_dispatch::value::default_value;
use signal_dispatch::BorrowedObject;

fn sample_args() -> Vec<DynamicValue> {
    vec![
        DynamicValue::Int(5),
        DynamicValue::Str(String::from("hello")),
        DynamicValue::Object(3),
        DynamicValue::Pointer(0xbeef),
    ]
}

fn sample_shape() -> Vec<TypeTag> {
    vec![TypeTag::Int, TypeTag::Str, TypeTag::Object, TypeTag::Pointer]
}

#[test]
fn from_values_round_trips() {
    let args = sample_args();
    let shape = sample_shape();
    let tuple = ArgumentTuple::from_values(&args, &shape).unwrap();
    let rebuilt = tuple.to_values();
    assert_eq!(rebuilt, args);
    let again = ArgumentTuple::from_values(&rebuilt, &shape).unwrap();
    assert_eq!(again, tuple);
}

#[test]
fn empty_tuple_always_succeeds() {
    let tuple = ArgumentTuple::from_values(&[], &[]).unwrap();
    assert_eq!(tuple.len(), 0);
    assert_eq!(tuple.to_values(), Vec::<DynamicValue>::new());
}

#[test]
fn short_slice_is_arity_mismatch() {
    let args = vec![DynamicValue::Int(5)];
    let shape = sample_shape();
    let err = ArgumentTuple::from_values(&args, &shape).unwrap_err();
    assert_eq!(err, MarshalError::ArityMismatch { expected: 4, actual: 1 });
}

#[test]
fn long_slice_is_arity_mismatch() {
    let args = sample_args();
    let shape = vec![TypeTag::Int];
    let err = ArgumentTuple::from_values(&args, &shape).unwrap_err();
    assert_eq!(err, MarshalError::ArityMismatch { expected: 1, actual: 4 });
}

#[test]
fn wrong_tag_is_type_mismatch_at_first_position() {
    let args = vec![
        DynamicValue::Int(5),
        DynamicValue::Int(6),
        DynamicValue::Int(7),
    ];
    let shape = vec![TypeTag::Int, TypeTag::Str, TypeTag::Object];
    let err = ArgumentTuple::from_values(&args, &shape).unwrap_err();
    assert_eq!(
        err,
        MarshalError::TypeMismatch { position: 1, expected: TypeTag::Str, actual: TypeTag::Int }
    );
}

#[test]
fn tuple_exposes_values_in_order() {
    let args = sample_args();
    let tuple = ArgumentTuple::from_values(&args, &sample_shape()).unwrap();
    assert_eq!(tuple.len(), 4);
    assert_eq!(*tuple.get(0), DynamicValue::Int(5));
    assert_eq!(*tuple.get(1), DynamicValue::Str(String::from("hello")));
    assert_eq!(*tuple.get(3), DynamicValue::Pointer(0xbeef));
}

#[test]
fn unit_return_converts_to_no_value() {
    assert_eq!(PrimitiveValue(()).to_value_option(), None);
}

#[test]
fn integer_returns_convert_to_values() {
    assert_eq!(
        PrimitiveValue(9i64).to_value_option(),
        Some(DynamicValue::Int(9))
    );
    assert_eq!(
        PrimitiveValue(4usize).to_value_option(),
        Some(DynamicValue::Int(4))
    );
}

#[test]
fn default_values_per_tag() {
    assert_eq!(default_value(TypeTag::Unit), None);
    assert_eq!(default_value(TypeTag::Int), Some(DynamicValue::Int(0)));
    assert_eq!(default_value(TypeTag::Str), Some(DynamicValue::Str(String::new())));
    assert_eq!(default_value(TypeTag::Object), None);
    assert_eq!(default_value(TypeTag::Pointer), Some(DynamicValue::Pointer(0)));
}

#[test]
fn pointer_carries_its_address() {
    let p = Pointer(0x1234);
    assert_eq!(p.as_ptr(), 0x1234);
    assert_eq!(p.as_ptr_mut(), 0x1234);
    assert_eq!(p.into_inner(), 0x1234);
}

#[test]
fn borrowed_object_hands_value_back() {
    let b = BorrowedObject::forget(41u64);
    assert_eq!(*b.get(), 41);
    let c = b.copy_ref();
    assert_eq!(c.into_inner(), 41);
    assert_eq!(b.into_inner(), 41);
}
