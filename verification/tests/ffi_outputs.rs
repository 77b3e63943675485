use boxdd::ffi_vec::{ffi_output_capacity, ffi_output_count, try_map_outputs};
use boxdd::Error;

#[test]
fn zero_request_clears_without_calling_native_fill() {
    assert_eq!(ffi_output_capacity(0), Ok(0));
    assert_eq!(ffi_output_count(0, 0), Ok(0));
}

#[test]
fn negative_request_is_rejected_after_clearing() {
    assert_eq!(
        ffi_output_capacity(-1),
        Err(Error::NegativeFfiOutputCapacity { capacity: -1 })
    );
}

#[test]
fn negative_native_count_is_rejected_without_committing_length() {
    assert_eq!(ffi_output_count(-1, 2), Err(Error::NegativeFfiOutputCount { count: -1 }));
}

#[test]
fn excessive_native_count_is_rejected_without_committing_length() {
    assert_eq!(
        ffi_output_count(3, 2),
        Err(Error::FfiOutputCountExceedsCapacity { count: 3, capacity: 2 })
    );
}

#[test]
fn exact_and_excess_capacity_expose_only_initialized_values() {
    assert_eq!(ffi_output_capacity(10), Ok(10));
    assert_eq!(ffi_output_count(10, 10), Ok(10));
    assert_eq!(ffi_output_count(4, 10), Ok(4));
}

#[test]
fn mapped_read_discards_partial_output_on_error() {
    let raw = vec![1i32, 2];
    let error = try_map_outputs(&raw, |raw: i32| {
        if raw == 2 {
            Err(Error::WrongWorld)
        } else {
            Ok(i64::from(raw))
        }
    })
    .unwrap_err();
    assert_eq!(error, Error::WrongWorld);
}

#[test]
fn mapped_read_supports_a_different_safe_layout() {
    let raw = vec![(0i32, 2u16), (1, 2)];
    let out = try_map_outputs(&raw, |(index, world)| Ok([i64::from(index), i64::from(world), 17])).unwrap();
    assert_eq!(out, vec![[0, 2, 17], [1, 2, 17]]);
}
