use boxdd::events::{check_ffi_slice, clone_into, extend_mapped, prepare_mapped};
use boxdd::Error;

#[test]
fn empty_null_slice_is_valid_and_broken_pairs_are_rejected() {
    assert_eq!(check_ffi_slice(0, 0, 4, 4), Ok(0));
    assert_eq!(
        check_ffi_slice(0, 1, 4, 4),
        Err(Error::InvalidNativeEventBuffer)
    );
    assert_eq!(
        check_ffi_slice(0, -1, 4, 4),
        Err(Error::NegativeFfiOutputCount { count: -1 })
    );
}

#[test]
fn mapped_and_cloned_buffers_grow_then_reuse_capacity() {
    let source = (0_u32..10).collect::<Vec<_>>();

    let mut mapped = Vec::with_capacity(8);
    prepare_mapped(&mut mapped, source.len()).unwrap();
    extend_mapped(&mut mapped, &source, |value: u32| Ok(value)).unwrap();
    assert_eq!(mapped, source);
    let mapped_allocation = mapped.as_ptr();
    prepare_mapped(&mut mapped, source.len()).unwrap();
    extend_mapped(&mut mapped, &source, |value: u32| Ok(value)).unwrap();
    assert_eq!(mapped.as_ptr(), mapped_allocation);

    let mut cloned = Vec::with_capacity(8);
    clone_into(&source, &mut cloned).unwrap();
    assert_eq!(cloned, source);
    let cloned_allocation = cloned.as_ptr();
    clone_into(&source, &mut cloned).unwrap();
    assert_eq!(cloned.as_ptr(), cloned_allocation);
}

#[test]
fn a_refused_mapping_leaves_no_partial_output() {
    let source = [1_u32, 2, 3, 4];
    let mut mapped = vec![100_u32];
    let result = extend_mapped(&mut mapped, &source, |value: u32| {
        if value == 3 {
            Err(Error::InvalidShapeId)
        } else {
            Ok(value * 10)
        }
    });
    assert_eq!(result, Err(Error::InvalidShapeId));
    assert!(mapped.is_empty());

    let mut mapped = vec![100_u32];
    extend_mapped(&mut mapped, &source, |value: u32| Ok(value * 10)).unwrap();
    assert_eq!(mapped, vec![100, 10, 20, 30, 40]);
}
