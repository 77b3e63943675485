use boxdd::debug_draw::{checked_native_context, checked_vertex_buffer};
use boxdd_sys::ffi;

fn layout() -> (usize, usize, usize) {
    (
        core::mem::size_of::<ffi::b2Vec2>(),
        core::mem::align_of::<ffi::b2Vec2>(),
        ffi::B2_MAX_POLYGON_VERTICES as usize,
    )
}

#[test]
fn polygon_vertex_buffer_rejects_counts_above_the_box2d_limit() {
    let (size, align, max) = layout();
    // A dangling, well-aligned address: the first multiple of the alignment.
    let dangling = align;
    assert_eq!(checked_vertex_buffer(dangling, max as i32 + 1, size, align, max), None);
    assert_eq!(checked_vertex_buffer(dangling, max as i32, size, align, max), Some(max));
}

#[test]
fn polygon_vertex_buffer_rejects_an_overflowing_address_range() {
    let (size, align, max) = layout();
    let pointer = usize::MAX & !(align - 1);
    assert_eq!(checked_vertex_buffer(pointer, 1, size, align, max), None);
}

#[test]
fn an_empty_vertex_buffer_needs_no_pointer() {
    let (size, align, max) = layout();
    assert_eq!(checked_vertex_buffer(0, 0, size, align, max), Some(0));
    assert_eq!(checked_vertex_buffer(0, 1, size, align, max), None);
    assert_eq!(checked_vertex_buffer(align + 1, 1, size, align, max), None);
    assert_eq!(checked_vertex_buffer(align, -1, size, align, max), None);
    assert_eq!(checked_vertex_buffer(4096, 3, size, align, max), Some(3));
}

#[test]
fn debug_draw_context_rejects_null_and_misaligned_native_pointers() {
    let align = core::mem::align_of::<usize>();
    assert!(!checked_native_context(0, align));
    if align > 1 {
        assert!(!checked_native_context(1, align));
    }
    assert!(checked_native_context(align * 4, align));
}
