use boxdd::debug_draw::HexColor;
use boxdd::filter::Filter;
use boxdd::length_scale::LengthScale;
use boxdd::math::{checked_allocated_byte_count, hash_length, RotFromGlamError, Version};
use boxdd::Error;

#[test]
fn adjacent_float_scales_are_not_interchangeable() {
    let expected = LengthScale::from_bits(1.0_f32.to_bits());
    let adjacent = LengthScale::from_bits(1.0_f32.to_bits() + 1);

    assert_eq!(
        expected.check_definition("test", adjacent),
        Err(Error::LengthScaleMismatch {
            operation: "test",
            expected: expected.bits(),
            actual: adjacent.bits(),
        })
    );
    assert_eq!(expected.check_definition("test", expected), Ok(()));
}

#[test]
fn hex_colors_pack_and_mask_rgb() {
    assert_eq!(HexColor::from_rgb(0xDC, 0x31, 0x32).rgb_u32(), 0xDC3132);
    assert_eq!(HexColor::from_rgb_u32(0x12FF_EE8C).rgb_u32(), 0xFFEE8C);
    assert_eq!(HexColor::from_raw(0xFF30_AEBF).into_raw(), 0x30AEBF);
    assert_eq!(HexColor::from_rgb(0, 0, 0xFF).with_alpha(0x80), 0x8000_00FF);
    assert_eq!(HexColor::default().rgb_u32(), 0);
}

#[test]
fn default_filter_matches_box2d() {
    let filter = Filter::default();
    assert_eq!(filter.category_bits, 1);
    assert_eq!(filter.mask_bits, u64::MAX);
    assert_eq!(filter.group_index, 0);
}

#[test]
fn plain_values_compare_by_fields() {
    let v = Version { major: 3, minor: 2, revision: 0 };
    assert_eq!(v, Version { major: 3, minor: 2, revision: 0 });
    assert_ne!(RotFromGlamError::NonFinite, RotFromGlamError::NotPureRotation);
}

#[test]
fn native_helper_integers_are_checked() {
    assert_eq!(checked_allocated_byte_count(0), Ok(0));
    assert_eq!(checked_allocated_byte_count(4096), Ok(4096));
    assert_eq!(checked_allocated_byte_count(-1), Err(boxdd::Error::NegativeAllocatedByteCount { count: -1 }));
    assert_eq!(hash_length(0), Ok(0));
    assert_eq!(hash_length(i32::MAX as usize), Ok(i32::MAX));
    assert_eq!(
        hash_length(i32::MAX as usize + 1),
        Err(boxdd::Error::invalid_argument(
            "hash_bytes",
            "data",
            "a byte slice whose length is representable by a native int",
        ))
    );
}

#[test]
fn a_color_rebuilt_from_its_packed_value_is_the_same_color() {
    let color = HexColor::from_rgb(0x12, 0x34, 0x56);
    assert_eq!(HexColor::from_rgb_u32(color.rgb_u32()), color);
    assert_eq!(HexColor::from_raw(color.into_raw()), color);
}

#[test]
fn named_colors_have_their_packed_values() {
    assert_eq!(HexColor::black().rgb_u32(), 0x000000);
    assert_eq!(HexColor::white().rgb_u32(), 0xFFFFFF);
    assert_eq!(HexColor::red().rgb_u32(), 0xFF0000);
    assert_eq!(HexColor::green().rgb_u32(), 0x00FF00);
    assert_eq!(HexColor::blue().rgb_u32(), 0x0000FF);
    assert_eq!(HexColor::box2d_red(), HexColor::from_rgb(0xDC, 0x31, 0x32));
    assert_eq!(HexColor::box2d_blue().rgb_u32(), 0x30AEBF);
    assert_eq!(HexColor::box2d_green().rgb_u32(), 0x8CC924);
    assert_eq!(HexColor::box2d_yellow().rgb_u32(), 0xFFEE8C);
}
