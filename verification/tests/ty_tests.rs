use rustaria::{checked_add_signed_u32, checked_add_signed_u8, Error};

#[test]
fn add_signed_u32_in_range() {
    assert_eq!(checked_add_signed_u32(10, 5), Some(15));
    assert_eq!(checked_add_signed_u32(10, -5), Some(5));
    assert_eq!(checked_add_signed_u32(10, -10), Some(0));
    assert_eq!(checked_add_signed_u32(u32::MAX - 1, 1), Some(u32::MAX));
    assert_eq!(checked_add_signed_u32(0, i32::MAX), Some(i32::MAX as u32));
    assert_eq!(checked_add_signed_u32(u32::MAX, i32::MIN), Some(u32::MAX - 2_147_483_648));
}

#[test]
fn add_signed_u32_out_of_range() {
    assert_eq!(checked_add_signed_u32(10, -11), None);
    assert_eq!(checked_add_signed_u32(0, -1), None);
    assert_eq!(checked_add_signed_u32(u32::MAX, 1), None);
    assert_eq!(checked_add_signed_u32(0, i32::MIN), None);
}

#[test]
fn add_signed_u8_in_and_out_of_range() {
    assert_eq!(checked_add_signed_u8(200, 55), Some(255));
    assert_eq!(checked_add_signed_u8(200, 56), None);
    assert_eq!(checked_add_signed_u8(5, -5), Some(0));
    assert_eq!(checked_add_signed_u8(5, -6), None);
    assert_eq!(checked_add_signed_u8(255, -128), Some(127));
    assert_eq!(checked_add_signed_u8(0, 127), Some(127));
    assert_eq!(checked_add_signed_u8(127, -128), None);
}

#[test]
fn add_signed_agrees_with_wide_arithmetic() {
    for a in 0..=255u8 {
        for b in -128..=127i8 {
            let wide = a as i32 + b as i32;
            let expected = if (0..=255).contains(&wide) { Some(wide as u8) } else { None };
            assert_eq!(checked_add_signed_u8(a, b), expected);
        }
    }
}

#[test]
fn error_message() {
    assert_eq!(Error::OutOfBounds.to_string(), "Coordinates are out of bounds");
}
