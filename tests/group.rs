use cats::{Group, Inverse, Magma, Monoid};

#[test]
fn test_group() {
    assert_eq!(i32::combine(1, 2), 3);
    assert_eq!(i32::combine_all(vec![1, 2, 3]), 6);
    assert_eq!(i32::remove(3, 2), 1);
    assert_eq!(i32::is_inverse(1, -1), true);
}

#[test]
fn inverse_law_on_values() {
    assert_eq!(7_i32.combine(i32::inverse(7)), 0);
    assert_eq!(i32::inverse(i32::MIN), i32::MIN);
    assert_eq!(u8::inverse(1), 255);
    assert_eq!(5_u8.combine(u8::inverse(5)), 0);
    assert!(u64::is_inverse(3, u64::MAX - 2));
    assert!(!i16::is_inverse(3, 3));
    assert_eq!(u32::remove(2, 3), u32::MAX);
}
