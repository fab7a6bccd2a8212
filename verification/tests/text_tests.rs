use hashmaker::text::{clamp_u32, str_eq};

#[test]
fn str_eq_compares_contents() {
    assert!(str_eq("abc", "abc"));
    assert!(!str_eq("abc", "abd"));
    assert!(!str_eq("abc", "ab"));
    assert!(str_eq("", ""));
}

#[test]
fn clamp_limits_to_range() {
    assert_eq!(clamp_u32(0, 4, 31), 4);
    assert_eq!(clamp_u32(12, 4, 31), 12);
    assert_eq!(clamp_u32(99, 4, 31), 31);
}
