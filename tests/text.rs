use blog::text::{first_index_of, starts_with, str_eq};

#[test]
fn prefix_and_search() {
    assert!(starts_with("Bearer abc", "Bearer "));
    assert!(!starts_with("Bear", "Bearer "));
    assert!(starts_with("한글", ""));
    assert_eq!(first_index_of("user:pa:ss", ':'), Some(4));
    assert_eq!(first_index_of("한:a", ':'), Some(1));
    assert_eq!(first_index_of("none", ':'), None);
    assert!(str_eq("abc", "abc"));
    assert!(!str_eq("abc", "abd"));
}
