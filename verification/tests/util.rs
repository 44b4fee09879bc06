use labwc::util::{string_equal, string_is_blank, xstrdup};
use labwc::window::{MIN_VIEW_HEIGHT, MIN_VIEW_WIDTH};

#[test]
fn test_string_is_blank() {
    assert!(string_is_blank(""));
    assert!(string_is_blank("   "));
    assert!(!string_is_blank("hello"));
}

#[test]
fn test_string_equal() {
    assert!(string_equal("hello", "hello"));
    assert!(!string_equal("hello", "world"));
}

#[test]
fn test_xstrdup() {
    assert_eq!(xstrdup(Some("test")), "test");
    assert_eq!(xstrdup(None), "");
}

#[test]
fn test_view_min_max() {
    assert_eq!(MIN_VIEW_WIDTH, 100);
    assert_eq!(MIN_VIEW_HEIGHT, 60);
}
