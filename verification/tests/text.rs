use open_space::text::{contains_text, decimal_string, same_text, starts_with};

#[test]
fn decimal_notation() {
    assert_eq!(decimal_string(0), "0");
    assert_eq!(decimal_string(7), "7");
    assert_eq!(decimal_string(10), "10");
    assert_eq!(decimal_string(4_294_967_295), "4294967295");
}

#[test]
fn substring_and_prefix() {
    assert!(contains_text("my btop session", "btop"));
    assert!(!contains_text("top", "btop"));
    assert!(contains_text("abc", ""));
    assert!(starts_with("Virtual Screen 3", "Virtual Screen"));
    assert!(!starts_with("Virtual", "Virtual Screen"));
    assert!(same_text("Terminal", "Terminal"));
    assert!(!same_text("Terminal", "terminal"));
}
