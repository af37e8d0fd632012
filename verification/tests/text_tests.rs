use azoth::example::Ex;
use azoth::http::get_request_text;
use azoth::text::{contains_text, i64_to_decimal, starts_with, u64_to_decimal};

#[test]
fn decimal_rendering_matches_format() {
    for n in [0u64, 7, 10, 99, 100, 1234567890, u64::MAX] {
        assert_eq!(u64_to_decimal(n), format!("{}", n));
    }
    for n in [0i64, -1, 5, -10, 42, i64::MIN, i64::MAX] {
        assert_eq!(i64_to_decimal(n), format!("{}", n));
    }
}

#[test]
fn prefix_and_substring_tests() {
    assert!(starts_with("a1", "a1"));
    assert!(starts_with("a3xyz", "a3"));
    assert!(!starts_with("a", "a1"));
    assert!(starts_with("anything", ""));
    assert!(contains_text("\"boolean\"", "boolean"));
    assert!(!contains_text("\"multiple\"", "boolean"));
    assert!(contains_text("abc", ""));
    assert!(!contains_text("ab", "abc"));
    assert!(contains_text("xxabcxx", "abc"));
}

#[test]
fn get_request_layout() {
    assert_eq!(
        get_request_text("example.com:80", "/index.html"),
        "GET /index.html HTTP/1.1\r\nHost: example.com:80\r\nConnection: close\r\n\r\n"
    );
}

#[test]
fn ex_describes_itself() {
    let ex = Ex::new(-3, "hello".to_string());
    assert_eq!(ex.describe(), "zooweemama param:-3 with param2:hello!");
}
