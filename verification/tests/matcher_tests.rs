//! Tests for matchers.

use bazzounquester::matcher::Matcher;

#[test]
fn test_matcher_equals() {
    let matcher = Matcher::equals(200);
    assert!(matcher.matches("200"));
    assert!(!matcher.matches("404"));
}

#[test]
fn test_matcher_equals_str() {
    let matcher = Matcher::equals_str("success");
    assert!(matcher.matches("success"));
    assert!(!matcher.matches("failure"));
}

#[test]
fn test_matcher_not_equals() {
    let matcher = Matcher::not_equals(404);
    assert!(matcher.matches("200"));
    assert!(!matcher.matches("404"));
}

#[test]
fn test_matcher_contains() {
    let matcher = Matcher::contains("json".to_string());
    assert!(matcher.matches("application/json"));
    assert!(!matcher.matches("text/html"));
}

#[test]
fn test_matcher_not_contains() {
    let matcher = Matcher::not_contains("error".to_string());
    assert!(matcher.matches("success"));
    assert!(!matcher.matches("error occurred"));
}

#[test]
fn test_matcher_starts_with() {
    let matcher = Matcher::starts_with("http".to_string());
    assert!(matcher.matches("https://example.com"));
    assert!(!matcher.matches("ftp://example.com"));
}

#[test]
fn test_matcher_ends_with() {
    let matcher = Matcher::ends_with(".json".to_string());
    assert!(matcher.matches("data.json"));
    assert!(!matcher.matches("data.xml"));
}

#[test]
fn test_matcher_regex() {
    let matcher = Matcher::regex(r"^\d{3}$".to_string());
    assert!(matcher.matches("200"));
    assert!(matcher.matches("404"));
    assert!(!matcher.matches("20"));
    assert!(!matcher.matches("2000"));
}

#[test]
fn test_matcher_invalid_regex_never_matches() {
    let matcher = Matcher::regex("(unclosed".to_string());
    assert!(!matcher.matches("anything"));
    assert!(!matcher.matches(""));
}

#[test]
fn test_matcher_less_than() {
    let matcher = Matcher::less_than(1000);
    assert!(matcher.matches("500"));
    assert!(!matcher.matches("1500"));
    assert!(!matcher.matches("1000"));
}

#[test]
fn test_matcher_less_than_non_numeric() {
    let matcher = Matcher::less_than(1000);
    assert!(!matcher.matches("abc"));
}

#[test]
fn test_matcher_less_than_or_equal() {
    let matcher = Matcher::less_than_or_equal(1000);
    assert!(matcher.matches("500"));
    assert!(matcher.matches("1000"));
    assert!(!matcher.matches("1500"));
}

#[test]
fn test_matcher_greater_than() {
    let matcher = Matcher::greater_than(100);
    assert!(matcher.matches("200"));
    assert!(!matcher.matches("50"));
    assert!(!matcher.matches("100"));
}

#[test]
fn test_matcher_greater_than_or_equal() {
    let matcher = Matcher::greater_than_or_equal(100);
    assert!(matcher.matches("200"));
    assert!(matcher.matches("100"));
    assert!(!matcher.matches("50"));
}

#[test]
fn test_matcher_is_empty() {
    let matcher = Matcher::is_empty();
    assert!(matcher.matches(""));
    assert!(!matcher.matches("content"));
}

#[test]
fn test_matcher_is_not_empty() {
    let matcher = Matcher::is_not_empty();
    assert!(matcher.matches("content"));
    assert!(!matcher.matches(""));
}

#[test]
fn test_matcher_has_length() {
    let matcher = Matcher::has_length(5);
    assert!(matcher.matches("hello"));
    assert!(!matcher.matches("hi"));
}

#[test]
fn test_matcher_is_null() {
    let matcher = Matcher::is_null();
    assert!(matcher.matches(""));
    assert!(matcher.matches("null"));
    assert!(!matcher.matches("value"));
}

#[test]
fn test_matcher_is_not_null() {
    let matcher = Matcher::is_not_null();
    assert!(matcher.matches("value"));
    assert!(!matcher.matches(""));
    assert!(!matcher.matches("null"));
}

#[test]
fn test_matcher_description() {
    assert_eq!(Matcher::equals(200).description(), "equals '200'");
    assert_eq!(
        Matcher::contains("test".to_string()).description(),
        "contains 'test'"
    );
    assert_eq!(Matcher::less_than(100).description(), "< 100");
    assert_eq!(Matcher::is_empty().description(), "is empty");
}

#[test]
fn test_matcher_negative_numbers() {
    let matcher = Matcher::less_than(-5);
    assert!(matcher.matches("-10"));
    assert!(!matcher.matches("-5"));
    assert!(!matcher.matches("0"));
}
