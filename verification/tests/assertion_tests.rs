//! Tests for assertions and their results.

use bazzounquester::assertion::{Assertion, AssertionResult, AssertionType};
use bazzounquester::matcher::Matcher;

#[test]
fn test_assertion_status_code() {
    let assertion = Assertion::status_code(Matcher::equals(200));
    assert_eq!(assertion.assertion_type, AssertionType::StatusCode);
    assert!(assertion.enabled);
}

#[test]
fn test_assertion_header() {
    let assertion = Assertion::header(
        "Content-Type".to_string(),
        Matcher::contains("json".to_string()),
    );
    match assertion.assertion_type {
        AssertionType::Header(ref name) => assert_eq!(name, "Content-Type"),
        _ => panic!("Wrong assertion type"),
    }
}

#[test]
fn test_assertion_body() {
    let assertion = Assertion::body(Matcher::contains("success".to_string()));
    assert_eq!(assertion.assertion_type, AssertionType::Body);
}

#[test]
fn test_assertion_response_time() {
    let assertion = Assertion::response_time(Matcher::less_than(1000));
    assert_eq!(assertion.assertion_type, AssertionType::ResponseTime);
}

#[test]
fn test_assertion_json_path() {
    let assertion = Assertion::json_path("$.status".to_string(), Matcher::equals_str("ok"));
    match assertion.assertion_type {
        AssertionType::JsonPath(ref path) => assert_eq!(path, "$.status"),
        _ => panic!("Wrong assertion type"),
    }
}

#[test]
fn test_assertion_with_description() {
    let assertion = Assertion::status_code(Matcher::equals(200))
        .with_description("Status should be 200 OK".to_string());

    assert_eq!(
        assertion.description,
        Some("Status should be 200 OK".to_string())
    );
}

#[test]
fn test_assertion_with_enabled() {
    let assertion = Assertion::status_code(Matcher::equals(200)).with_enabled(false);
    assert!(!assertion.enabled);
}

#[test]
fn test_assertion_result_pass() {
    let assertion = Assertion::status_code(Matcher::equals(200));
    let result = AssertionResult::pass(assertion, "200".to_string(), "200".to_string());

    assert!(result.passed);
    assert!(result.error_message.is_none());
}

#[test]
fn test_assertion_result_fail() {
    let assertion = Assertion::status_code(Matcher::equals(200));
    let result = AssertionResult::fail(
        assertion,
        "404".to_string(),
        "200".to_string(),
        "Status code mismatch".to_string(),
    );

    assert!(!result.passed);
    assert!(result.error_message.is_some());
}

#[test]
fn test_assertion_result_summary_pass() {
    let assertion = Assertion::status_code(Matcher::equals(200))
        .with_description("Check status".to_string());
    let result = AssertionResult::pass(assertion, "200".to_string(), "200".to_string());

    let summary = result.summary();
    assert!(summary.contains("\u{2713}"));
    assert!(summary.contains("PASS"));
}

#[test]
fn test_assertion_result_summary_fail() {
    let assertion = Assertion::status_code(Matcher::equals(200))
        .with_description("Check status".to_string());
    let result = AssertionResult::fail(
        assertion,
        "404".to_string(),
        "200".to_string(),
        "Mismatch".to_string(),
    );

    let summary = result.summary();
    assert!(summary.contains("\u{2717}"));
    assert!(summary.contains("FAIL"));
    assert!(summary.contains("404"));
}

#[test]
fn test_validate_response_empty() {
    let assertions: Vec<Assertion> = vec![];
    assert_eq!(assertions.len(), 0);
}
