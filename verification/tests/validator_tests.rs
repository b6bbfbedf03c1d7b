//! Tests for the response validator and the JSON path extractor.

use bazzounquester::assertion::{Assertion, AssertionResult};
use bazzounquester::http::HttpResponse;
use bazzounquester::json;
use bazzounquester::matcher::Matcher;
use bazzounquester::validator::{ResponseValidator, ValidationReport};

fn create_mock_response() -> HttpResponse {
    let headers = vec![
        ("content-type".to_string(), "application/json".to_string()),
        ("x-custom".to_string(), "test-value".to_string()),
    ];
    HttpResponse::new(200, headers, r#"{"status":"ok","count":42}"#.to_string(), 150)
}

#[test]
fn test_validation_report_new() {
    let report = ValidationReport::new();
    assert_eq!(report.total, 0);
    assert_eq!(report.passed, 0);
    assert_eq!(report.failed, 0);
    assert!(report.success);
}

#[test]
fn test_validation_report_add_pass() {
    let mut report = ValidationReport::new();
    let assertion = Assertion::status_code(Matcher::equals(200));
    let result = AssertionResult::pass(assertion, "200".to_string(), "200".to_string());

    report.add_result(result);

    assert_eq!(report.total, 1);
    assert_eq!(report.passed, 1);
    assert_eq!(report.failed, 0);
    assert!(report.success);
}

#[test]
fn test_validation_report_add_fail() {
    let mut report = ValidationReport::new();
    let assertion = Assertion::status_code(Matcher::equals(200));
    let result = AssertionResult::fail(
        assertion,
        "404".to_string(),
        "200".to_string(),
        "Mismatch".to_string(),
    );

    report.add_result(result);

    assert_eq!(report.total, 1);
    assert_eq!(report.passed, 0);
    assert_eq!(report.failed, 1);
    assert!(!report.success);
}

#[test]
fn test_validator_status_code_pass() {
    let validator = ResponseValidator::new();
    let response = create_mock_response();
    let assertions = vec![Assertion::status_code(Matcher::equals(200))];

    let report = validator.validate(&response, &assertions);
    assert!(report.success);
}

#[test]
fn test_validator_status_code_fail() {
    let validator = ResponseValidator::new();
    let response = create_mock_response();
    let assertions = vec![Assertion::status_code(Matcher::equals(404))];

    let report = validator.validate(&response, &assertions);
    assert!(!report.success);
}

#[test]
fn test_validator_header_lookup_is_case_insensitive() {
    let validator = ResponseValidator::new();
    let response = create_mock_response();
    let assertions = vec![Assertion::header(
        "Content-Type".to_string(),
        Matcher::contains("json".to_string()),
    )];

    let report = validator.validate(&response, &assertions);
    assert!(report.success);
}

#[test]
fn test_validator_header_fail() {
    let validator = ResponseValidator::new();
    let response = create_mock_response();
    let assertions = vec![Assertion::header(
        "Content-Type".to_string(),
        Matcher::contains("xml".to_string()),
    )];

    let report = validator.validate(&response, &assertions);
    assert!(!report.success);
}

#[test]
fn test_validator_body_pass() {
    let validator = ResponseValidator::new();
    let response = create_mock_response();
    let assertions = vec![Assertion::body(Matcher::contains("status".to_string()))];

    let report = validator.validate(&response, &assertions);
    assert!(report.success);
}

#[test]
fn test_validator_response_time_pass() {
    let validator = ResponseValidator::new();
    let response = create_mock_response();
    let assertions = vec![Assertion::response_time(Matcher::less_than(1000))];

    let report = validator.validate(&response, &assertions);
    assert!(report.success);
}

#[test]
fn test_validator_json_path_pass() {
    let validator = ResponseValidator::new();
    let response = create_mock_response();
    let assertions = vec![Assertion::json_path(
        "$.status".to_string(),
        Matcher::equals_str("ok"),
    )];

    let report = validator.validate(&response, &assertions);
    assert!(report.success);
}

#[test]
fn test_validator_json_path_numeric() {
    let validator = ResponseValidator::new();
    let response = create_mock_response();
    let assertions = vec![Assertion::json_path("$.count".to_string(), Matcher::equals(42))];

    let report = validator.validate(&response, &assertions);
    assert!(report.success);
}

#[test]
fn test_validator_json_path_bad_body() {
    let validator = ResponseValidator::new();
    let response = HttpResponse::new(200, vec![], "not json".to_string(), 10);
    let assertions = vec![Assertion::json_path(
        "$.status".to_string(),
        Matcher::equals_str("ok"),
    )];

    let report = validator.validate(&response, &assertions);
    assert!(!report.success);
    let err = report.results[0].error_message.clone().unwrap();
    assert!(err.starts_with("Failed to parse response as JSON: "));
}

#[test]
fn test_validator_validate_multiple() {
    let validator = ResponseValidator::new();
    let response = create_mock_response();

    let assertions = vec![
        Assertion::status_code(Matcher::equals(200)),
        Assertion::header("Content-Type".to_string(), Matcher::contains("json".to_string())),
        Assertion::body(Matcher::contains("ok".to_string())),
        Assertion::response_time(Matcher::less_than(1000)),
    ];

    let report = validator.validate(&response, &assertions);

    assert_eq!(report.total, 4);
    assert_eq!(report.passed, 4);
    assert_eq!(report.failed, 0);
    assert!(report.success);
}

#[test]
fn test_validator_validate_with_failures() {
    let validator = ResponseValidator::new();
    let response = create_mock_response();

    let assertions = vec![
        Assertion::status_code(Matcher::equals(200)),
        Assertion::status_code(Matcher::equals(404)),
    ];

    let report = validator.validate(&response, &assertions);

    assert_eq!(report.total, 2);
    assert_eq!(report.passed, 1);
    assert_eq!(report.failed, 1);
    assert!(!report.success);
}

#[test]
fn test_validator_skip_disabled() {
    let validator = ResponseValidator::new();
    let response = create_mock_response();

    let assertions = vec![
        Assertion::status_code(Matcher::equals(200)),
        Assertion::status_code(Matcher::equals(404)).with_enabled(false),
    ];

    let report = validator.validate(&response, &assertions);

    assert_eq!(report.total, 1);
    assert!(report.success);
}

#[test]
fn test_json_path_extraction() {
    let doc = json::parse_json(r#"{"user":{"name":"Alice","id":42}}"#).unwrap();

    assert_eq!(json::extract_json_path(&doc, "$.user.name"), "Alice");
    assert_eq!(json::extract_json_path(&doc, "$.user.id"), "42");
    assert_eq!(json::extract_json_path(&doc, "$.user.missing"), "");
}

#[test]
fn test_json_path_non_object_traversal() {
    let doc = json::parse_json(r#"{"list":[1,2,3]}"#).unwrap();
    assert_eq!(json::extract_json_path(&doc, "$.list.first"), "");
}

#[test]
fn test_json_path_leaf_forms() {
    let doc = json::parse_json(r#"{"a":true,"b":null,"c":{"d":1}}"#).unwrap();
    assert_eq!(json::extract_json_path(&doc, "$.a"), "true");
    assert_eq!(json::extract_json_path(&doc, "$.b"), "null");
    assert_eq!(json::extract_json_path(&doc, "$.c"), r#"{"d":1}"#);
}

#[test]
fn test_report_summary_wording() {
    let validator = ResponseValidator::new();
    let response = create_mock_response();

    let ok = validator.validate(&response, &vec![Assertion::status_code(Matcher::equals(200))]);
    assert_eq!(ok.summary(), "\u{2713} All 1 assertions passed");

    let bad = validator.validate(&response, &vec![Assertion::status_code(Matcher::equals(404))]);
    assert_eq!(bad.summary(), "\u{2717} 1 of 1 assertions failed");
}
