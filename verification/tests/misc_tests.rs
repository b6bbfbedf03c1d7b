//! Tests for HTTP methods, responses, errors and the history records.

use bazzounquester::error::Error;
use bazzounquester::history::{RequestLog, ResponseLog};
use bazzounquester::http::{HttpMethod, HttpResponse};

#[test]
fn test_http_method_as_str() {
    assert_eq!(HttpMethod::Get.as_str(), "GET");
    assert_eq!(HttpMethod::Post.as_str(), "POST");
    assert_eq!(HttpMethod::Put.as_str(), "PUT");
    assert_eq!(HttpMethod::Delete.as_str(), "DELETE");
    assert_eq!(HttpMethod::Patch.as_str(), "PATCH");
    assert_eq!(HttpMethod::Head.as_str(), "HEAD");
    assert_eq!(HttpMethod::Options.as_str(), "OPTIONS");
}

#[test]
fn test_http_method_from_str() {
    assert_eq!(HttpMethod::from_str("GET").unwrap(), HttpMethod::Get);
    assert_eq!(HttpMethod::from_str("get").unwrap(), HttpMethod::Get);
    assert_eq!(HttpMethod::from_str("post").unwrap(), HttpMethod::Post);
    assert!(HttpMethod::from_str("INVALID").is_err());
}

#[test]
fn test_http_method_error_message() {
    let err = HttpMethod::from_str("TELEPORT").unwrap_err();
    assert_eq!(err.message(), "Unsupported HTTP method: TELEPORT");
}

#[test]
fn test_error_messages() {
    assert_eq!(
        Error::InvalidHeader("no colon".to_string()).message(),
        "Invalid header: no colon"
    );
    assert_eq!(
        Error::HttpRequest("timed out".to_string()).message(),
        "HTTP request failed: timed out"
    );
}

#[test]
fn test_response_header_value() {
    let response = HttpResponse::new(
        200,
        vec![
            ("Content-Type".to_string(), "text/plain".to_string()),
            ("X-Other".to_string(), "1".to_string()),
        ],
        "hi".to_string(),
        5,
    );
    assert_eq!(response.header_value("content-type"), "text/plain");
    assert_eq!(response.header_value("X-OTHER"), "1");
    assert_eq!(response.header_value("missing"), "");
}

#[test]
fn test_request_log_with_body() {
    let mut request = RequestLog::new("POST".to_string(), "https://api.example.com".to_string());
    request.body = Some(r#"{"key":"value"}"#.to_string());
    request.calculate_body_size();

    assert_eq!(request.body_size, Some(15));
}

#[test]
fn test_response_log_success() {
    let response = ResponseLog::new(200, "OK".to_string());
    assert!(response.is_success);
    assert!(!response.is_error);
}

#[test]
fn test_response_log_error() {
    let response = ResponseLog::new(404, "Not Found".to_string());
    assert!(!response.is_success);
    assert!(response.is_error);
}

#[test]
fn test_response_log_set_body_and_error() {
    let mut response = ResponseLog::new(500, "Server Error".to_string());
    response.set_body("oops".to_string());
    assert_eq!(response.body_size, 4);

    response.set_error("backend down".to_string());
    assert!(response.is_error);
    assert_eq!(response.error_message, Some("backend down".to_string()));
}
