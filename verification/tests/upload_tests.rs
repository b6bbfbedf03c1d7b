//! Tests for form data, URL encoding, file uploads and multipart bodies.

use bazzounquester::file_upload::FileUpload;
use bazzounquester::form::{FormData, FormField};
use bazzounquester::multipart::MultipartBuilder;

#[test]
fn test_form_data_creation() {
    let form = FormData::new();
    assert_eq!(form.count(), 0);
}

#[test]
fn form_test_add_text_field() {
    let mut form = FormData::new();
    form.add_text("username".to_string(), "john".to_string());
    form.add_text("password".to_string(), "secret".to_string());

    assert_eq!(form.count(), 2);
    assert!(matches!(form.get("username"), Some(FormField::Text(_))));
}

#[test]
fn test_add_file_field() {
    let mut form = FormData::new();
    form.add_file("avatar".to_string(), "/path/to/image.jpg".to_string());

    assert_eq!(form.count(), 1);
    assert!(matches!(form.get("avatar"), Some(FormField::File(_))));
}

#[test]
fn test_has_files() {
    let mut form = FormData::new();
    form.add_text("name".to_string(), "value".to_string());
    assert!(!form.has_files());

    form.add_file("file".to_string(), "/path/to/file".to_string());
    assert!(form.has_files());
}

#[test]
fn test_to_urlencoded() {
    let mut form = FormData::new();
    form.add_text("name".to_string(), "John Doe".to_string());
    form.add_text("email".to_string(), "john@example.com".to_string());

    let encoded = form.to_urlencoded();
    assert!(encoded.contains("name=John+Doe"));
    assert!(encoded.contains("email=john"));
}

#[test]
fn test_text_fields() {
    let mut form = FormData::new();
    form.add_text("field1".to_string(), "value1".to_string());
    form.add_file("file1".to_string(), "/path".to_string());

    let text_fields = form.text_fields();
    assert_eq!(text_fields.len(), 1);
    assert_eq!(text_fields.get("field1").map(|s| s.as_str()), Some("value1"));
}

#[test]
fn test_file_fields() {
    let mut form = FormData::new();
    form.add_text("field1".to_string(), "value1".to_string());
    form.add_file("file1".to_string(), "/path".to_string());

    let file_fields = form.file_fields();
    assert_eq!(file_fields.len(), 1);
    assert_eq!(file_fields.get("file1").map(|s| s.as_str()), Some("/path"));
}

#[test]
fn test_remove_field() {
    let mut form = FormData::new();
    form.add_text("test".to_string(), "value".to_string());

    assert_eq!(form.count(), 1);
    form.remove("test");
    assert_eq!(form.count(), 0);
}

#[test]
fn form_test_builder_pattern() {
    let form = FormData::new()
        .with_text("name".to_string(), "value".to_string())
        .with_file("file".to_string(), "/path".to_string());

    assert_eq!(form.count(), 2);
}

#[test]
fn test_url_encoding_escapes() {
    assert_eq!(bazzounquester::form::encode("a b"), "a+b");
    assert_eq!(bazzounquester::form::encode("a&b=c"), "a%26b%3Dc");
    assert_eq!(bazzounquester::form::encode("safe-._~AZaz09"), "safe-._~AZaz09");
}

#[test]
fn test_multipart_builder_creation() {
    let builder = MultipartBuilder::new();
    assert!(builder.boundary().starts_with("----BazzounquesterBoundary"));
}

#[test]
fn multipart_test_add_text_field() {
    let mut builder = MultipartBuilder::new();
    builder.add_text("name".to_string(), "value".to_string());

    assert_eq!(builder.text_field_count(), 1);
}

#[test]
fn test_content_type() {
    let builder = MultipartBuilder::new();
    let ct = builder.content_type();

    assert!(ct.starts_with("multipart/form-data; boundary="));
}

#[test]
fn test_build_with_text() {
    let mut builder = MultipartBuilder::new();
    builder.add_text("field1".to_string(), "value1".to_string());

    let body = builder.build(&Vec::new());
    let body_str = String::from_utf8(body).unwrap();

    assert!(body_str.contains("Content-Disposition: form-data; name=\"field1\""));
    assert!(body_str.contains("value1"));
}

#[test]
fn test_build_with_file_contents() {
    let upload = FileUpload::from_parts(
        "/tmp/data.bin".to_string(),
        "file".to_string(),
        Some("application/octet-stream".to_string()),
        None,
    );
    let mut builder = MultipartBuilder::new();
    builder.add_file(upload);

    let body = builder.build(&vec![b"test file content".to_vec()]);
    let body_str = String::from_utf8(body).unwrap();

    assert!(body_str.contains("filename=\"data.bin\""));
    assert!(body_str.contains("Content-Type: application/octet-stream"));
    assert!(body_str.contains("test file content"));
}

#[test]
fn test_file_upload_filename() {
    let upload = FileUpload::from_parts(
        "/var/tmp/photo.jpg".to_string(),
        "photo".to_string(),
        None,
        None,
    );
    assert_eq!(upload.filename(), "photo.jpg");

    let named = upload.with_filename("custom.jpg".to_string());
    assert_eq!(named.filename(), "custom.jpg");
}

#[test]
fn test_file_upload_mime_fallback() {
    let upload = FileUpload::from_parts("/tmp/x".to_string(), "f".to_string(), None, None);
    assert_eq!(upload.mime(), "application/octet-stream");

    let typed = upload.with_mime_type("image/png".to_string());
    assert_eq!(typed.mime(), "image/png");
}

#[test]
fn test_file_upload_empty_path_base() {
    let upload = FileUpload::from_parts("/ends/with/".to_string(), "f".to_string(), None, None);
    assert_eq!(upload.filename(), "file");
}
