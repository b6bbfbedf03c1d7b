//! Tests for the script context and script types.

use bazzounquester::context::{ScriptContext, ScriptVariable};
use bazzounquester::script::{Script, ScriptType};

#[test]
fn test_script_variable_new() {
    let var = ScriptVariable::new("value".to_string());
    assert_eq!(var.value, "value");
    assert!(!var.is_secret);
}

#[test]
fn test_script_variable_secret() {
    let var = ScriptVariable::secret("secret".to_string());
    assert_eq!(var.value, "secret");
    assert!(var.is_secret);
}

#[test]
fn test_context_creation() {
    let context = ScriptContext::new();
    assert_eq!(context.variables().len(), 0);
    assert_eq!(context.console_output().len(), 0);
}

#[test]
fn test_context_set_variable() {
    let mut context = ScriptContext::new();
    context.set_variable("key".to_string(), "value".to_string());

    assert_eq!(context.get_variable_value("key"), Some("value"));
}

#[test]
fn test_context_set_secret_variable() {
    let mut context = ScriptContext::new();
    context.set_secret_variable("apiKey".to_string(), "secret123".to_string());

    let var = context.get_variable("apiKey").unwrap();
    assert_eq!(var.value, "secret123");
    assert!(var.is_secret);
}

#[test]
fn test_context_remove_variable() {
    let mut context = ScriptContext::new();
    context.set_variable("test".to_string(), "value".to_string());

    assert!(context.get_variable("test").is_some());

    context.remove_variable("test");
    assert!(context.get_variable("test").is_none());
}

#[test]
fn test_context_request_data() {
    let mut context = ScriptContext::new();
    context.set_request_data("method".to_string(), "GET".to_string());
    context.set_request_data("url".to_string(), "https://api.example.com".to_string());

    assert_eq!(context.get_request_data("method"), Some("GET"));
    assert_eq!(context.get_request_data("url"), Some("https://api.example.com"));
}

#[test]
fn test_context_response_data() {
    let mut context = ScriptContext::new();
    context.set_response_data("status".to_string(), "200".to_string());
    context.set_response_data("body".to_string(), r#"{"result":"ok"}"#.to_string());

    assert_eq!(context.get_response_data("status"), Some("200"));
    assert_eq!(context.get_response_data("body"), Some(r#"{"result":"ok"}"#));
}

#[test]
fn test_context_console_log() {
    let mut context = ScriptContext::new();
    context.console_log("Message 1".to_string());
    context.console_log("Message 2".to_string());

    assert_eq!(context.console_output().len(), 2);
    assert_eq!(context.console_output()[0], "Message 1");
    assert_eq!(context.console_output()[1], "Message 2");
}

#[test]
fn test_context_clear_console() {
    let mut context = ScriptContext::new();
    context.console_log("Test".to_string());
    assert_eq!(context.console_output().len(), 1);

    context.clear_console();
    assert_eq!(context.console_output().len(), 0);
}

#[test]
fn test_context_last_write_wins() {
    let mut context = ScriptContext::new();
    context.set_variable("key".to_string(), "first".to_string());
    context.set_variable("key".to_string(), "second".to_string());

    assert_eq!(context.get_variable_value("key"), Some("second"));
    assert_eq!(context.variables().len(), 1);
}

#[test]
fn test_context_replace_variables() {
    let mut context = ScriptContext::new();
    context.set_variable("stale".to_string(), "old".to_string());

    context.replace_variables(vec![
        ("fresh".to_string(), "new".to_string()),
        ("token".to_string(), "abc".to_string()),
    ]);

    assert!(context.get_variable("stale").is_none());
    assert_eq!(context.get_variable_value("fresh"), Some("new"));
    assert_eq!(context.get_variable_value("token"), Some("abc"));
}

#[test]
fn test_script_new() {
    let script = Script::new(ScriptType::PreRequest, "let x = 1;".to_string());
    assert_eq!(script.script_type, ScriptType::PreRequest);
    assert_eq!(script.code, "let x = 1;");
    assert!(script.enabled);
}

#[test]
fn test_script_pre_request() {
    let script = Script::pre_request("console.log('test');".to_string());
    assert_eq!(script.script_type, ScriptType::PreRequest);
}

#[test]
fn test_script_post_response() {
    let script = Script::post_response("console.log('done');".to_string());
    assert_eq!(script.script_type, ScriptType::PostResponse);
}

#[test]
fn test_script_with_name() {
    let script = Script::pre_request("test".to_string()).with_name("My Script".to_string());
    assert_eq!(script.name, Some("My Script".to_string()));
}

#[test]
fn test_script_with_enabled() {
    let script = Script::pre_request("test".to_string()).with_enabled(false);
    assert!(!script.enabled);
}

#[test]
fn test_script_should_execute() {
    let enabled = Script::pre_request("test".to_string());
    assert!(enabled.should_execute());

    let disabled = Script::pre_request("test".to_string()).with_enabled(false);
    assert!(!disabled.should_execute());

    let empty = Script::pre_request("  ".to_string());
    assert!(!empty.should_execute());
}

#[test]
fn test_script_should_execute_as() {
    let pre = Script::pre_request("let x = 1;".to_string());
    assert!(pre.should_execute_as(ScriptType::PreRequest));
    assert!(!pre.should_execute_as(ScriptType::PostResponse));

    let disabled = Script::post_response("let y = 2;".to_string()).with_enabled(false);
    assert!(!disabled.should_execute_as(ScriptType::PostResponse));

    let blank = Script::post_response("   ".to_string());
    assert!(!blank.should_execute_as(ScriptType::PostResponse));
}
