//! Tests for the variable substitution engine.

use bazzounquester::strmap::AssocMap;
use bazzounquester::substitution::VariableSubstitutor;

fn pool(pairs: &[(&str, &str)]) -> AssocMap<String> {
    let mut m: AssocMap<String> = AssocMap::new();
    for (k, v) in pairs {
        m.insert(k.to_string(), v.to_string());
    }
    m
}

#[test]
fn test_basic_substitution() {
    let sub = VariableSubstitutor::new();
    let vars = pool(&[("API_URL", "https://api.example.com"), ("VERSION", "v1")]);

    let result = sub.substitute("{{API_URL}}/{{VERSION}}/users", &vars);
    assert_eq!(result, "https://api.example.com/v1/users");
}

#[test]
fn test_substitution_with_missing_var() {
    let sub = VariableSubstitutor::new();
    let vars = pool(&[("API_URL", "https://api.example.com")]);

    let result = sub.substitute("{{API_URL}}/{{MISSING}}/users", &vars);
    assert_eq!(result, "https://api.example.com/{{MISSING}}/users");
}

#[test]
fn test_substitution_with_default() {
    let sub = VariableSubstitutor::new();
    let vars = pool(&[("API_URL", "https://api.example.com")]);

    let result = sub.substitute_with_default("{{API_URL}}/{{MISSING}}/users", &vars, "unknown");
    assert_eq!(result, "https://api.example.com/unknown/users");
}

#[test]
fn test_find_variables() {
    let sub = VariableSubstitutor::new();
    let text = "{{API_URL}}/{{VERSION}}/users/{{USER_ID}}";

    let vars = sub.find_variables(text);
    assert_eq!(vars.len(), 3);
    assert!(vars.contains(&"API_URL".to_string()));
    assert!(vars.contains(&"VERSION".to_string()));
    assert!(vars.contains(&"USER_ID".to_string()));
}

#[test]
fn test_has_variables() {
    let sub = VariableSubstitutor::new();

    assert!(sub.has_variables("{{API_URL}}/users"));
    assert!(!sub.has_variables("https://api.example.com/users"));
}

#[test]
fn test_validate_success() {
    let sub = VariableSubstitutor::new();
    let vars = pool(&[("API_URL", "https://api.example.com"), ("VERSION", "v1")]);

    let result = sub.validate("{{API_URL}}/{{VERSION}}/users", &vars);
    assert!(result.is_ok());
}

#[test]
fn test_validate_failure() {
    let sub = VariableSubstitutor::new();
    let vars = pool(&[("API_URL", "https://api.example.com")]);

    let result = sub.validate("{{API_URL}}/{{VERSION}}/{{USER_ID}}", &vars);
    assert!(result.is_err());

    let missing = result.unwrap_err();
    assert_eq!(missing.len(), 2);
    assert!(missing.contains(&"VERSION".to_string()));
    assert!(missing.contains(&"USER_ID".to_string()));
}

#[test]
fn test_multiple_substitution() {
    let sub = VariableSubstitutor::new();
    let vars = pool(&[("API_URL", "https://api.example.com"), ("VERSION", "v1")]);

    let texts = vec![
        "{{API_URL}}/users".to_string(),
        "{{API_URL}}/{{VERSION}}/posts".to_string(),
    ];

    let results = sub.substitute_multiple(&texts, &vars);
    assert_eq!(results[0], "https://api.example.com/users");
    assert_eq!(results[1], "https://api.example.com/v1/posts");
}

#[test]
fn test_no_variables() {
    let sub = VariableSubstitutor::new();
    let vars: AssocMap<String> = AssocMap::new();

    let result = sub.substitute("https://api.example.com/users", &vars);
    assert_eq!(result, "https://api.example.com/users");
}

#[test]
fn test_variable_name_rules() {
    let sub = VariableSubstitutor::new();
    let vars = pool(&[("API_URL_V2", "https://api.example.com"), ("_private", "secret")]);

    let result = sub.substitute("{{API_URL_V2}}/{{_private}}", &vars);
    assert_eq!(result, "https://api.example.com/secret");
}

#[test]
fn test_complex_text() {
    let sub = VariableSubstitutor::new();
    let vars = pool(&[("BASE", "https://api.example.com"), ("KEY", "abc123")]);

    let text = r#"{"url":"{{BASE}}/auth","key":"{{KEY}}"}"#;
    let result = sub.substitute(text, &vars);
    assert_eq!(result, r#"{"url":"https://api.example.com/auth","key":"abc123"}"#);
}

#[test]
fn test_unresolved_token_passes_through() {
    let sub = VariableSubstitutor::new();
    let vars = pool(&[("A", "x")]);

    assert_eq!(sub.substitute("{{A}}/{{B}}", &vars), "x/{{B}}");
}

#[test]
fn test_validate_reports_unresolved_names() {
    let sub = VariableSubstitutor::new();
    let vars = pool(&[("A", "x")]);

    let missing = sub.validate("{{A}}/{{B}}", &vars).unwrap_err();
    assert_eq!(missing, vec!["B".to_string()]);
}

#[test]
fn test_no_recursive_substitution() {
    let sub = VariableSubstitutor::new();
    let vars = pool(&[("A", "{{B}}"), ("B", "deep")]);

    assert_eq!(sub.substitute("{{A}}", &vars), "{{B}}");
}

#[test]
fn test_validate_is_repeatable() {
    let sub = VariableSubstitutor::new();
    let vars = pool(&[("A", "x")]);

    let first = sub.validate("{{A}}/{{B}}/{{C}}", &vars);
    let second = sub.validate("{{A}}/{{B}}/{{C}}", &vars);
    assert_eq!(first.unwrap_err(), second.unwrap_err());
}

#[test]
fn test_malformed_tokens_left_alone() {
    let sub = VariableSubstitutor::new();
    let vars = pool(&[("A", "x")]);

    assert_eq!(sub.substitute("{{A}/{A}}/{{1BAD}}", &vars), "{{A}/{A}}/{{1BAD}}");
    assert_eq!(sub.substitute("{{{A}}}", &vars), "{x}");
}

#[test]
fn test_empty_text() {
    let sub = VariableSubstitutor::new();
    let vars: AssocMap<String> = AssocMap::new();
    assert_eq!(sub.substitute("", &vars), "");
    assert!(sub.find_variables("").is_empty());
}
