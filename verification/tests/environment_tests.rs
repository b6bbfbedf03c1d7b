//! Tests for the environment model.

use bazzounquester::environment::Environment;
use bazzounquester::strmap::AssocMap;
use bazzounquester::substitution::VariableSubstitutor;

#[test]
fn test_environment_new() {
    let env = Environment::new("env-1".to_string(), "staging".to_string(), 1000);
    assert_eq!(env.id, "env-1");
    assert_eq!(env.name, "staging");
    assert!(!env.is_active);
    assert_eq!(env.created_at_ms, 1000);
    assert_eq!(env.updated_at_ms, 1000);
}

#[test]
fn test_environment_set_and_get_variable() {
    let mut env = Environment::new("env-1".to_string(), "staging".to_string(), 0);
    env.set_variable("API_URL".to_string(), "https://api.example.com".to_string(), 5);

    assert_eq!(env.get_variable("API_URL"), Some("https://api.example.com"));
    assert_eq!(env.get_variable("missing"), None);
    assert_eq!(env.updated_at_ms, 5);
}

#[test]
fn test_environment_secret_variable() {
    let mut env = Environment::new("env-1".to_string(), "staging".to_string(), 0);
    env.set_secret("KEY".to_string(), "SECRET-REDACTED".to_string(), 1);

    assert_eq!(env.get_variable("KEY"), Some("SECRET-REDACTED"));
    assert!(env.variables.get("KEY").unwrap().is_secret);
}

#[test]
fn test_environment_disabled_variable_reads_as_absent() {
    let mut env = Environment::new("env-1".to_string(), "staging".to_string(), 0);
    env.set_variable("FLAG".to_string(), "on".to_string(), 1);
    assert_eq!(env.get_variable("FLAG"), Some("on"));

    assert!(env.set_variable_enabled("FLAG", false, 2));
    assert_eq!(env.get_variable("FLAG"), None);

    assert!(env.set_variable_enabled("FLAG", true, 3));
    assert_eq!(env.get_variable("FLAG"), Some("on"));

    assert!(!env.set_variable_enabled("missing", true, 4));
}

#[test]
fn test_environment_remove_variable() {
    let mut env = Environment::new("env-1".to_string(), "staging".to_string(), 0);
    env.set_variable("A".to_string(), "1".to_string(), 1);

    assert!(env.remove_variable("A", 2));
    assert_eq!(env.get_variable("A"), None);
    assert!(!env.remove_variable("A", 3));
    assert_eq!(env.updated_at_ms, 2);
}

#[test]
fn test_environment_activation() {
    let mut env = Environment::new("env-1".to_string(), "staging".to_string(), 0);
    env.activate(10);
    assert!(env.is_active);
    env.deactivate(20);
    assert!(!env.is_active);
    assert_eq!(env.updated_at_ms, 20);
}

#[test]
fn test_environment_variable_names() {
    let mut env = Environment::new("env-1".to_string(), "staging".to_string(), 0);
    env.set_variable("A".to_string(), "1".to_string(), 1);
    env.set_variable("B".to_string(), "2".to_string(), 2);

    assert_eq!(env.variable_names(), vec!["A".to_string(), "B".to_string()]);
}

#[test]
fn test_environment_feeds_substitution() {
    let mut env = Environment::new("env-1".to_string(), "staging".to_string(), 0);
    env.set_variable("BASE".to_string(), "https://api.example.com".to_string(), 1);
    env.set_variable("OFF".to_string(), "unused".to_string(), 2);
    env.set_variable_enabled("OFF", false, 3);

    let values: AssocMap<String> = env.enabled_variables();
    let sub = VariableSubstitutor::new();
    assert_eq!(
        sub.substitute("{{BASE}}/users/{{OFF}}", &values),
        "https://api.example.com/users/{{OFF}}"
    );
}
