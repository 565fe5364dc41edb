//! The lookup table and the error type.

use env_expand::error::EnvExpansionError;
use env_expand::lookup::{str_eq, EnvMap};

#[test]
fn test_get_returns_inserted_value() {
    let mut env = EnvMap::new();
    env.insert(String::from("PATH"), String::from("/usr/bin"));
    assert_eq!(env.get("PATH").unwrap(), "/usr/bin");
    assert!(env.get("HOME").is_none());
}

#[test]
fn test_get_sees_latest_insert() {
    let mut env = EnvMap::new();
    env.insert(String::from("X"), String::from("first"));
    env.insert(String::from("X"), String::from("second"));
    assert_eq!(env.get("X").unwrap(), "second");
}

#[test]
fn test_str_eq_agrees_with_equality() {
    assert!(str_eq("", ""));
    assert!(str_eq("abc", "abc"));
    assert!(!str_eq("abc", "abd"));
    assert!(!str_eq("abc", "ab"));
    assert!(str_eq("naïve", "naïve"));
    assert!(!str_eq("naïve", "naive"));
}

#[test]
fn test_missing_var_error_message() {
    let err = EnvExpansionError::MissingVar(String::from("HOME"));
    assert_eq!(err.message(), "Missing environment variable: HOME");
}
