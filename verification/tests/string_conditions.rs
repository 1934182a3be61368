//! String-condition matching, predicate by predicate.

use featureprobe::cond::{Condition, ConditionType};
use featureprobe::user::FPUser;

fn string_condition(predicate: &str, objects: Vec<&str>) -> Condition {
    Condition {
        ctype: ConditionType::Str,
        subject: "name".to_string(),
        predicate: predicate.to_string(),
        objects: objects.into_iter().map(|s| s.to_string()).collect(),
    }
}

fn matches(condition: &Condition, attr: Option<&str>) -> bool {
    let mut user = FPUser::new();
    if let Some(v) = attr {
        user = user.with("name".to_string(), v.to_string());
    }
    let predicate = condition.predicate.clone();
    condition.match_string(&user, &predicate)
}

#[test]
fn test_match_is_one_of() {
    let condition = string_condition("is one of", vec!["hello", "world"]);
    assert!(matches(&condition, Some("world")));
}

#[test]
fn test_not_match_is_one_of() {
    let condition = string_condition("is one of", vec!["hello", "world"]);
    assert!(!matches(&condition, Some("not_in")));
}

#[test]
fn test_user_miss_key_is_not_one_of() {
    let condition = string_condition("is not one of", vec!["hello", "world"]);
    assert!(!matches(&condition, None));
}

#[test]
fn test_match_is_not_any_of() {
    let condition = string_condition("is not any of", vec!["hello", "world"]);
    assert!(matches(&condition, Some("welcome")));
}

#[test]
fn test_not_match_is_not_any_of() {
    let condition = string_condition("is not any of", vec!["hello", "world"]);
    assert!(matches(&condition, Some("not_in")));
}

#[test]
fn test_match_ends_with() {
    let condition = string_condition("ends with", vec!["hello", "world"]);
    assert!(matches(&condition, Some("bob world")));
}

#[test]
fn test_dont_match_ends_with() {
    let condition = string_condition("ends with", vec!["hello", "world"]);
    assert!(!matches(&condition, Some("bob")));
}

#[test]
fn test_match_does_not_end_with() {
    let condition = string_condition("does not end with", vec!["hello", "world"]);
    assert!(matches(&condition, Some("bob")));
}

#[test]
fn test_not_match_does_not_end_with() {
    let condition = string_condition("does not end with", vec!["hello", "world"]);
    assert!(!matches(&condition, Some("bob world")));
}

#[test]
fn test_match_starts_with() {
    let condition = string_condition("starts with", vec!["hello", "world"]);
    assert!(matches(&condition, Some("world bob")));
}

#[test]
fn test_not_match_starts_with() {
    let condition = string_condition("ends with", vec!["hello", "world"]);
    assert!(!matches(&condition, Some("bob")));
}

#[test]
fn test_match_does_not_start_with() {
    let condition = string_condition("does not start with", vec!["hello", "world"]);
    assert!(matches(&condition, Some("bob")));
}

#[test]
fn test_not_match_does_not_start_with() {
    let condition = string_condition("does not start with", vec!["hello", "world"]);
    assert!(!matches(&condition, Some("world bob")));
}

#[test]
fn test_match_contains() {
    let condition = string_condition("contains", vec!["hello", "world"]);
    assert!(matches(&condition, Some("alice world bob")));
}

#[test]
fn test_not_match_contains() {
    let condition = string_condition("contains", vec!["hello", "world"]);
    assert!(!matches(&condition, Some("alice bob")));
}

#[test]
fn test_match_not_contains() {
    let condition = string_condition("does not contain", vec!["hello", "world"]);
    assert!(matches(&condition, Some("alice bob")));
}

#[test]
fn test_not_match_not_contains() {
    let condition = string_condition("does not contain", vec!["hello", "world"]);
    assert!(!matches(&condition, Some("alice world bob")));
}

#[test]
fn test_match_regex() {
    let condition = string_condition("matches regex", vec!["hello", "world.*"]);
    assert!(matches(&condition, Some("alice world bob")));
}

#[test]
fn test_match_regex_first_object() {
    let condition = string_condition("matches regex", vec![r"hello\d", "world.*"]);
    assert!(matches(&condition, Some("alice orld bob hello3")));
}

#[test]
fn test_not_match_regex() {
    let condition = string_condition("matches regex", vec![r"hello\d", "world.*"]);
    assert!(!matches(&condition, Some("alice orld bob hello")));
}

#[test]
fn test_match_not_match_regex() {
    let condition = string_condition("does not match regex", vec![r"hello\d", "world.*"]);
    assert!(matches(&condition, Some("alice orld bob hello")));
}

#[test]
fn test_invalid_regex_condition() {
    let condition = string_condition("matches regex", vec!["\\\\\\"]);
    assert!(!matches(&condition, Some("\\\\\\")));
}

#[test]
fn unknown_string_predicate_matches_nothing() {
    let condition = string_condition("sounds like", vec!["hello"]);
    assert!(!matches(&condition, Some("hello")));
}

#[test]
fn unknown_condition_type_matches_nothing() {
    let condition = Condition {
        ctype: ConditionType::Unknown,
        subject: "name".to_string(),
        predicate: "is one of".to_string(),
        objects: vec!["hello".to_string()],
    };
    let user = FPUser::new().with("name".to_string(), "hello".to_string());
    assert!(!condition.meet(&user, None));
}
