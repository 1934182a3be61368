//! The character-level utilities underneath the matchers.

use featureprobe::numbers::number_cmp;
use featureprobe::strings::{parse_u128, str_contains, str_ends_with, str_starts_with, string_eq, u128_to_string};

#[test]
fn decimal_rendering_round_trips() {
    assert_eq!(u128_to_string(0), "0");
    assert_eq!(u128_to_string(7), "7");
    assert_eq!(u128_to_string(1234567890123456789), "1234567890123456789");
    assert_eq!(parse_u128("1234567890123456789"), Some(1234567890123456789));
}

#[test]
fn u128_parsing_follows_the_grammar() {
    assert_eq!(parse_u128("0"), Some(0));
    assert_eq!(parse_u128("+42"), Some(42));
    assert_eq!(parse_u128(""), None);
    assert_eq!(parse_u128("+"), None);
    assert_eq!(parse_u128("12a"), None);
    assert_eq!(parse_u128("-1"), None);
    assert_eq!(parse_u128("340282366920938463463374607431768211455"), Some(u128::MAX));
    assert_eq!(parse_u128("340282366920938463463374607431768211456"), None);
}

#[test]
fn string_predicates_look_inside() {
    assert!(string_eq("abc", "abc"));
    assert!(!string_eq("abc", "abd"));
    assert!(str_starts_with("hello world", "hello"));
    assert!(!str_starts_with("hello world", "world"));
    assert!(str_ends_with("hello world", "world"));
    assert!(!str_ends_with("hello world", "hello"));
    assert!(str_contains("hello world", "lo wo"));
    assert!(!str_contains("hello world", "low"));
    assert!(str_contains("abc", ""));
}

#[test]
fn number_comparison_is_exact() {
    assert_eq!(number_cmp("10", "10.0"), Some(0));
    assert_eq!(number_cmp("2", "10"), Some(-1));
    assert_eq!(number_cmp("-2", "-10"), Some(1));
    assert_eq!(number_cmp("-0", "0"), Some(0));
    assert_eq!(number_cmp("0.5", ".5"), Some(0));
    assert_eq!(number_cmp("5.", "5"), Some(0));
    assert_eq!(number_cmp("1e3", "1000"), None);
    assert_eq!(number_cmp("abc", "1"), None);
}

#[test]
fn generated_rollout_keys_are_decimal() {
    let key = featureprobe::generate_key();
    assert!(!key.is_empty());
    assert!(key.chars().all(|c| c.is_ascii_digit()));
    let other = featureprobe::temporal_rollout_key();
    assert!(other.chars().all(|c| c.is_ascii_digit()));
    assert!(featureprobe::unix_timestamp() > 0);
}
