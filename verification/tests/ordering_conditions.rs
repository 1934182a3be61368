//! Numeric, semantic-version and datetime conditions.

use featureprobe::cond::{Condition, ConditionType};
use featureprobe::user::FPUser;

fn with_attr(subject: &str, value: &str) -> FPUser {
    FPUser::new().with(subject.to_string(), value.to_string())
}

#[test]
fn test_semver_condition() {
    let mut condition = Condition {
        ctype: ConditionType::Semver,
        subject: "version".to_owned(),
        objects: vec!["1.0.0".to_owned(), "2.0.0".to_owned()],
        predicate: "=".to_owned(),
    };

    assert!(condition.meet(&with_attr("version", "1.0.0"), None));
    assert!(condition.meet(&with_attr("version", "2.0.0"), None));
    assert!(!condition.meet(&with_attr("version", "3.0.0"), None));

    condition.predicate = "!=".to_owned();
    assert!(!condition.meet(&with_attr("version", "1.0.0"), None));
    assert!(!condition.meet(&with_attr("version", "2.0.0"), None));
    assert!(condition.meet(&with_attr("version", "0.1.0"), None));

    condition.predicate = ">".to_owned();
    assert!(condition.meet(&with_attr("version", "2.0.0"), None));
    assert!(condition.meet(&with_attr("version", "3.0.0"), None));
    assert!(!condition.meet(&with_attr("version", "0.1.0"), None));

    condition.predicate = ">=".to_owned();
    assert!(condition.meet(&with_attr("version", "1.0.0"), None));
    assert!(condition.meet(&with_attr("version", "2.0.0"), None));
    assert!(condition.meet(&with_attr("version", "3.0.0"), None));
    assert!(!condition.meet(&with_attr("version", "0.1.0"), None));

    condition.predicate = "<".to_owned();
    assert!(condition.meet(&with_attr("version", "1.0.0"), None));
    assert!(!condition.meet(&with_attr("version", "2.0.0"), None));
    assert!(!condition.meet(&with_attr("version", "3.0.0"), None));

    condition.predicate = "<=".to_owned();
    assert!(condition.meet(&with_attr("version", "1.0.0"), None));
    assert!(condition.meet(&with_attr("version", "2.0.0"), None));
    assert!(condition.meet(&with_attr("version", "0.1.0"), None));

    assert!(!condition.meet(&with_attr("version", "a"), None));
}

#[test]
fn test_number_condition() {
    let mut condition = Condition {
        ctype: ConditionType::Number,
        subject: "price".to_owned(),
        objects: vec!["10".to_owned(), "100".to_owned()],
        predicate: "=".to_owned(),
    };

    assert!(condition.meet(&with_attr("price", "10"), None));
    assert!(condition.meet(&with_attr("price", "100"), None));
    assert!(!condition.meet(&with_attr("price", "0"), None));

    condition.predicate = "!=".to_owned();
    assert!(!condition.meet(&with_attr("price", "10"), None));
    assert!(!condition.meet(&with_attr("price", "100"), None));
    assert!(condition.meet(&with_attr("price", "0"), None));

    condition.predicate = ">".to_owned();
    assert!(condition.meet(&with_attr("price", "11"), None));
    assert!(!condition.meet(&with_attr("price", "10"), None));

    condition.predicate = ">=".to_owned();
    assert!(condition.meet(&with_attr("price", "10"), None));
    assert!(condition.meet(&with_attr("price", "11"), None));
    assert!(condition.meet(&with_attr("price", "100"), None));
    assert!(!condition.meet(&with_attr("price", "0"), None));

    condition.predicate = "<".to_owned();
    assert!(condition.meet(&with_attr("price", "1"), None));
    assert!(condition.meet(&with_attr("price", "10"), None));
    assert!(!condition.meet(&with_attr("price", "100"), None));

    condition.predicate = "<=".to_owned();
    assert!(condition.meet(&with_attr("price", "1"), None));
    assert!(condition.meet(&with_attr("price", "10"), None));
    assert!(condition.meet(&with_attr("price", "100"), None));

    assert!(!condition.meet(&with_attr("price", "a"), None));
}

#[test]
fn number_condition_compares_decimals_exactly() {
    let condition = Condition {
        ctype: ConditionType::Number,
        subject: "price".to_owned(),
        objects: vec!["10.0".to_owned()],
        predicate: "=".to_owned(),
    };
    assert!(condition.meet(&with_attr("price", "10"), None));
    assert!(condition.meet(&with_attr("price", "+10.000"), None));
    assert!(!condition.meet(&with_attr("price", "10.001"), None));

    let condition = Condition {
        ctype: ConditionType::Number,
        subject: "price".to_owned(),
        objects: vec!["-1.5".to_owned()],
        predicate: "<".to_owned(),
    };
    assert!(condition.meet(&with_attr("price", "-2"), None));
    assert!(!condition.meet(&with_attr("price", "-1.5"), None));
    assert!(!condition.meet(&with_attr("price", "0"), None));
}

#[test]
fn test_datetime_condition() {
    let now_ts = featureprobe::unix_timestamp() / 1000;
    let mut condition = Condition {
        ctype: ConditionType::Datetime,
        subject: "ts".to_owned(),
        objects: vec![format!("{}", now_ts)],
        predicate: "after".to_owned(),
    };

    let user = FPUser::new();
    assert!(condition.meet(&user, None));
    let user = FPUser::new().with("ts".to_owned(), format!("{}", now_ts));
    assert!(condition.meet(&user, None));

    condition.predicate = "before".to_owned();
    condition.objects = vec![format!("{}", now_ts + 2)];
    assert!(condition.meet(&user, None));

    let user = FPUser::new().with("ts".to_owned(), "a".to_owned());
    assert!(!condition.meet(&user, None));
}

#[test]
fn datetime_condition_at_fixed_instant() {
    let condition = Condition {
        ctype: ConditionType::Datetime,
        subject: "ts".to_owned(),
        objects: vec!["1000".to_owned()],
        predicate: "after".to_owned(),
    };
    assert!(condition.meet_at(&with_attr("ts", "1000"), None, 0));
    assert!(condition.meet_at(&with_attr("ts", "999"), None, 0) == false);
    // A missing attribute substitutes the current instant.
    assert!(condition.meet_at(&FPUser::new(), None, 1500));
    assert!(!condition.meet_at(&FPUser::new(), None, 500));
}
