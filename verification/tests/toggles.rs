//! End-to-end toggle evaluation: disabled serves, rule scans, prerequisites,
//! and the typed getter facade.

use featureprobe::cond::{Condition, ConditionType, Segment, SegmentRule};
use featureprobe::evaluate::{Distribution, Prerequisites, Repository, Rule, Serve, Toggle};
use featureprobe::probe::FeatureProbe;
use featureprobe::user::FPUser;
use featureprobe::value::FPValue;

const MAX_DEEP: u8 = 20;

fn str_val(s: &str) -> FPValue {
    FPValue::Str(s.to_string())
}

fn city_condition(values: Vec<&str>) -> Condition {
    Condition {
        ctype: ConditionType::Str,
        subject: "city".to_string(),
        predicate: "is one of".to_string(),
        objects: values.into_iter().map(|s| s.to_string()).collect(),
    }
}

fn two_way_toggle(key: &str, enabled: bool, rules: Vec<Rule>) -> Toggle {
    Toggle {
        key: key.to_string(),
        enabled,
        track_access_events: None,
        last_modified: None,
        version: 7,
        for_client: false,
        disabled_serve: Serve::Select(0),
        default_serve: Serve::Select(1),
        rules,
        variations: vec![str_val("disabled_value"), str_val("default_value"), str_val("rule_value")],
        prerequisites: None,
    }
}

fn repo_of(toggles: Vec<Toggle>) -> Repository {
    let mut r = Repository::new();
    r.version = Some(1);
    for t in toggles {
        r.toggles.push((t.key.clone(), t));
    }
    r
}

#[test]
fn disabled_toggle_serves_disabled_variation() {
    let mut toggle = two_way_toggle("flag", false, vec![Rule {
        serve: Serve::Select(2),
        conditions: vec![],
    }]);
    toggle.prerequisites = Some(vec![Prerequisites {
        key: "missing".to_string(),
        value: FPValue::Bool(true),
    }]);
    let repo = repo_of(vec![toggle]);
    let user = FPUser::new().with("city".to_string(), "1".to_string());

    let toggle = &repo.toggles[0].1;
    let detail = toggle.eval(&user, &repo.segments, &repo.toggles, false, MAX_DEEP, None);
    assert_eq!(detail.value, Some(str_val("disabled_value")));
    assert!(detail.reason.starts_with("disabled."));
    assert_eq!(detail.variation_index, Some(0));
    assert_eq!(detail.version, Some(7));
}

#[test]
fn first_matching_rule_serves() {
    let rules = vec![
        Rule { serve: Serve::Select(2), conditions: vec![city_condition(vec!["4"])] },
        Rule { serve: Serve::Select(1), conditions: vec![city_condition(vec!["1", "2"])] },
    ];
    let repo = repo_of(vec![two_way_toggle("flag", true, rules)]);
    let toggle = &repo.toggles[0].1;

    // The first rule does not match, so it neither serves nor suppresses the
    // second.
    let user = FPUser::new().with("city".to_string(), "2".to_string());
    let detail = toggle.eval(&user, &repo.segments, &repo.toggles, false, MAX_DEEP, None);
    assert_eq!(detail.value, Some(str_val("default_value")));
    assert_eq!(detail.rule_index, Some(1));
    assert_eq!(detail.reason, "rule 1.");

    // The first rule matches, so the second plays no part.
    let user = FPUser::new().with("city".to_string(), "4".to_string());
    let detail = toggle.eval(&user, &repo.segments, &repo.toggles, false, MAX_DEEP, None);
    assert_eq!(detail.value, Some(str_val("rule_value")));
    assert_eq!(detail.rule_index, Some(0));
    assert_eq!(detail.reason, "rule 0.");
}

#[test]
fn partial_match_falls_through_to_default() {
    let rules = vec![Rule {
        serve: Serve::Select(2),
        conditions: vec![city_condition(vec!["1"]), Condition {
            ctype: ConditionType::Str,
            subject: "os".to_string(),
            predicate: "is one of".to_string(),
            objects: vec!["linux".to_string()],
        }],
    }];
    let repo = repo_of(vec![two_way_toggle("flag", true, rules)]);
    let toggle = &repo.toggles[0].1;

    // Only one of the two conditions holds: the rule must not serve.
    let user = FPUser::new().with("city".to_string(), "1".to_string());
    let detail = toggle.eval(&user, &repo.segments, &repo.toggles, false, MAX_DEEP, None);
    assert!(detail.reason.starts_with("default"));
    assert_eq!(detail.value, Some(str_val("default_value")));

    // Both hold: the rule serves.
    let user = FPUser::new()
        .with("city".to_string(), "1".to_string())
        .with("os".to_string(), "linux".to_string());
    let detail = toggle.eval(&user, &repo.segments, &repo.toggles, false, MAX_DEEP, None);
    assert_eq!(detail.value, Some(str_val("rule_value")));
}

#[test]
fn segment_condition_admits_members() {
    let segment = Segment {
        unique_id: "seg_1".to_string(),
        version: 1,
        rules: vec![SegmentRule { conditions: vec![city_condition(vec!["4"])] }],
    };
    let rules = vec![Rule {
        serve: Serve::Select(2),
        conditions: vec![Condition {
            ctype: ConditionType::Segment,
            subject: "".to_string(),
            predicate: "is in".to_string(),
            objects: vec!["seg_1".to_string()],
        }],
    }];
    let mut repo = repo_of(vec![two_way_toggle("flag", true, rules)]);
    repo.segments.push(("seg_1".to_string(), segment));
    let toggle = &repo.toggles[0].1;

    let member = FPUser::new().with("city".to_string(), "4".to_string());
    let detail = toggle.eval(&member, &repo.segments, &repo.toggles, false, MAX_DEEP, None);
    assert_eq!(detail.value, Some(str_val("rule_value")));

    let outsider = FPUser::new().with("city".to_string(), "9".to_string());
    let detail = toggle.eval(&outsider, &repo.segments, &repo.toggles, false, MAX_DEEP, None);
    assert_eq!(detail.value, Some(str_val("default_value")));
}

#[test]
fn not_in_segment_condition_admits_outsiders() {
    let segment = Segment {
        unique_id: "seg_1".to_string(),
        version: 1,
        rules: vec![SegmentRule { conditions: vec![city_condition(vec!["4"])] }],
    };
    let rules = vec![Rule {
        serve: Serve::Select(2),
        conditions: vec![Condition {
            ctype: ConditionType::Segment,
            subject: "".to_string(),
            predicate: "is not in".to_string(),
            objects: vec!["seg_1".to_string()],
        }],
    }];
    let mut repo = repo_of(vec![two_way_toggle("flag", true, rules)]);
    repo.segments.push(("seg_1".to_string(), segment));
    let toggle = &repo.toggles[0].1;

    let outsider = FPUser::new().with("city".to_string(), "100".to_string());
    let detail = toggle.eval(&outsider, &repo.segments, &repo.toggles, false, MAX_DEEP, None);
    assert_eq!(detail.value, Some(str_val("rule_value")));

    let member = FPUser::new().with("city".to_string(), "4".to_string());
    let detail = toggle.eval(&member, &repo.segments, &repo.toggles, false, MAX_DEEP, None);
    assert_eq!(detail.value, Some(str_val("default_value")));
}

#[test]
fn prerequisite_match_serves_normally() {
    let dep = Toggle::new_for_test("dep".to_string(), FPValue::Bool(true));
    let mut main = two_way_toggle("main", true, vec![]);
    main.prerequisites = Some(vec![Prerequisites {
        key: "dep".to_string(),
        value: FPValue::Bool(true),
    }]);
    let repo = repo_of(vec![dep, main]);
    let toggle = &repo.toggles[1].1;

    let user = FPUser::new();
    let detail = toggle.eval(&user, &repo.segments, &repo.toggles, false, MAX_DEEP, None);
    assert_eq!(detail.value, Some(str_val("default_value")));
    assert!(detail.reason.starts_with("default"));
}

#[test]
fn prerequisite_mismatch_serves_disabled() {
    let dep = Toggle::new_for_test("dep".to_string(), FPValue::Bool(false));
    let mut main = two_way_toggle("main", true, vec![]);
    main.prerequisites = Some(vec![Prerequisites {
        key: "dep".to_string(),
        value: FPValue::Bool(true),
    }]);
    let repo = repo_of(vec![dep, main]);
    let toggle = &repo.toggles[1].1;

    let user = FPUser::new();
    let detail = toggle.eval(&user, &repo.segments, &repo.toggles, false, MAX_DEEP, None);
    assert_eq!(detail.value, Some(str_val("disabled_value")));
    assert!(detail.reason.contains("disabled."));
    assert!(detail.reason.contains("Prerequisite not match"));
}

#[test]
fn prerequisite_not_exist_serves_disabled() {
    let mut main = two_way_toggle("main", true, vec![]);
    main.prerequisites = Some(vec![Prerequisites {
        key: "ghost".to_string(),
        value: FPValue::Bool(true),
    }]);
    let repo = repo_of(vec![main]);
    let toggle = &repo.toggles[0].1;

    let user = FPUser::new();
    let detail = toggle.eval(&user, &repo.segments, &repo.toggles, false, MAX_DEEP, None);
    assert_eq!(detail.value, Some(str_val("disabled_value")));
    assert!(detail.reason.contains("not exist"));
}

#[test]
fn prerequisite_depth_overflow_serves_disabled() {
    let dep = Toggle::new_for_test("dep".to_string(), FPValue::Bool(true));
    let mut main = two_way_toggle("main", true, vec![]);
    main.prerequisites = Some(vec![Prerequisites {
        key: "dep".to_string(),
        value: FPValue::Bool(true),
    }]);
    let repo = repo_of(vec![dep, main]);
    let toggle = &repo.toggles[1].1;

    let user = FPUser::new();
    let detail = toggle.eval(&user, &repo.segments, &repo.toggles, false, 1, None);
    assert_eq!(detail.value, Some(str_val("disabled_value")));
    assert!(detail.reason.contains("depth overflow"));
}

#[test]
fn rule_serve_error_stops_the_scan() {
    // Rule 0 matches but its split has a gap at every bucket; rule 1 would
    // match too, but the scan must stop at rule 0 with its error.
    let broken = Distribution {
        distribution: vec![vec![(0, 0)]],
        bucket_by: None,
        salt: Some("salt".to_string()),
    };
    let rules = vec![
        Rule { serve: Serve::Split(broken), conditions: vec![] },
        Rule { serve: Serve::Select(1), conditions: vec![] },
    ];
    let repo = repo_of(vec![two_way_toggle("flag", true, rules)]);
    let toggle = &repo.toggles[0].1;

    let user = FPUser::new();
    let detail = toggle.eval(&user, &repo.segments, &repo.toggles, false, MAX_DEEP, None);
    assert_eq!(detail.value, None);
    assert_eq!(detail.rule_index, Some(0));
}

#[test]
fn unknown_toggle_serves_default() {
    let fp = FeatureProbe::new_for_test("known", FPValue::Bool(false));
    let user = FPUser::new();

    assert!(fp.bool_value("none_exist_toggle", &user, true));
    let detail = fp.bool_detail("none_exist_toggle", &user, true);
    assert!(detail.value);
    assert_eq!(detail.rule_index, None);
    assert!(detail.reason.contains("not exist"));
    assert!(detail.reason.contains("none_exist_toggle"));
}

#[test]
fn type_mismatch_serves_default() {
    let fp = FeatureProbe::new_for_test("stringy", str_val("1"));
    let user = FPUser::new();

    assert!(fp.bool_value("stringy", &user, true));
    let detail = fp.bool_detail("stringy", &user, true);
    assert!(detail.value);
    assert_eq!(detail.reason, "Value type mismatch.");
}

#[test]
fn test_for_ut() {
    let fp = FeatureProbe::new_for_test("toggle_1", FPValue::Bool(false));
    let u = FPUser::new();
    assert!(!fp.bool_value("toggle_1", &u, true));

    let toggles = vec![
        ("toggle_2".to_owned(), FPValue::Number("12.5".to_owned())),
        ("toggle_3".to_owned(), str_val("value")),
    ];
    let fp = FeatureProbe::new_for_tests(toggles);
    let served = fp.json_value("toggle_2", &u, FPValue::Null);
    assert!(served.value_eq(&FPValue::Number("12.5".to_owned())));
    assert_eq!(fp.string_value("toggle_3", &u, "val".to_owned()), "value");
}

#[test]
fn json_getter_hands_the_payload_back() {
    let payload = FPValue::Object(vec![
        ("variation_0".to_string(), FPValue::Bool(true)),
        ("count".to_string(), FPValue::Number("3".to_string())),
    ]);
    let fp = FeatureProbe::new_for_test("json_toggle", payload.clone());
    let user = FPUser::new();

    let served = fp.json_value("json_toggle", &user, FPValue::Null);
    assert!(served.get("variation_0").is_some());
    assert!(served.get("missing").is_none());
    assert!(served.value_eq(&payload));
}

#[test]
fn string_getter_reads_string_variations() {
    let fp = FeatureProbe::new_for_test("string_toggle", str_val("1"));
    let user = FPUser::new().with("name".to_string(), "bob".to_string());

    assert_eq!(fp.string_value("string_toggle", &user, "".to_string()), "1".to_owned());
    assert_eq!(fp.string_detail("string_toggle", &user, "".to_owned()).value, "1".to_owned());
}

#[test]
fn bool_getter_reads_bool_variations() {
    let fp = FeatureProbe::new_for_test("bool_toggle", FPValue::Bool(true));
    let user = FPUser::new().with("name".to_string(), "bob".to_string());

    assert!(fp.bool_value("bool_toggle", &user, false));
    assert!(fp.bool_detail("bool_toggle", &user, false).value);
}
