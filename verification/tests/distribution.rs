//! The salted hash and the range-table lookup.

use featureprobe::evaluate::{Distribution, Serve};
use featureprobe::hash::salt_hash;
use featureprobe::user::FPUser;
use featureprobe::value::FPValue;

#[test]
fn test_salt_hash() {
    let bucket = salt_hash("key", "salt", 10000);
    assert_eq!(2647, bucket);
}

#[test]
fn test_distribution_in_exact_bucket() {
    let distribution = Distribution {
        distribution: vec![vec![(0, 2647)], vec![(2647, 2648)], vec![(2648, 10000)]],
        bucket_by: Some("name".to_string()),
        salt: Some("salt".to_string()),
    };

    let user_bucket_by_name = FPUser::new().with("name".to_string(), "key".to_string());
    let result = distribution.find_index("not care", true, &user_bucket_by_name);

    assert_eq!(1, result.unwrap_or_default());
}

#[test]
fn test_distribution_in_none_bucket() {
    let distribution = Distribution {
        distribution: vec![vec![(0, 2647)], vec![(2648, 10000)]],
        bucket_by: Some("name".to_string()),
        salt: Some("salt".to_string()),
    };

    let user_bucket_by_name = FPUser::new().with("name".to_string(), "key".to_string());
    let result = distribution.find_index("not care", true, &user_bucket_by_name);

    assert!(format!("{:?}", result.expect_err("error")).contains("not find hash_bucket"));

    let result = distribution.find_index("not care", false, &user_bucket_by_name);
    assert!(result.is_err());
}

#[test]
fn test_select_variation_fail() {
    let distribution = Distribution {
        distribution: vec![vec![(0, 5000)], vec![(5000, 10000)]],
        bucket_by: Some("name".to_string()),
        salt: Some("salt".to_string()),
    };
    let serve = Serve::Split(distribution);

    let user_with_no_name = FPUser::new();
    let variations = vec![FPValue::Str("a".to_string()), FPValue::Str("b".to_string())];

    let result = serve.select_variation("", true, &user_with_no_name, &variations).expect_err("e");

    assert!(format!("{:?}", result).contains("does not have attribute"));
}

#[test]
fn select_variation_index_overflow() {
    let serve = Serve::Select(3);
    let user = FPUser::new();
    let variations = vec![FPValue::Bool(true)];

    let result = serve.select_variation("t", true, &user, &variations).expect_err("e");
    assert!(format!("{:?}", result).contains("index 3 overflow, variations count is 1"));

    let result = serve.select_variation("t", false, &user, &variations).expect_err("e");
    assert!(format!("{:?}", result).contains("EvalError"));
}

#[test]
fn empty_salt_falls_back_to_toggle_key() {
    let with_empty_salt = Distribution {
        distribution: vec![vec![(0, 10000)]],
        bucket_by: None,
        salt: Some("".to_string()),
    };
    let without_salt = Distribution {
        distribution: vec![vec![(0, 10000)]],
        bucket_by: None,
        salt: None,
    };
    let user = FPUser::new().stable_rollout("alice".to_string());
    assert_eq!(
        with_empty_salt.find_index("toggle_key", false, &user).unwrap(),
        without_salt.find_index("toggle_key", false, &user).unwrap()
    );
}

#[test]
fn thirds_split_is_roughly_even() {
    let distribution = Distribution {
        distribution: vec![vec![(0, 3333)], vec![(3333, 6666)], vec![(6666, 10000)]],
        bucket_by: None,
        salt: Some("salt".to_string()),
    };

    let total = 10000u32;
    let mut counts = [0u32; 3];
    for i in 0..total {
        let user = FPUser::new().stable_rollout(format!("{}", i));
        let idx = distribution.find_index("k", false, &user).expect("bucket");
        counts[idx] += 1;
    }

    // Each share must land within 5% of one third.
    for &c in counts.iter() {
        assert!(c >= 3167, "share {} below 95% of a third", c);
        assert!(c <= 3500, "share {} above 105% of a third", c);
    }
}
