//! Synchronization decisions and the user attribute bag.

use featureprobe::evaluate::Repository;
use featureprobe::sync::{apply_fetch, init_timeout_fn, should_send};
use featureprobe::user::FPUser;
use featureprobe::FPError;

fn versioned(version: Option<u128>) -> Repository {
    let mut r = Repository::new();
    r.version = version;
    r
}

#[test]
fn newer_fetch_swaps_and_reports_old_and_new() {
    let mut cache = versioned(Some(3));
    let displaced = apply_fetch(&mut cache, versioned(Some(4)));
    assert_eq!(cache.version, Some(4));
    assert_eq!(displaced.expect("swap must report the old snapshot").version, Some(3));
}

#[test]
fn stale_fetch_performs_no_swap_and_reports_nothing() {
    let mut cache = versioned(Some(3));

    let displaced = apply_fetch(&mut cache, versioned(Some(3)));
    assert_eq!(cache.version, Some(3));
    assert!(displaced.is_none());

    let displaced = apply_fetch(&mut cache, versioned(Some(2)));
    assert_eq!(cache.version, Some(3));
    assert!(displaced.is_none());

    let displaced = apply_fetch(&mut cache, versioned(None));
    assert_eq!(cache.version, Some(3));
    assert!(displaced.is_none());
}

#[test]
fn first_fetch_populates_an_unversioned_cache() {
    let mut cache = versioned(None);
    let displaced = apply_fetch(&mut cache, versioned(Some(1)));
    assert_eq!(cache.version, Some(1));
    assert!(displaced.is_some());
}

#[test]
fn test_should_send() {
    let r = should_send(Ok(()), false, false, false);
    assert!(r.is_none(), "no need send because not set timeout");

    let r = should_send(Ok(()), true, false, false);
    assert!(r.is_some(), "need send because not timeout, and return Ok");
    let r = r.unwrap();
    assert!(r.is_ok());

    let r = should_send(Ok(()), true, false, true);
    assert!(r.is_none(), "no need send because not timeout, and return error, wait next loop");

    let is_send = true;
    let r = should_send(Err(FPError::InternalError("unkown".to_owned())), true, false, is_send);
    assert!(r.is_none(), "no need send because already send before");

    let r = should_send(Err(FPError::InternalError("unkown".to_owned())), true, true, is_send);
    assert!(r.is_none(), "no need send because already send before");

    let is_send = false;
    let r = should_send(Err(FPError::InternalError("unkown".to_owned())), true, true, is_send);
    assert!(r.is_some(), "need send because already timeout");
    let r = r.unwrap();
    assert!(r.is_err());
}

#[test]
fn test_init_timeout_fn() {
    let is_timeout = init_timeout_fn(None, 1, 10);
    assert!(is_timeout.is_none());

    let is_timeout = init_timeout_fn(Some(20), 1, 10);
    assert!(!is_timeout.unwrap());

    let is_timeout = init_timeout_fn(Some(5), 1, 10);
    assert!(is_timeout.unwrap());
}

#[test]
fn test_user_with() {
    let u = FPUser::new()
        .with("name".to_string(), "bob".to_string())
        .with("phone".to_string(), "123".to_string());
    assert_eq!(u.get("name"), Some(&"bob".to_owned()));
    assert_eq!(u.get("phone"), Some(&"123".to_owned()));
    assert_eq!(u.get_all().len(), 2);
    // The generated key does not change between reads.
    assert_eq!(u.key(), u.key());
}

#[test]
fn test_user_with_attrs() {
    let attrs = vec![
        ("name".to_owned(), "bob".to_owned()),
        ("phone".to_owned(), "123".to_owned()),
    ];
    let u = FPUser::new().with_attrs(attrs);
    assert_eq!(u.get_all().len(), 2);
}

#[test]
fn user_with_replaces_earlier_binding() {
    let u = FPUser::new()
        .with("name".to_string(), "bob".to_string())
        .with("name".to_string(), "alice".to_string());
    assert_eq!(u.get("name"), Some(&"alice".to_owned()));
    assert_eq!(u.get_all().len(), 1);
}
