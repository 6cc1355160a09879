//! What a server's responses count as.

use rustfs_operator::error::Error;
use rustfs_operator::exchange::{Answer, RemoteUser, Reply, UserStatus};
use rustfs_operator::provider::{
    deleted, key_listed, quota_found, user_found, written, Refusal,
};
use rustfs_operator::reconcile::{error_policy, Action};

fn not_found() -> Refusal {
    Refusal::NotFound("Not found: it".into())
}

fn other() -> Refusal {
    Refusal::Other("Conflict: it".into())
}

/// Checks that an answer is an error with the given message.
fn refused(answer: Answer, message: &str) {
    assert_eq!(answer.unwrap_err(), Error::RustFs(message.into()));
}

#[test]
fn deletes_are_tolerant_of_absent_resources() {
    assert!(matches!(deleted(Ok(())), Ok(Reply::Done)));
    assert!(matches!(deleted(Err(not_found())), Ok(Reply::Done)));
    refused(deleted(Err(other())), "Conflict: it");
}

#[test]
fn writes_are_not() {
    assert!(matches!(written(Ok(())), Ok(Reply::Done)));
    refused(written(Err(not_found())), "Not found: it");
    refused(written(Err(other())), "Conflict: it");
}

#[test]
fn an_absent_user_is_no_error() {
    let user = RemoteUser {
        status: UserStatus::Disabled,
        policy_name: Some("p".into()),
    };
    match user_found(Ok(user.clone())) {
        Ok(Reply::User(Some(found))) => assert_eq!(found, user),
        other => panic!("unexpected {other:?}"),
    }
    assert!(matches!(user_found(Err(not_found())), Ok(Reply::User(None))));
    refused(user_found(Err(other())), "Conflict: it");
}

#[test]
fn an_absent_quota_is_no_error() {
    assert!(matches!(quota_found(Ok(Some(5))), Ok(Reply::Quota(Some(5)))));
    assert!(matches!(quota_found(Ok(None)), Ok(Reply::Quota(None))));
    assert!(matches!(quota_found(Err(not_found())), Ok(Reply::Quota(None))));
    refused(quota_found(Err(other())), "Conflict: it");
}

#[test]
fn a_key_is_there_if_it_is_listed() {
    let keys = || Ok(vec!["AK1".to_string(), "AK2".to_string()]);
    assert!(matches!(key_listed(keys(), "AK2"), Ok(Reply::Exists(true))));
    assert!(matches!(key_listed(keys(), "AK3"), Ok(Reply::Exists(false))));
    assert!(matches!(key_listed(Ok(vec![]), ""), Ok(Reply::Exists(false))));
    // a listing that is refused says nothing of the key
    refused(key_listed(Err(not_found()), "AK1"), "Not found: it");
}

#[test]
fn a_failure_is_tried_again_soon() {
    assert_eq!(error_policy(), Action::Requeue { seconds: 15 });
}
