//! Bringing buckets in line, applying and cleaning up after Buckets.

use std::collections::{BTreeMap, HashMap};

use rc_core::lifecycle::{
    LifecycleTransition, NoncurrentVersionExpiration, NoncurrentVersionTransition,
};
use rustfs_operator::crd::{
    Bucket, BucketSpec, ClusterConnectionSpec, ConnectionRef, DeletionPolicy, LifecycleRuleSpec,
    LifecycleStatus, ObjectMeta, ResourceStatus,
};
use rustfs_operator::error::Error;
use rustfs_operator::exchange::{Answer, Reply, Request, Step, Turn};
use rustfs_operator::lifecycle::{lifecycle_eq, LifecycleExpiration, LifecycleRule};
use rustfs_operator::reconcile::bucket::{
    apply, cleanup, cleanup_bucket, ensure_bucket, to_rc_rule,
};
use rustfs_operator::reconcile::{Action, Report};
use rustfs_operator::secret::{Secret, SecretData};

fn spec(versioning: Option<bool>, quota_bytes: Option<u64>) -> BucketSpec {
    BucketSpec {
        connection: ConnectionRef::local("conn"),
        bucket_name: None,
        versioning,
        quota_bytes,
        lifecycle: None,
        deletion_policy: DeletionPolicy::default(),
    }
}

fn spec_with_lifecycle(rules: Option<Vec<LifecycleRuleSpec>>) -> BucketSpec {
    BucketSpec {
        lifecycle: rules,
        ..spec(None, None)
    }
}

fn expire_after(id: &str, prefix: &str, days: i32) -> LifecycleRuleSpec {
    LifecycleRuleSpec {
        id: id.into(),
        status: LifecycleStatus::Enabled,
        prefix: Some(prefix.into()),
        expiration_days: Some(days),
        abort_incomplete_multipart_upload_days: None,
    }
}

/// Checks that a reply is of the kind that the request calls for.
fn answered(request: Request, fs: &mut dyn FnMut(Request) -> Answer) -> Answer {
    let kind = request.reply_kind();
    let answer = fs(request);
    if let Ok(reply) = &answer {
        assert_eq!(reply.kind(), kind);
    }
    answer
}

/// Brings a bucket in line on the given server.
fn ensure(
    name: &str,
    spec: &BucketSpec,
    fs: &mut dyn FnMut(Request) -> Answer,
) -> Result<(), Error> {
    let mut turn = Turn::Begin;
    loop {
        match ensure_bucket(name, spec, turn) {
            Step::Ask { stage, request } => {
                let answer = answered(request, fs);
                turn = Turn::Resume { stage, answer };
            }
            Step::Done(()) => return Ok(()),
            Step::Failed(error) => return Err(error),
        }
    }
}

#[test]
fn creates_missing_bucket() {
    let mut created = 0;
    ensure("demo", &spec(None, None), &mut |request| match request {
        Request::BucketExists { bucket } => {
            assert_eq!(bucket, "demo");
            Ok(Reply::Exists(false))
        }
        Request::CreateBucket { bucket } => {
            assert_eq!(bucket, "demo");
            created += 1;
            Ok(Reply::Done)
        }
        other => panic!("unexpected {other:?}"),
    })
    .unwrap();
    assert_eq!(created, 1);
}

#[test]
fn existing_bucket_untouched_when_spec_matches() {
    let mut reads = 0;
    ensure(
        "demo",
        &spec(Some(true), Some(1024)),
        &mut |request| {
            reads += 1;
            match request {
                Request::BucketExists { .. } => Ok(Reply::Exists(true)),
                Request::GetVersioning { .. } => Ok(Reply::Versioning(Some(true))),
                Request::GetBucketQuota { .. } => Ok(Reply::Quota(Some(1024))),
                other => panic!("unexpected {other:?}"),
            }
        },
    )
    .unwrap();
    assert_eq!(reads, 3);
}

#[test]
fn corrects_versioning_and_quota_drift() {
    let mut writes = Vec::new();
    ensure(
        "demo",
        &spec(Some(true), Some(2048)),
        &mut |request| match request {
            Request::BucketExists { .. } => Ok(Reply::Exists(true)),
            Request::GetVersioning { .. } => Ok(Reply::Versioning(None)),
            Request::SetVersioning { bucket, enabled } => {
                assert!(bucket == "demo" && enabled);
                writes.push("versioning");
                Ok(Reply::Done)
            }
            Request::GetBucketQuota { .. } => Ok(Reply::Quota(Some(5))),
            Request::SetBucketQuota { bucket, bytes } => {
                assert!(bucket == "demo" && bytes == 2048);
                writes.push("quota");
                Ok(Reply::Done)
            }
            other => panic!("unexpected {other:?}"),
        },
    )
    .unwrap();
    assert_eq!(writes, ["versioning", "quota"]);
}

#[test]
fn applies_lifecycle_when_bucket_has_none() {
    let spec = spec_with_lifecycle(Some(vec![expire_after(
        "expire-proxy-cache",
        "proxy-cache/",
        1,
    )]));
    let mut writes = 0;
    ensure("cache", &spec, &mut |request| match request {
        Request::BucketExists { .. } => Ok(Reply::Exists(true)),
        Request::GetBucketLifecycle { .. } => Ok(Reply::Lifecycle(vec![])),
        Request::SetBucketLifecycle { bucket, rules } => {
            assert!(
                bucket == "cache"
                    && rules.len() == 1
                    && rules[0].id == "expire-proxy-cache"
                    && rules[0].prefix.as_deref() == Some("proxy-cache/")
                    && rules[0].expiration.as_ref().and_then(|e| e.days) == Some(1)
            );
            writes += 1;
            Ok(Reply::Done)
        }
        other => panic!("unexpected {other:?}"),
    })
    .unwrap();
    assert_eq!(writes, 1);
}

#[test]
fn lifecycle_untouched_when_already_matching() {
    let rule = expire_after("expire-proxy-cache", "proxy-cache/", 1);
    let spec = spec_with_lifecycle(Some(vec![rule.clone()]));
    // No set/delete: a matching bucket must not be rewritten on every reconcile.
    ensure("cache", &spec, &mut |request| match request {
        Request::BucketExists { .. } => Ok(Reply::Exists(true)),
        Request::GetBucketLifecycle { .. } => Ok(Reply::Lifecycle(vec![to_rc_rule(&rule)])),
        other => panic!("unexpected {other:?}"),
    })
    .unwrap();
}

#[test]
fn empty_lifecycle_list_deletes_the_configuration() {
    let spec = spec_with_lifecycle(Some(vec![]));
    let mut deletes = 0;
    ensure("cache", &spec, &mut |request| match request {
        Request::BucketExists { .. } => Ok(Reply::Exists(true)),
        Request::GetBucketLifecycle { .. } => Ok(Reply::Lifecycle(vec![to_rc_rule(
            &expire_after("old", "tmp/", 7),
        )])),
        // An empty list is a DELETE, not a PUT of an empty configuration.
        Request::DeleteBucketLifecycle { .. } => {
            deletes += 1;
            Ok(Reply::Done)
        }
        other => panic!("unexpected {other:?}"),
    })
    .unwrap();
    assert_eq!(deletes, 1);
}

#[test]
fn unset_lifecycle_is_unmanaged() {
    // Unset means that the bucket's lifecycle is not even looked at.
    let spec = spec_with_lifecycle(None);
    ensure("cache", &spec, &mut |request| match request {
        Request::BucketExists { .. } => Ok(Reply::Exists(true)),
        other => panic!("unexpected {other:?}"),
    })
    .unwrap();
}

#[test]
fn retain_policy_skips_remote_delete() {
    let mut s = spec(None, None);
    s.deletion_policy = DeletionPolicy::Retain;
    assert!(cleanup_bucket("demo", &s).is_none());
}

#[test]
fn delete_policy_removes_bucket() {
    match cleanup_bucket("demo", &spec(None, None)) {
        Some(Request::DeleteBucket { bucket }) => assert_eq!(bucket, "demo"),
        other => panic!("unexpected {other:?}"),
    }
}

/// A server that behaves, with one bucket at most.
#[derive(Default)]
struct Server {
    exists: bool,
    versioning: Option<bool>,
    quota: Option<u64>,
    rules: Vec<LifecycleRuleSpec>,
    log: Vec<String>,
}

impl Server {
    fn serve(&mut self, request: Request) -> Answer {
        self.log.push(
            format!("{request:?}")
                .split(' ')
                .next()
                .unwrap()
                .to_string(),
        );
        match request {
            Request::BucketExists { .. } => Ok(Reply::Exists(self.exists)),
            Request::CreateBucket { .. } => {
                self.exists = true;
                Ok(Reply::Done)
            }
            Request::GetVersioning { .. } => Ok(Reply::Versioning(self.versioning)),
            Request::SetVersioning { enabled, .. } => {
                self.versioning = Some(enabled);
                Ok(Reply::Done)
            }
            Request::GetBucketQuota { .. } => Ok(Reply::Quota(self.quota)),
            Request::SetBucketQuota { bytes, .. } => {
                self.quota = Some(bytes);
                Ok(Reply::Done)
            }
            Request::GetBucketLifecycle { .. } => Ok(Reply::Lifecycle(
                self.rules.iter().map(to_rc_rule).collect(),
            )),
            Request::SetBucketLifecycle { rules, .. } => {
                assert!(!rules.is_empty());
                self.rules = rules
                    .iter()
                    .map(|r| LifecycleRuleSpec {
                        id: r.id.clone(),
                        status: r.status,
                        prefix: r.prefix.clone(),
                        expiration_days: r.expiration.as_ref().and_then(|e| e.days),
                        abort_incomplete_multipart_upload_days: r
                            .abort_incomplete_multipart_upload_days,
                    })
                    .collect();
                Ok(Reply::Done)
            }
            Request::DeleteBucketLifecycle { .. } => {
                self.rules.clear();
                Ok(Reply::Done)
            }
            other => panic!("unexpected {other:?}"),
        }
    }
}

#[test]
fn a_second_run_only_reads() {
    let rule = expire_after("r", "p/", 3);
    let mut s = spec(Some(true), Some(4096));
    s.lifecycle = Some(vec![rule.clone()]);
    let mut server = Server::default();
    ensure("b", &s, &mut |r| server.serve(r)).unwrap();
    assert_eq!(
        server.log,
        [
            "BucketExists",
            "CreateBucket",
            "GetVersioning",
            "SetVersioning",
            "GetBucketQuota",
            "SetBucketQuota",
            "GetBucketLifecycle",
            "SetBucketLifecycle"
        ]
    );
    assert!(server.exists);
    assert_eq!(server.versioning, Some(true));
    assert_eq!(server.quota, Some(4096));
    assert_eq!(server.rules, vec![rule]);
    server.log.clear();
    ensure("b", &s, &mut |r| server.serve(r)).unwrap();
    assert_eq!(
        server.log,
        [
            "BucketExists",
            "GetVersioning",
            "GetBucketQuota",
            "GetBucketLifecycle"
        ]
    );
}

#[test]
fn versioning_that_was_never_set_counts_as_off() {
    for (current, wanted, corrected) in [
        (None, false, false),
        (Some(false), false, false),
        (Some(true), false, true),
        (None, true, true),
        (Some(false), true, true),
    ] {
        let mut server = Server {
            exists: true,
            versioning: current,
            ..Server::default()
        };
        ensure("b", &spec(Some(wanted), None), &mut |r| server.serve(r)).unwrap();
        assert_eq!(server.log.contains(&"SetVersioning".to_string()), corrected);
        assert_eq!(
            server.versioning,
            if corrected { Some(wanted) } else { current }
        );
    }
}

#[test]
fn a_missing_quota_is_not_a_quota_of_zero() {
    let mut server = Server {
        exists: true,
        ..Server::default()
    };
    ensure("b", &spec(None, Some(0)), &mut |r| server.serve(r)).unwrap();
    assert_eq!(server.quota, Some(0));
    assert_eq!(
        server.log,
        ["BucketExists", "GetBucketQuota", "SetBucketQuota"]
    );
}

#[test]
fn an_empty_lifecycle_that_is_wanted_empty_is_left_alone() {
    let mut server = Server {
        exists: true,
        ..Server::default()
    };
    let s = spec_with_lifecycle(Some(vec![]));
    ensure("b", &s, &mut |r| server.serve(r)).unwrap();
    assert_eq!(server.log, ["BucketExists", "GetBucketLifecycle"]);
}

#[test]
fn an_error_ends_a_bucket_at_once() {
    let mut asked = 0;
    let result = ensure("b", &spec(Some(true), None), &mut |request| {
        asked += 1;
        match request {
            Request::BucketExists { .. } => Ok(Reply::Exists(true)),
            _ => Err(Error::RustFs("access denied".into())),
        }
    });
    assert_eq!(result, Err(Error::RustFs("access denied".into())));
    assert_eq!(asked, 2);
}

#[test]
fn rules_map_onto_the_wire() {
    let rule = to_rc_rule(&LifecycleRuleSpec {
        id: "expire-cache".into(),
        status: LifecycleStatus::Disabled,
        prefix: None,
        expiration_days: Some(1),
        abort_incomplete_multipart_upload_days: Some(2),
    });
    assert_eq!(rule.id, "expire-cache");
    assert_eq!(rule.status, LifecycleStatus::Disabled);
    assert_eq!(rule.prefix, None);
    assert!(rule.tags.is_none());
    assert_eq!(
        rule.expiration,
        Some(LifecycleExpiration {
            days: Some(1),
            date: None
        })
    );
    assert!(rule.transition.is_none());
    assert!(rule.noncurrent_version_expiration.is_none());
    assert!(rule.noncurrent_version_transition.is_none());
    assert_eq!(rule.expired_object_delete_marker, None);
    assert_eq!(rule.abort_incomplete_multipart_upload_days, Some(2));
    let mut plain = expire_after("r", "p/", 1);
    plain.expiration_days = None;
    assert_eq!(to_rc_rule(&plain).expiration, None);
}

fn base_rule() -> LifecycleRule {
    to_rc_rule(&expire_after("r", "p/", 1))
}

fn same(current: LifecycleRule, desired: LifecycleRule) -> bool {
    lifecycle_eq(&vec![current], &vec![desired])
}

#[test]
fn rules_are_compared_in_every_field() {
    assert!(same(base_rule(), base_rule()));
    assert!(lifecycle_eq(&vec![], &vec![]));
    assert!(!lifecycle_eq(&vec![base_rule()], &vec![]));
    assert!(!lifecycle_eq(&vec![], &vec![base_rule()]));

    let mut other = base_rule();
    other.id = "s".into();
    assert!(!same(other, base_rule()));
    let mut other = base_rule();
    other.status = LifecycleStatus::Disabled;
    assert!(!same(other, base_rule()));
    let mut other = base_rule();
    other.prefix = None;
    assert!(!same(other, base_rule()));
    let mut other = base_rule();
    other.tags = Some(HashMap::new());
    assert!(!same(other, base_rule()));
    let mut other = base_rule();
    other.expiration = Some(LifecycleExpiration {
        days: Some(1),
        date: Some("2030-01-01".into()),
    });
    assert!(!same(other, base_rule()));
    let mut other = base_rule();
    other.expiration = Some(LifecycleExpiration {
        days: None,
        date: None,
    });
    let mut none = base_rule();
    none.expiration = None;
    assert!(!same(other, none));
    let mut other = base_rule();
    other.transition = Some(LifecycleTransition {
        days: Some(1),
        date: None,
        storage_class: "COLD".into(),
    });
    assert!(!same(other, base_rule()));
    let mut other = base_rule();
    other.noncurrent_version_expiration = Some(NoncurrentVersionExpiration {
        noncurrent_days: 1,
        newer_noncurrent_versions: None,
    });
    assert!(!same(other, base_rule()));
    let mut other = base_rule();
    other.noncurrent_version_transition = Some(NoncurrentVersionTransition {
        noncurrent_days: 1,
        storage_class: "COLD".into(),
    });
    assert!(!same(other, base_rule()));
    let mut other = base_rule();
    other.expired_object_delete_marker = Some(false);
    assert!(!same(other, base_rule()));
    let mut other = base_rule();
    other.abort_incomplete_multipart_upload_days = Some(1);
    assert!(!same(other, base_rule()));
}

#[test]
fn tags_are_compared_whatever_their_order() {
    let tagged = |tags: &[(&str, &str)]| {
        let mut rule = base_rule();
        rule.tags = Some(
            tags.iter()
                .map(|(k, v)| (k.to_string(), v.to_string()))
                .collect(),
        );
        rule
    };
    assert!(same(
        tagged(&[("a", "1"), ("b", "2"), ("c", "3")]),
        tagged(&[("c", "3"), ("b", "2"), ("a", "1")])
    ));
    assert!(!same(
        tagged(&[("a", "1"), ("b", "2")]),
        tagged(&[("a", "2"), ("b", "1")])
    ));
}

#[test]
fn the_order_of_rules_counts() {
    let a = || to_rc_rule(&expire_after("a", "p/", 1));
    let b = || to_rc_rule(&expire_after("b", "p/", 1));
    assert!(lifecycle_eq(&vec![a(), b()], &vec![a(), b()]));
    assert!(!lifecycle_eq(&vec![a(), b()], &vec![b(), a()]));
}

fn bucket(spec: BucketSpec) -> Bucket {
    Bucket {
        metadata: ObjectMeta {
            name: Some("e2e-bucket".into()),
            generate_name: None,
            uid: None,
            generation: Some(3),
        },
        spec,
        status: None,
    }
}

fn secret(entries: &[(&str, &str)]) -> Secret {
    let mut data = SecretData::new();
    for (key, value) in entries {
        data.insert(key, value.as_bytes().to_vec());
    }
    Secret { data: Some(data) }
}

fn connection_secret() -> Secret {
    secret(&[
        ("endpoint", "http://rustfs:9000"),
        ("accessKey", "rustfsadmin"),
        ("secretKey", "rustfsadmin"),
    ])
}

/// Applies a Bucket in the namespace `team-x`.
fn applied(obj: &Bucket, fs: &mut dyn FnMut(Request) -> Answer) -> Report<ResourceStatus> {
    let mut turn = Turn::Begin;
    loop {
        match apply(obj, "team-x", "operators", turn) {
            Step::Ask { stage, request } => {
                let answer = answered(request, fs);
                turn = Turn::Resume { stage, answer };
            }
            Step::Done(report) => return report,
            Step::Failed(error) => panic!("unreported {error:?}"),
        }
    }
}

#[test]
fn applying_connects_and_reports() {
    let mut log = Vec::new();
    let mut exists = false;
    let report = applied(&bucket(spec(None, None)), &mut |request| match request {
        Request::GetSecret { namespace, name } => {
            log.push(format!("secret {namespace}/{name}"));
            Ok(Reply::Secret(connection_secret()))
        }
        Request::Connect { info } => {
            log.push(format!("connect {} as {}", info.endpoint, info.access_key));
            Ok(Reply::Connected {
                endpoint: info.endpoint,
            })
        }
        Request::BucketExists { bucket } => {
            log.push(format!("exists {bucket}"));
            Ok(Reply::Exists(exists))
        }
        Request::CreateBucket { bucket } => {
            log.push(format!("create {bucket}"));
            exists = true;
            Ok(Reply::Done)
        }
        other => panic!("unexpected {other:?}"),
    });
    assert_eq!(
        log,
        [
            "secret team-x/conn",
            "connect http://rustfs:9000 as rustfsadmin",
            "exists e2e-bucket",
            "create e2e-bucket"
        ]
    );
    assert_eq!(
        report.status,
        ResourceStatus {
            ready: true,
            message: Some("reconciled".into()),
            observed_generation: Some(3)
        }
    );
    assert_eq!(report.outcome, Ok(Action::Requeue { seconds: 300 }));
}

#[test]
fn applying_reports_what_the_server_refuses() {
    let report = applied(&bucket(spec(None, None)), &mut |request| match request {
        Request::GetSecret { .. } => Ok(Reply::Secret(connection_secret())),
        Request::Connect { info } => Ok(Reply::Connected {
            endpoint: info.endpoint,
        }),
        _ => Err(Error::RustFs("access denied".into())),
    });
    assert_eq!(
        report.status,
        ResourceStatus {
            ready: false,
            message: Some("access denied".into()),
            observed_generation: Some(3)
        }
    );
    assert_eq!(report.outcome, Err(Error::RustFs("access denied".into())));
}

fn denied() -> ClusterConnectionSpec {
    ClusterConnectionSpec {
        endpoint: "http://rustfs:9000".into(),
        credentials_secret_ref: "rustfs-admin".into(),
        region: None,
        insecure: false,
        allowed_namespaces: Some(vec!["default".into()]),
    }
}

#[test]
fn a_denied_bucket_reports_not_allowed() {
    let mut s = spec(None, None);
    s.connection = ConnectionRef::cluster("prod");
    let mut asked = 0;
    let report = applied(&bucket(s), &mut |request| {
        asked += 1;
        match request {
            Request::GetClusterConnection { name } => {
                assert_eq!(name, "prod");
                Ok(Reply::ClusterConnection(denied()))
            }
            other => panic!("unexpected {other:?}"),
        }
    });
    assert_eq!(asked, 1);
    assert!(!report.status.ready);
    assert_eq!(
        report.status.message.as_deref(),
        Some("namespace 'team-x' is not allowed to use ClusterConnection 'prod'")
    );
    assert!(report.outcome.is_err());
}

/// Cleans up after a Bucket in the namespace `team-x`.
fn cleaned_up(obj: &Bucket, fs: &mut dyn FnMut(Request) -> Answer) -> Result<Action, Error> {
    let mut turn = Turn::Begin;
    loop {
        match cleanup(obj, "team-x", "operators", turn) {
            Step::Ask { stage, request } => {
                let answer = answered(request, fs);
                turn = Turn::Resume { stage, answer };
            }
            Step::Done(action) => return Ok(action),
            Step::Failed(error) => return Err(error),
        }
    }
}

#[test]
fn cleaning_up_removes_the_bucket() {
    let mut buckets = BTreeMap::from([("e2e-bucket".to_string(), ()), ("other".to_string(), ())]);
    let action = cleaned_up(&bucket(spec(None, None)), &mut |request| match request {
        Request::GetSecret { .. } => Ok(Reply::Secret(connection_secret())),
        Request::Connect { info } => Ok(Reply::Connected {
            endpoint: info.endpoint,
        }),
        Request::DeleteBucket { bucket } => {
            buckets.remove(&bucket);
            Ok(Reply::Done)
        }
        other => panic!("unexpected {other:?}"),
    });
    assert_eq!(action, Ok(Action::AwaitChange));
    assert_eq!(buckets.keys().collect::<Vec<_>>(), ["other"]);
}

#[test]
fn cleaning_up_passes_errors_on() {
    let action = cleaned_up(&bucket(spec(None, None)), &mut |request| match request {
        Request::GetSecret { .. } => Ok(Reply::Secret(connection_secret())),
        Request::Connect { info } => Ok(Reply::Connected {
            endpoint: info.endpoint,
        }),
        _ => Err(Error::RustFs("bucket not empty".into())),
    });
    assert_eq!(action, Err(Error::RustFs("bucket not empty".into())));
}

#[test]
fn a_retained_bucket_needs_no_connection() {
    let mut s = spec(None, None);
    s.connection = ConnectionRef::cluster("prod");
    s.deletion_policy = DeletionPolicy::Retain;
    let action = cleaned_up(&bucket(s), &mut |request| panic!("unexpected {request:?}"));
    assert_eq!(action, Ok(Action::AwaitChange));
}
