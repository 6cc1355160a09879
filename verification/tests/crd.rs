//! The custom resources.

use rustfs_operator::crd::{
    default_true, AccessKey, AccessKeySpec, AccessKeyStatus, Bucket, BucketSpec,
    ClusterConnectionSpec, ConnectionRef, DeletionPolicy, LifecycleStatus, ObjectMeta, Policy,
    PolicySpec, ResourceStatus, SecretKeyRef, User, UserSpec,
};

fn cc_spec(allowed: Option<Vec<&str>>) -> ClusterConnectionSpec {
    ClusterConnectionSpec {
        endpoint: "http://rustfs:9000".into(),
        credentials_secret_ref: "rustfs-admin".into(),
        region: None,
        insecure: false,
        allowed_namespaces: allowed.map(|v| v.iter().map(|s| s.to_string()).collect()),
    }
}

fn meta(name: Option<&str>) -> ObjectMeta {
    ObjectMeta {
        name: name.map(str::to_string),
        generate_name: None,
        uid: None,
        generation: None,
    }
}

fn bucket(meta_name: Option<&str>, bucket_name: Option<&str>) -> Bucket {
    Bucket {
        metadata: meta(meta_name),
        spec: BucketSpec {
            connection: ConnectionRef::local("conn"),
            bucket_name: bucket_name.map(str::to_string),
            versioning: None,
            quota_bytes: None,
            lifecycle: None,
            deletion_policy: DeletionPolicy::default(),
        },
        status: None,
    }
}

fn user(meta_name: Option<&str>, username: Option<&str>) -> User {
    User {
        metadata: meta(meta_name),
        spec: UserSpec {
            connection: ConnectionRef::local("conn"),
            username: username.map(str::to_string),
            password_ref: SecretKeyRef {
                name: "creds".into(),
                key: None,
            },
            policies: vec![],
            enabled: default_true(),
            deletion_policy: DeletionPolicy::default(),
        },
        status: None,
    }
}

fn access_key(meta_name: Option<&str>, target: Option<&str>) -> AccessKey {
    AccessKey {
        metadata: meta(meta_name),
        spec: AccessKeySpec {
            connection: ConnectionRef::cluster("prod"),
            user: "spark".into(),
            password_ref: SecretKeyRef {
                name: "spark-password".into(),
                key: None,
            },
            access_key: None,
            description: None,
            policy: None,
            target_secret_name: target.map(str::to_string),
            deletion_policy: DeletionPolicy::default(),
        },
        status: None,
    }
}

fn policy(meta_name: Option<&str>, policy_name: Option<&str>) -> Policy {
    Policy {
        metadata: meta(meta_name),
        spec: PolicySpec {
            connection: ConnectionRef::cluster("prod"),
            policy_name: policy_name.map(str::to_string),
            document: serde_json::Value::Null,
            deletion_policy: DeletionPolicy::default(),
        },
        status: None,
    }
}

#[test]
fn absent_allowed_namespaces_allows_all() {
    assert!(cc_spec(None).allows_namespace("anything"));
}

#[test]
fn allowed_namespaces_is_an_exact_allowlist() {
    let spec = cc_spec(Some(vec!["team-a", "team-b"]));
    assert!(spec.allows_namespace("team-a"));
    assert!(!spec.allows_namespace("team-c"));
    // empty list denies everything
    assert!(!cc_spec(Some(vec![])).allows_namespace("team-a"));
}

/// A connection reference out of its YAML form. The program reads it by a derived
/// impl on a type of its own, with a test next to it; the library's type has no
/// such impl, so the two fields are picked out here.
fn connection_ref(yaml: &str) -> ConnectionRef {
    let value: serde_yaml::Value = serde_yaml::from_str(yaml).unwrap();
    let text = |key: &str| value.get(key).and_then(|v| v.as_str()).map(str::to_string);
    ConnectionRef {
        secret_ref: text("secretRef"),
        cluster_ref: text("clusterRef"),
    }
}

#[test]
fn connection_ref_yaml_forms_deserialize() {
    let local: ConnectionRef = connection_ref("secretRef: conn");
    assert_eq!(local, ConnectionRef::local("conn"));
    let cluster: ConnectionRef = connection_ref("clusterRef: prod");
    assert_eq!(cluster, ConnectionRef::cluster("prod"));
}

#[test]
fn allowed_namespaces_are_compared_whole() {
    let spec = cc_spec(Some(vec!["team-a"]));
    assert!(!spec.allows_namespace("team"));
    assert!(!spec.allows_namespace("team-a2"));
    assert!(!spec.allows_namespace("TEAM-A"));
    assert!(!spec.allows_namespace(""));
}

#[test]
fn defaults_are_those_of_the_resources() {
    assert_eq!(DeletionPolicy::default(), DeletionPolicy::Delete);
    assert_eq!(LifecycleStatus::default(), LifecycleStatus::Enabled);
    assert!(default_true());
    assert_eq!(
        ConnectionRef::default(),
        ConnectionRef {
            secret_ref: None,
            cluster_ref: None
        }
    );
    assert_eq!(
        ResourceStatus::default(),
        ResourceStatus {
            ready: false,
            message: None,
            observed_generation: None
        }
    );
    assert_eq!(
        AccessKeyStatus::default(),
        AccessKeyStatus {
            ready: false,
            message: None,
            observed_generation: None,
            access_key: None
        }
    );
}

#[test]
fn statuses_carry_generation_and_message() {
    assert_eq!(
        ResourceStatus::ready(Some(7)),
        ResourceStatus {
            ready: true,
            message: Some("reconciled".into()),
            observed_generation: Some(7)
        }
    );
    assert_eq!(
        ResourceStatus::error(None, "no such host"),
        ResourceStatus {
            ready: false,
            message: Some("no such host".into()),
            observed_generation: None
        }
    );
}

#[test]
fn names_come_from_the_spec_before_the_metadata() {
    assert_eq!(bucket(Some("cr"), Some("data")).bucket_name(), "data");
    assert_eq!(bucket(Some("cr"), None).bucket_name(), "cr");
    assert_eq!(bucket(None, None).bucket_name(), "");
    assert_eq!(user(Some("cr"), Some("alice")).username(), "alice");
    assert_eq!(user(Some("cr"), None).username(), "cr");
    assert_eq!(user(None, None).username(), "");
    assert_eq!(policy(Some("cr"), Some("readonly")).policy_name(), "readonly");
    assert_eq!(policy(Some("cr"), None).policy_name(), "cr");
    assert_eq!(policy(None, None).policy_name(), "");
    // an empty name in the spec is still a name
    assert_eq!(bucket(Some("cr"), Some("")).bucket_name(), "");
}

#[test]
fn target_secret_is_named_after_the_resource() {
    assert_eq!(
        access_key(Some("e2e-ak"), None).target_secret_name(),
        "e2e-ak-credentials"
    );
    assert_eq!(access_key(None, None).target_secret_name(), "-credentials");
    assert_eq!(
        access_key(Some("e2e-ak"), Some("mine")).target_secret_name(),
        "mine"
    );
}

#[test]
fn secret_key_falls_back_to_the_default() {
    let with_key = SecretKeyRef {
        name: "creds".into(),
        key: Some("pw".into()),
    };
    assert_eq!(with_key.key_or("password"), "pw");
    let without = SecretKeyRef {
        name: "creds".into(),
        key: None,
    };
    assert_eq!(without.key_or("password"), "password");
}

#[test]
fn any_name_prefers_the_name_over_the_prefix() {
    let mut m = meta(Some("named"));
    m.generate_name = Some("prefix-".into());
    assert_eq!(m.name_any(), "named");
    m.name = None;
    assert_eq!(m.name_any(), "prefix-");
    m.generate_name = None;
    assert_eq!(m.name_any(), "");
}
