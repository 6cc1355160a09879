//! Bringing access keys in line, applying and cleaning up after AccessKeys.

use std::collections::BTreeMap;

use rustfs_operator::crd::{
    AccessKey, AccessKeySpec, AccessKeyStatus, ConnectionRef, DeletionPolicy, ObjectMeta,
    SecretKeyRef,
};
use rustfs_operator::error::Error;
use rustfs_operator::exchange::{Answer, OwnerReference, Reply, Request, Step, Turn};
use rustfs_operator::reconcile::access_key::{
    apply, apply_using, cleanup, cleanup_access_key, ensure_access_key, ensure_access_key_using,
    generate_access_key, generate_secret_key, known_access_key, random_key, secret_intact,
    spell_key, write_credentials_secret, KeyOutcome, ACCESS_KEY_CHARSET, SECRET_KEY_CHARSET,
};
use rustfs_operator::reconcile::{Action, Report};
use rustfs_operator::secret::{Secret, SecretData};

fn spec(access_key: Option<&str>) -> AccessKeySpec {
    AccessKeySpec {
        connection: ConnectionRef::cluster("prod"),
        user: "spark".into(),
        password_ref: SecretKeyRef {
            name: "spark-password".into(),
            key: None,
        },
        access_key: access_key.map(str::to_string),
        description: None,
        policy: None,
        target_secret_name: None,
        deletion_policy: DeletionPolicy::default(),
    }
}

/// Checks that a reply is of the kind that the request calls for.
fn answered(request: Request, fs: &mut dyn FnMut(Request) -> Answer) -> Answer {
    let kind = request.reply_kind();
    let answer = fs(request);
    if let Ok(reply) = &answer {
        assert_eq!(reply.kind(), kind);
    }
    answer
}

/// Brings a key in line on the given server.
fn ensure(
    username: &str,
    password: &str,
    known_ak: Option<&str>,
    intact: bool,
    spec: &AccessKeySpec,
    fs: &mut dyn FnMut(Request) -> Answer,
) -> Result<KeyOutcome, Error> {
    let mut turn = Turn::Begin;
    loop {
        match ensure_access_key(username, password, known_ak, intact, spec, turn) {
            Step::Ask { stage, request } => {
                let answer = answered(request, fs);
                turn = Turn::Resume { stage, answer };
            }
            Step::Done(outcome) => return Ok(outcome),
            Step::Failed(error) => return Err(error),
        }
    }
}

#[test]
fn issues_generated_key_when_none_known() {
    let mut created = 0;
    let outcome = ensure(
        "spark",
        "pw",
        None,
        false,
        &spec(None),
        &mut |request| match request {
            Request::CreateAccessKey {
                username,
                password,
                access_key,
                secret_key,
                ..
            } => {
                assert!(
                    username == "spark"
                        && password == "pw"
                        && access_key.len() == 20
                        && secret_key.len() == 40
                );
                created += 1;
                Ok(Reply::Done)
            }
            other => panic!("unexpected {other:?}"),
        },
    )
    .unwrap();
    match outcome {
        KeyOutcome::Issued { access_key, .. } => assert_eq!(access_key.len(), 20),
        other => panic!("expected Issued, got {other:?}"),
    }
    assert_eq!(created, 1);
}

#[test]
fn existing_key_with_intact_secret_is_kept() {
    let outcome = ensure(
        "spark",
        "pw",
        Some("AK1"),
        true,
        &spec(Some("AK1")),
        &mut |request| match request {
            Request::GetAccessKey { access_key, .. } => {
                assert_eq!(access_key, "AK1");
                Ok(Reply::Exists(true))
            }
            other => panic!("unexpected {other:?}"),
        },
    )
    .unwrap();
    assert_eq!(
        outcome,
        KeyOutcome::Kept {
            access_key: "AK1".into()
        }
    );
}

#[test]
fn lost_secret_revokes_and_reissues() {
    let mut log = Vec::new();
    let outcome = ensure(
        "spark",
        "pw",
        Some("AK1"),
        false,
        &spec(None),
        &mut |request| match request {
            Request::GetAccessKey { .. } => {
                log.push("get");
                Ok(Reply::Exists(true))
            }
            Request::DeleteAccessKey { access_key, .. } => {
                assert_eq!(access_key, "AK1");
                log.push("delete");
                Ok(Reply::Done)
            }
            Request::CreateAccessKey { access_key, .. } => {
                assert_eq!(access_key, "AK1");
                log.push("create");
                Ok(Reply::Done)
            }
            other => panic!("unexpected {other:?}"),
        },
    )
    .unwrap();
    match outcome {
        KeyOutcome::Issued { access_key, .. } => assert_eq!(access_key, "AK1"),
        other => panic!("expected Issued, got {other:?}"),
    }
    assert_eq!(log, ["get", "delete", "create"]);
}

#[test]
fn key_deleted_serverside_is_recreated() {
    let mut log = Vec::new();
    let outcome = ensure(
        "spark",
        "pw",
        Some("AK1"),
        true,
        &spec(Some("AK1")),
        &mut |request| match request {
            Request::GetAccessKey { .. } => {
                log.push("get");
                Ok(Reply::Exists(false))
            }
            Request::CreateAccessKey { access_key, .. } => {
                assert_eq!(access_key, "AK1");
                log.push("create");
                Ok(Reply::Done)
            }
            other => panic!("unexpected {other:?}"),
        },
    )
    .unwrap();
    match outcome {
        KeyOutcome::Issued { access_key, .. } => assert_eq!(access_key, "AK1"),
        other => panic!("expected Issued, got {other:?}"),
    }
    assert_eq!(log, ["get", "create"]);
}

#[test]
fn retain_policy_keeps_remote_key() {
    let mut s = spec(Some("AK1"));
    s.deletion_policy = DeletionPolicy::Retain;
    assert!(cleanup_access_key("spark", "pw", Some("AK1"), &s).is_none());
}

#[test]
fn a_key_is_deleted_as_its_owner() {
    match cleanup_access_key("spark", "pw", Some("AK1"), &spec(None)) {
        Some(Request::DeleteAccessKey {
            username,
            password,
            access_key,
        }) => assert_eq!(
            (username.as_str(), password.as_str(), access_key.as_str()),
            ("spark", "pw", "AK1")
        ),
        other => panic!("unexpected {other:?}"),
    }
    assert!(cleanup_access_key("spark", "pw", None, &spec(None)).is_none());
}

#[test]
fn keys_are_spelled_from_their_charset() {
    assert_eq!(spell_key("abc", &vec![2, 0, 1, 1]), "cabb");
    assert_eq!(spell_key("abc", &vec![]), "");
    assert_eq!(spell_key("x\u{e9}z", &vec![1, 2, 1]), "\u{e9}z\u{e9}");
}

#[test]
fn generated_keys_have_their_length_and_charset() {
    assert_eq!(ACCESS_KEY_CHARSET.len(), 32);
    assert_eq!(SECRET_KEY_CHARSET.len(), 62);
    let mut seen = BTreeMap::new();
    for _ in 0..100 {
        let ak = generate_access_key();
        assert_eq!(ak.len(), 20);
        assert!(ak.chars().all(|c| ACCESS_KEY_CHARSET.contains(c)));
        let sk = generate_secret_key();
        assert_eq!(sk.len(), 40);
        assert!(sk.chars().all(|c| SECRET_KEY_CHARSET.contains(c)));
        for c in sk.chars() {
            *seen.entry(c).or_insert(0) += 1;
        }
    }
    // 4000 draws out of 62 characters show them all
    assert_eq!(seen.len(), 62);
    assert_ne!(generate_secret_key(), generate_secret_key());
    assert_eq!(random_key(0, ""), "");
    assert_eq!(random_key(3, "x"), "xxx");
}

#[test]
fn what_is_issued_is_what_was_created() {
    let mut created = None;
    let outcome = ensure(
        "spark",
        "pw",
        None,
        false,
        &spec(None),
        &mut |request| match request {
            Request::CreateAccessKey {
                access_key,
                secret_key,
                ..
            } => {
                created = Some((access_key, secret_key));
                Ok(Reply::Done)
            }
            other => panic!("unexpected {other:?}"),
        },
    )
    .unwrap();
    let (access_key, secret_key) = created.unwrap();
    assert_eq!(
        outcome,
        KeyOutcome::Issued {
            access_key,
            secret_key
        }
    );
}

#[test]
fn given_credentials_are_used_as_they_are() {
    let s = spec(None);
    let step = ensure_access_key_using("spark", "pw", None, false, &s, Turn::Begin, "AK", "SK");
    let (stage, request) = match step {
        Step::Ask { stage, request } => (stage, request),
        other => panic!("unexpected {other:?}"),
    };
    match request {
        Request::CreateAccessKey {
            access_key,
            secret_key,
            description,
            policy,
            ..
        } => {
            assert_eq!((access_key.as_str(), secret_key.as_str()), ("AK", "SK"));
            assert_eq!((description, policy), (None, None));
        }
        other => panic!("unexpected {other:?}"),
    }
    // what is drawn later makes no difference any more
    let turn = Turn::Resume {
        stage,
        answer: Ok(Reply::Done),
    };
    match ensure_access_key_using("spark", "pw", None, false, &s, turn, "XX", "YY") {
        Step::Done(outcome) => assert_eq!(
            outcome,
            KeyOutcome::Issued {
                access_key: "AK".into(),
                secret_key: "SK".into()
            }
        ),
        other => panic!("unexpected {other:?}"),
    }
}

#[test]
fn description_and_policy_go_with_the_key() {
    let mut s = spec(Some("AK1"));
    s.description = Some("etl jobs".into());
    let mut document = serde_json::Map::new();
    document.insert("Version".into(), "2012-10-17".into());
    document.insert("Statement".into(), serde_json::Value::Array(vec![]));
    s.policy = Some(serde_json::Value::Object(document));
    let mut seen = None;
    ensure(
        "spark",
        "pw",
        Some("AK1"),
        false,
        &s,
        &mut |request| match request {
            Request::GetAccessKey { .. } => Ok(Reply::Exists(true)),
            Request::DeleteAccessKey { .. } => Ok(Reply::Done),
            Request::CreateAccessKey {
                description,
                policy,
                ..
            } => {
                seen = Some((description, policy.unwrap()));
                Ok(Reply::Done)
            }
            other => panic!("unexpected {other:?}"),
        },
    )
    .unwrap();
    let (description, policy) = seen.unwrap();
    assert_eq!(description.as_deref(), Some("etl jobs"));
    assert_eq!(policy, r#"{"Statement":[],"Version":"2012-10-17"}"#);
    let parsed: serde_json::Value = serde_json::from_str(&policy).unwrap();
    assert_eq!(Some(parsed), s.policy);
}

#[test]
fn an_error_ends_a_key_at_once() {
    let mut asked = 0;
    let result = ensure(
        "spark",
        "pw",
        Some("AK1"),
        false,
        &spec(None),
        &mut |request| {
            asked += 1;
            match request {
                Request::GetAccessKey { .. } => Ok(Reply::Exists(true)),
                _ => Err(Error::RustFs("not permitted".into())),
            }
        },
    );
    assert_eq!(result, Err(Error::RustFs("not permitted".into())));
    assert_eq!(asked, 2);
}

fn secret(entries: &[(&str, &str)]) -> Secret {
    let mut data = SecretData::new();
    for (key, value) in entries {
        data.insert(key, value.as_bytes().to_vec());
    }
    Secret { data: Some(data) }
}

#[test]
fn a_secret_is_intact_with_the_id_and_some_secret_key() {
    let intact = |s: Secret| secret_intact(Ok(Reply::Secret(s)), "AK1");
    assert!(intact(secret(&[("accessKey", "AK1"), ("secretKey", "s")])));
    // an empty secret key is still there, whatever it is
    assert!(intact(secret(&[("accessKey", "AK1"), ("secretKey", "")])));
    assert!(!intact(secret(&[("accessKey", "AK2"), ("secretKey", "s")])));
    assert!(!intact(secret(&[("accessKey", "AK1")])));
    assert!(!intact(secret(&[("secretKey", "s")])));
    assert!(!intact(Secret { data: None }));
    let mut garbled = SecretData::new();
    garbled.insert("accessKey", vec![0xff]);
    garbled.insert("secretKey", vec![0xff]);
    assert!(!intact(Secret {
        data: Some(garbled)
    }));
    let mut bytes = SecretData::new();
    bytes.insert("accessKey", b"AK1".to_vec());
    bytes.insert("secretKey", vec![0xff]);
    assert!(intact(Secret { data: Some(bytes) }));
    assert!(!secret_intact(Err(Error::Kube("not found".into())), "AK1"));
}

fn access_key(spec: AccessKeySpec, recorded: Option<&str>) -> AccessKey {
    AccessKey {
        metadata: ObjectMeta {
            name: Some("e2e-ak".into()),
            generate_name: None,
            uid: Some("0f1e".into()),
            generation: Some(2),
        },
        spec,
        status: recorded.map(|id| AccessKeyStatus {
            ready: true,
            message: None,
            observed_generation: None,
            access_key: Some(id.into()),
        }),
    }
}

#[test]
fn credentials_are_owned_by_the_resource() {
    let obj = access_key(spec(None), None);
    let manifest = write_credentials_secret(&obj, "target", "AK", "SK", "http://h");
    assert_eq!(manifest.api_version, "v1");
    assert_eq!(manifest.kind, "Secret");
    assert_eq!(manifest.name, "target");
    assert_eq!(manifest.secret_type, "Opaque");
    assert_eq!(
        manifest.owner_references,
        vec![OwnerReference {
            api_version: "rustfs.com/v1alpha1".into(),
            kind: "AccessKey".into(),
            name: "e2e-ak".into(),
            uid: "0f1e".into(),
            controller: Some(true),
            block_owner_deletion: None,
        }]
    );
    let data: Vec<(&str, &str)> = manifest
        .string_data
        .iter()
        .map(|(k, v)| (k.as_str(), v.as_str()))
        .collect();
    assert_eq!(
        data,
        [
            ("accessKey", "AK"),
            ("secretKey", "SK"),
            ("endpoint", "http://h")
        ]
    );
    let mut anonymous = obj;
    anonymous.metadata.uid = None;
    let manifest = write_credentials_secret(&anonymous, "t", "AK", "SK", "http://h");
    assert_eq!(manifest.owner_references[0].uid, "");
}

#[test]
fn a_pinned_id_wins_over_a_recorded_one() {
    let known = |pinned, recorded| known_access_key(&access_key(spec(pinned), recorded));
    assert_eq!(known(Some("P"), Some("R")).as_deref(), Some("P"));
    assert_eq!(known(Some("P"), None).as_deref(), Some("P"));
    assert_eq!(known(None, Some("R")).as_deref(), Some("R"));
    assert_eq!(known(None, None), None);
}

/// A cluster and a server that behave.
#[derive(Default)]
struct World {
    secrets: BTreeMap<(String, String), BTreeMap<String, Vec<u8>>>,
    keys: BTreeMap<String, String>,
    log: Vec<String>,
}

impl World {
    fn new() -> World {
        let mut world = World::default();
        world.put("team-x", "spark-password", &[("password", "pw")]);
        world.put(
            "team-x",
            "conn",
            &[
                ("endpoint", "http://rustfs:9000"),
                ("accessKey", "rustfsadmin"),
                ("secretKey", "rustfsadmin"),
            ],
        );
        world
    }

    fn put(&mut self, namespace: &str, name: &str, entries: &[(&str, &str)]) {
        let data = self
            .secrets
            .entry((namespace.to_string(), name.to_string()))
            .or_default();
        for (key, value) in entries {
            data.insert(key.to_string(), value.as_bytes().to_vec());
        }
    }

    fn text(&self, name: &str, key: &str) -> String {
        let data = &self.secrets[&("team-x".to_string(), name.to_string())];
        String::from_utf8(data[key].clone()).unwrap()
    }

    fn serve(&mut self, request: Request) -> Answer {
        self.log.push(
            format!("{request:?}")
                .split(' ')
                .next()
                .unwrap()
                .to_string(),
        );
        match request {
            Request::GetSecret { namespace, name } => {
                match self.secrets.get(&(namespace, name)) {
                    Some(entries) => {
                        let mut data = SecretData::new();
                        for (key, value) in entries {
                            data.insert(key, value.clone());
                        }
                        Ok(Reply::Secret(Secret { data: Some(data) }))
                    }
                    None => Err(Error::Kube("not found".into())),
                }
            }
            Request::Connect { info } => Ok(Reply::Connected {
                endpoint: info.endpoint,
            }),
            Request::GetAccessKey {
                username,
                password,
                access_key,
            } => {
                assert!(username == "spark" && password == "pw");
                Ok(Reply::Exists(self.keys.contains_key(&access_key)))
            }
            Request::CreateAccessKey {
                username,
                password,
                access_key,
                secret_key,
                ..
            } => {
                assert!(username == "spark" && password == "pw");
                self.keys.insert(access_key, secret_key);
                Ok(Reply::Done)
            }
            Request::DeleteAccessKey {
                username,
                password,
                access_key,
            } => {
                assert!(username == "spark" && password == "pw");
                self.keys.remove(&access_key);
                Ok(Reply::Done)
            }
            Request::ApplySecret {
                namespace,
                manifest,
            } => {
                let entries: Vec<(&str, &str)> = manifest
                    .string_data
                    .iter()
                    .map(|(k, v)| (k.as_str(), v.as_str()))
                    .collect();
                self.put(&namespace, &manifest.name, &entries);
                Ok(Reply::Done)
            }
            other => panic!("unexpected {other:?}"),
        }
    }
}

/// Applies an AccessKey in the namespace `team-x`.
fn applied(obj: &AccessKey, fs: &mut dyn FnMut(Request) -> Answer) -> Report<AccessKeyStatus> {
    let mut turn = Turn::Begin;
    loop {
        match apply(obj, "team-x", "operators", turn) {
            Step::Ask { stage, request } => {
                let answer = answered(request, fs);
                turn = Turn::Resume { stage, answer };
            }
            Step::Done(report) => return report,
            Step::Failed(error) => panic!("unreported {error:?}"),
        }
    }
}

fn local_spec() -> AccessKeySpec {
    AccessKeySpec {
        connection: ConnectionRef::local("conn"),
        ..spec(None)
    }
}

#[test]
fn applied_credentials_are_handed_out_and_then_kept() {
    let mut world = World::new();
    let report = applied(&access_key(local_spec(), None), &mut |r| world.serve(r));
    let id = report.status.access_key.clone().unwrap();
    assert_eq!(id.len(), 20);
    assert_eq!(
        report.status,
        AccessKeyStatus {
            ready: true,
            message: Some("reconciled".into()),
            observed_generation: Some(2),
            access_key: Some(id.clone()),
        }
    );
    assert_eq!(report.outcome, Ok(Action::Requeue { seconds: 300 }));
    assert_eq!(
        world.log,
        [
            "GetSecret",
            "GetSecret",
            "Connect",
            "CreateAccessKey",
            "ApplySecret"
        ]
    );
    assert_eq!(world.text("e2e-ak-credentials", "accessKey"), id);
    assert_eq!(
        world.text("e2e-ak-credentials", "secretKey"),
        world.keys[&id]
    );
    assert_eq!(
        world.text("e2e-ak-credentials", "endpoint"),
        "http://rustfs:9000"
    );

    // once the status tells the id, nothing changes any more
    world.log.clear();
    let keys = world.keys.clone();
    let report = applied(&access_key(local_spec(), Some(&id)), &mut |r| world.serve(r));
    assert_eq!(report.status.access_key.as_deref(), Some(id.as_str()));
    assert_eq!(
        world.log,
        [
            "GetSecret",
            "GetSecret",
            "Connect",
            "GetSecret",
            "GetAccessKey"
        ]
    );
    assert_eq!(world.keys, keys);
}

#[test]
fn applying_makes_a_lost_secret_good() {
    let mut world = World::new();
    world.keys.insert("AK1".into(), "old".into());
    let report = applied(&access_key(local_spec(), Some("AK1")), &mut |r| {
        world.serve(r)
    });
    assert_eq!(report.status.access_key.as_deref(), Some("AK1"));
    assert_eq!(
        world.log[3..],
        [
            "GetSecret",
            "GetAccessKey",
            "DeleteAccessKey",
            "CreateAccessKey",
            "ApplySecret"
        ]
    );
    assert_ne!(world.keys["AK1"], "old");
    assert_eq!(
        world.text("e2e-ak-credentials", "secretKey"),
        world.keys["AK1"]
    );
}

#[test]
fn a_refused_key_is_reported_next_to_the_recorded_id() {
    let mut world = World::new();
    let report = applied(&access_key(local_spec(), Some("AK1")), &mut |request| {
        match request {
            Request::GetAccessKey { .. } => Err(Error::RustFs("not permitted".into())),
            other => world.serve(other),
        }
    });
    assert_eq!(
        report.status,
        AccessKeyStatus {
            ready: false,
            message: Some("not permitted".into()),
            observed_generation: Some(2),
            access_key: Some("AK1".into()),
        }
    );
    assert_eq!(report.outcome, Err(Error::RustFs("not permitted".into())));
}

#[test]
fn a_secret_that_cannot_be_written_is_reported() {
    let mut world = World::new();
    let report = applied(&access_key(local_spec(), None), &mut |request| {
        match request {
            Request::ApplySecret { .. } => Err(Error::Kube("forbidden".into())),
            other => world.serve(other),
        }
    });
    assert!(!report.status.ready);
    assert_eq!(report.status.message.as_deref(), Some("forbidden"));
    assert_eq!(report.status.access_key, None);
    assert_eq!(report.outcome, Err(Error::Kube("forbidden".into())));
}

#[test]
fn applying_uses_given_credentials_as_they_are() {
    let mut world = World::new();
    let obj = access_key(local_spec(), None);
    let mut turn = Turn::Begin;
    let report = loop {
        match apply_using(&obj, "team-x", "operators", turn, "AK", "SK") {
            Step::Ask { stage, request } => {
                let answer = world.serve(request);
                turn = Turn::Resume { stage, answer };
            }
            Step::Done(report) => break report,
            Step::Failed(error) => panic!("unreported {error:?}"),
        }
    };
    assert_eq!(report.status.access_key.as_deref(), Some("AK"));
    assert_eq!(world.keys, BTreeMap::from([("AK".into(), "SK".into())]));
    assert_eq!(world.text("e2e-ak-credentials", "secretKey"), "SK");
}

/// Cleans up after an AccessKey in the namespace `team-x`.
fn cleaned_up(obj: &AccessKey, fs: &mut dyn FnMut(Request) -> Answer) -> Result<Action, Error> {
    let mut turn = Turn::Begin;
    loop {
        match cleanup(obj, "team-x", "operators", turn) {
            Step::Ask { stage, request } => {
                let answer = answered(request, fs);
                turn = Turn::Resume { stage, answer };
            }
            Step::Done(action) => return Ok(action),
            Step::Failed(error) => return Err(error),
        }
    }
}

#[test]
fn cleaning_up_revokes_the_key() {
    let mut world = World::new();
    world.keys.insert("AK1".into(), "s".into());
    world.keys.insert("AK2".into(), "t".into());
    let action = cleaned_up(&access_key(local_spec(), Some("AK1")), &mut |r| {
        world.serve(r)
    });
    assert_eq!(action, Ok(Action::AwaitChange));
    assert_eq!(
        world.log,
        ["GetSecret", "GetSecret", "Connect", "DeleteAccessKey"]
    );
    assert_eq!(world.keys, BTreeMap::from([("AK2".into(), "t".into())]));
}

#[test]
fn cleaning_up_without_a_key_asks_for_nothing() {
    let mut nothing = |request: Request| -> Answer { panic!("unexpected {request:?}") };
    let unknown = access_key(local_spec(), None);
    assert_eq!(
        cleaned_up(&unknown, &mut nothing),
        Ok(Action::AwaitChange)
    );
    let mut retained = access_key(local_spec(), Some("AK1"));
    retained.spec.deletion_policy = DeletionPolicy::Retain;
    assert_eq!(
        cleaned_up(&retained, &mut nothing),
        Ok(Action::AwaitChange)
    );
}

#[test]
fn cleaning_up_needs_the_password() {
    let mut world = World::default();
    let action = cleaned_up(&access_key(local_spec(), Some("AK1")), &mut |r| {
        world.serve(r)
    });
    assert_eq!(
        action,
        Err(Error::Connection(
            "cannot read secret 'team-x/spark-password': not found".into()
        ))
    );
}
