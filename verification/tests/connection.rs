//! Resolving connection references.

use rustfs_operator::connection::{
    from_cluster_connection, from_local_secret, get_secret, provider_for, required,
    secret_key_request, secret_key_value,
};
use rustfs_operator::crd::{ClusterConnectionSpec, ConnectionRef, SecretKeyRef};
use rustfs_operator::error::Error;
use rustfs_operator::exchange::{Answer, ConnectionInfo, Reply, ReplyKind, Request, Step, Turn};
use rustfs_operator::secret::{secret_value, Secret, SecretData};

fn secret(entries: &[(&str, &str)]) -> Secret {
    let mut data = SecretData::new();
    for (key, value) in entries {
        data.insert(key, value.as_bytes().to_vec());
    }
    Secret { data: Some(data) }
}

fn cluster(allowed: Option<Vec<&str>>) -> ClusterConnectionSpec {
    ClusterConnectionSpec {
        endpoint: "http://rustfs.storage.svc:9000".into(),
        credentials_secret_ref: "rustfs-admin".into(),
        region: None,
        insecure: false,
        allowed_namespaces: allowed.map(|v| v.iter().map(|s| s.to_string()).collect()),
    }
}

/// Resolves a reference of a resource in `team-a`, with the operator in
/// `operators`.
fn connect(
    conn: &ConnectionRef,
    world: &mut dyn FnMut(Request) -> Answer,
) -> Result<String, Error> {
    let mut turn = Turn::Begin;
    loop {
        match provider_for("team-a", "operators", conn, turn) {
            Step::Ask { stage, request } => {
                let kind = request.reply_kind();
                let answer = world(request);
                if let Ok(reply) = &answer {
                    assert_eq!(reply.kind(), kind);
                }
                turn = Turn::Resume { stage, answer };
            }
            Step::Done(endpoint) => return Ok(endpoint),
            Step::Failed(error) => return Err(error),
        }
    }
}

#[test]
fn secret_values_are_utf8_texts() {
    let mut data = SecretData::new();
    data.insert("text", "h\u{e9}llo".as_bytes().to_vec());
    data.insert("bytes", vec![0xff, 0xfe]);
    data.insert("empty", vec![]);
    let s = Secret { data: Some(data) };
    assert_eq!(secret_value(&s, "text").as_deref(), Some("h\u{e9}llo"));
    assert_eq!(secret_value(&s, "bytes"), None);
    assert_eq!(secret_value(&s, "empty").as_deref(), Some(""));
    assert_eq!(secret_value(&s, "absent"), None);
    assert_eq!(secret_value(&Secret { data: None }, "text"), None);
}

#[test]
fn the_last_value_under_a_key_counts() {
    let mut data = SecretData::new();
    data.insert("k", b"one".to_vec());
    data.insert("l", b"other".to_vec());
    data.insert("k", b"two".to_vec());
    assert_eq!(data.get("k"), Some(&b"two".to_vec()));
    assert_eq!(data.get("l"), Some(&b"other".to_vec()));
    assert_eq!(data.get("m"), None);
}

#[test]
fn required_keys_must_be_there_and_not_empty() {
    let s = secret(&[("endpoint", "http://h"), ("accessKey", "")]);
    assert_eq!(required(&s, "endpoint", "conn").as_deref(), Ok("http://h"));
    assert_eq!(
        required(&s, "accessKey", "conn"),
        Err(Error::Connection(
            "secret 'conn' is missing key 'accessKey'".into()
        ))
    );
    assert_eq!(
        required(&s, "secretKey", "conn"),
        Err(Error::Connection(
            "secret 'conn' is missing key 'secretKey'".into()
        ))
    );
}

#[test]
fn a_local_secret_describes_a_connection() {
    let full = secret(&[
        ("endpoint", "https://rustfs:9000"),
        ("accessKey", "AK"),
        ("secretKey", "SK"),
        ("region", "eu-west-1"),
        ("insecure", "true"),
    ]);
    assert_eq!(
        from_local_secret(&full, "conn"),
        Ok(ConnectionInfo {
            endpoint: "https://rustfs:9000".into(),
            access_key: "AK".into(),
            secret_key: "SK".into(),
            region: "eu-west-1".into(),
            insecure: true,
        })
    );
}

#[test]
fn region_and_insecure_have_defaults() {
    let base = [("endpoint", "e"), ("accessKey", "a"), ("secretKey", "s")];
    let info = from_local_secret(&secret(&base), "conn").unwrap();
    assert_eq!(info.region, "us-east-1");
    assert!(!info.insecure);
    // an empty region is a region; only "true" turns verification off
    for value in ["True", "TRUE", "1", "yes", "", " true"] {
        let mut entries = base.to_vec();
        entries.push(("region", ""));
        entries.push(("insecure", value));
        let info = from_local_secret(&secret(&entries), "conn").unwrap();
        assert_eq!(info.region, "");
        assert!(!info.insecure);
    }
}

#[test]
fn the_first_missing_key_is_reported() {
    let missing = |entries: &[(&str, &str)]| from_local_secret(&secret(entries), "conn");
    let error = |key: &str| {
        Err(Error::Connection(format!(
            "secret 'conn' is missing key '{key}'"
        )))
    };
    assert_eq!(missing(&[]), error("endpoint"));
    assert_eq!(missing(&[("endpoint", "e")]), error("accessKey"));
    assert_eq!(
        missing(&[("endpoint", "e"), ("accessKey", "a")]),
        error("secretKey")
    );
    assert_eq!(
        missing(&[("accessKey", "a"), ("secretKey", "s")]),
        error("endpoint")
    );
    assert_eq!(
        from_local_secret(&Secret { data: None }, "conn"),
        error("endpoint")
    );
}

#[test]
fn a_cluster_connection_takes_only_credentials_from_its_secret() {
    let mut conn = cluster(None);
    let creds = secret(&[
        ("accessKey", "AK"),
        ("secretKey", "SK"),
        ("endpoint", "ignored"),
        ("region", "ignored"),
        ("insecure", "true"),
    ]);
    assert_eq!(
        from_cluster_connection(conn.clone(), &creds),
        Ok(ConnectionInfo {
            endpoint: "http://rustfs.storage.svc:9000".into(),
            access_key: "AK".into(),
            secret_key: "SK".into(),
            region: "us-east-1".into(),
            insecure: false,
        })
    );
    conn.region = Some("eu-west-1".into());
    conn.insecure = true;
    let info = from_cluster_connection(conn.clone(), &creds).unwrap();
    assert_eq!(info.region, "eu-west-1");
    assert!(info.insecure);
    assert_eq!(
        from_cluster_connection(conn, &secret(&[("accessKey", "AK")])),
        Err(Error::Connection(
            "secret 'rustfs-admin' is missing key 'secretKey'".into()
        ))
    );
}

#[test]
fn both_forms_together_are_refused() {
    let conn = ConnectionRef {
        secret_ref: Some("conn".into()),
        cluster_ref: Some("prod".into()),
    };
    assert_eq!(
        connect(&conn, &mut |request| panic!("unexpected {request:?}")),
        Err(Error::Spec(
            "connection.secretRef and connection.clusterRef are mutually exclusive".into()
        ))
    );
}

#[test]
fn neither_form_is_refused() {
    assert_eq!(
        connect(&ConnectionRef::default(), &mut |request| panic!(
            "unexpected {request:?}"
        )),
        Err(Error::Spec(
            "connection must set either secretRef or clusterRef".into()
        ))
    );
}

#[test]
fn a_local_reference_is_read_in_the_own_namespace() {
    let mut asked = Vec::new();
    let endpoint = connect(&ConnectionRef::local("conn"), &mut |request| {
        asked.push(format!("{request:?}"));
        match request {
            Request::GetSecret { namespace, name } => {
                assert!(namespace == "team-a" && name == "conn");
                Ok(Reply::Secret(secret(&[
                    ("endpoint", "http://h"),
                    ("accessKey", "a"),
                    ("secretKey", "s"),
                ])))
            }
            Request::Connect { info } => {
                assert_eq!(info.secret_key, "s");
                Ok(Reply::Connected {
                    endpoint: info.endpoint,
                })
            }
            other => panic!("unexpected {other:?}"),
        }
    });
    assert_eq!(endpoint.as_deref(), Ok("http://h"));
    assert_eq!(asked.len(), 2);
}

#[test]
fn cluster_credentials_come_from_the_operators_namespace() {
    let mut asked = Vec::new();
    let endpoint = connect(&ConnectionRef::cluster("prod"), &mut |request| {
        match request {
            Request::GetClusterConnection { name } => {
                asked.push(format!("connection {name}"));
                Ok(Reply::ClusterConnection(cluster(Some(vec![
                    "team-b", "team-a",
                ]))))
            }
            Request::GetSecret { namespace, name } => {
                asked.push(format!("secret {namespace}/{name}"));
                Ok(Reply::Secret(secret(&[
                    ("accessKey", "a"),
                    ("secretKey", "s"),
                ])))
            }
            Request::Connect { info } => Ok(Reply::Connected {
                endpoint: info.endpoint,
            }),
            other => panic!("unexpected {other:?}"),
        }
    });
    assert_eq!(endpoint.as_deref(), Ok("http://rustfs.storage.svc:9000"));
    assert_eq!(asked, ["connection prod", "secret operators/rustfs-admin"]);
}

#[test]
fn a_namespace_off_the_list_reads_no_credentials() {
    let mut asked = 0;
    let result = connect(&ConnectionRef::cluster("prod"), &mut |request| {
        asked += 1;
        match request {
            Request::GetClusterConnection { .. } => {
                Ok(Reply::ClusterConnection(cluster(Some(vec!["team-b"]))))
            }
            other => panic!("unexpected {other:?}"),
        }
    });
    assert_eq!(
        result,
        Err(Error::Connection(
            "namespace 'team-a' is not allowed to use ClusterConnection 'prod'".into()
        ))
    );
    assert_eq!(asked, 1);
}

#[test]
fn what_cannot_be_read_is_named() {
    let kube = || Err(Error::Kube("forbidden".into()));
    assert_eq!(
        connect(&ConnectionRef::local("conn"), &mut |_| kube()),
        Err(Error::Connection(
            "cannot read secret 'team-a/conn': forbidden".into()
        ))
    );
    assert_eq!(
        connect(&ConnectionRef::cluster("prod"), &mut |_| kube()),
        Err(Error::Connection(
            "cannot read ClusterConnection 'prod': forbidden".into()
        ))
    );
    assert_eq!(
        connect(&ConnectionRef::cluster("prod"), &mut |request| {
            match request {
                Request::GetClusterConnection { .. } => {
                    Ok(Reply::ClusterConnection(cluster(None)))
                }
                _ => kube(),
            }
        }),
        Err(Error::Connection(
            "cannot read secret 'operators/rustfs-admin': forbidden".into()
        ))
    );
}

#[test]
fn a_server_that_cannot_be_reached_is_passed_on() {
    let result = connect(&ConnectionRef::local("conn"), &mut |request| match request {
        Request::GetSecret { .. } => Ok(Reply::Secret(secret(&[
            ("endpoint", "http://h"),
            ("accessKey", "a"),
            ("secretKey", "s"),
        ]))),
        _ => Err(Error::RustFs("connection refused".into())),
    });
    assert_eq!(result, Err(Error::RustFs("connection refused".into())));
}

#[test]
fn a_key_reference_names_a_secret_and_a_key() {
    let sref = SecretKeyRef {
        name: "creds".into(),
        key: None,
    };
    let request = secret_key_request("team-a", &sref);
    assert_eq!(request.reply_kind(), ReplyKind::Secret);
    match request {
        Request::GetSecret { namespace, name } => {
            assert!(namespace == "team-a" && name == "creds");
        }
        other => panic!("unexpected {other:?}"),
    }
    let answer = || Ok(Reply::Secret(secret(&[("password", "pw"), ("other", "x")])));
    assert_eq!(
        secret_key_value("team-a", &sref, "password", answer()).as_deref(),
        Ok("pw")
    );
    let named = SecretKeyRef {
        name: "creds".into(),
        key: Some("other".into()),
    };
    assert_eq!(
        secret_key_value("team-a", &named, "password", answer()).as_deref(),
        Ok("x")
    );
    assert_eq!(
        secret_key_value("team-a", &sref, "absent", answer()),
        Err(Error::Connection(
            "secret 'creds' is missing key 'absent'".into()
        ))
    );
    assert_eq!(
        secret_key_value("team-a", &sref, "password", Err(Error::Kube("gone".into()))),
        Err(Error::Connection(
            "cannot read secret 'team-a/creds': gone".into()
        ))
    );
}

#[test]
fn a_secret_that_was_read_is_handed_on() {
    let read = get_secret("ns", "name", Ok(Reply::Secret(secret(&[("k", "v")])))).unwrap();
    assert_eq!(secret_value(&read, "k").as_deref(), Some("v"));
    assert_eq!(
        get_secret("ns", "name", Err(Error::Finalizer("stuck".into()))).unwrap_err(),
        Error::Connection("cannot read secret 'ns/name': stuck".into())
    );
}

#[test]
fn errors_carry_their_message() {
    for error in [
        Error::Connection("m".into()),
        Error::Spec("m".into()),
        Error::Finalizer("m".into()),
        Error::Kube("m".into()),
        Error::RustFs("m".into()),
    ] {
        assert_eq!(error.message(), "m");
    }
}
