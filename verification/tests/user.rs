//! Bringing users in line, applying and cleaning up after Users.

use rustfs_operator::crd::{
    ConnectionRef, DeletionPolicy, ObjectMeta, ResourceStatus, SecretKeyRef, User, UserSpec,
};
use rustfs_operator::error::Error;
use rustfs_operator::exchange::{Answer, RemoteUser, Reply, Request, Step, Turn, UserStatus};
use rustfs_operator::reconcile::user::{apply, cleanup, cleanup_user, ensure_user};
use rustfs_operator::reconcile::{Action, Report};
use rustfs_operator::secret::{Secret, SecretData};

fn spec(policies: &[&str], enabled: bool) -> UserSpec {
    UserSpec {
        connection: ConnectionRef::local("conn"),
        username: None,
        password_ref: SecretKeyRef {
            name: "creds".into(),
            key: None,
        },
        policies: policies.iter().map(|s| s.to_string()).collect(),
        enabled,
        deletion_policy: DeletionPolicy::default(),
    }
}

fn remote_user(policies: Option<&str>, status: UserStatus) -> RemoteUser {
    RemoteUser {
        status,
        policy_name: policies.map(str::to_string),
    }
}

/// Checks that a reply is of the kind that the request calls for.
fn answered(request: Request, fs: &mut dyn FnMut(Request) -> Answer) -> Answer {
    let kind = request.reply_kind();
    let answer = fs(request);
    if let Ok(reply) = &answer {
        assert_eq!(reply.kind(), kind);
    }
    answer
}

/// Brings a user in line on the given server.
fn ensure(
    username: &str,
    password: &str,
    spec: &UserSpec,
    fs: &mut dyn FnMut(Request) -> Answer,
) -> Result<(), Error> {
    let mut turn = Turn::Begin;
    loop {
        match ensure_user(username, password, spec, turn) {
            Step::Ask { stage, request } => {
                let answer = answered(request, fs);
                turn = Turn::Resume { stage, answer };
            }
            Step::Done(()) => return Ok(()),
            Step::Failed(error) => return Err(error),
        }
    }
}

#[test]
fn creates_missing_user_and_attaches_policies() {
    let mut writes = Vec::new();
    ensure(
        "alice",
        "hunter2hunter2",
        &spec(&["readwrite"], true),
        &mut |request| match request {
            Request::GetUser { .. } => Ok(Reply::User(None)),
            Request::CreateUser { username, password } => {
                assert!(username == "alice" && password == "hunter2hunter2");
                writes.push("create");
                Ok(Reply::Done)
            }
            Request::SetUserPolicies { username, policies } => {
                assert!(username == "alice" && policies == ["readwrite".to_string()]);
                writes.push("policies");
                Ok(Reply::Done)
            }
            other => panic!("unexpected {other:?}"),
        },
    )
    .unwrap();
    assert_eq!(writes, ["create", "policies"]);
}

#[test]
fn replaces_policy_set_on_drift() {
    let mut writes = 0;
    ensure(
        "alice",
        "unused",
        &spec(&["readwrite", "fresh"], true),
        &mut |request| match request {
            Request::GetUser { .. } => Ok(Reply::User(Some(remote_user(
                Some("stale,readwrite"),
                UserStatus::Enabled,
            )))),
            // one replace-all call with the desired set (sorted)
            Request::SetUserPolicies { username, policies } => {
                assert!(
                    username == "alice"
                        && policies == ["fresh".to_string(), "readwrite".to_string()]
                );
                writes += 1;
                Ok(Reply::Done)
            }
            other => panic!("unexpected {other:?}"),
        },
    )
    .unwrap();
    assert_eq!(writes, 1);
}

#[test]
fn disables_user_when_spec_says_so() {
    let mut writes = 0;
    ensure(
        "alice",
        "unused",
        &spec(&[], false),
        &mut |request| match request {
            Request::GetUser { .. } => {
                Ok(Reply::User(Some(remote_user(None, UserStatus::Enabled))))
            }
            Request::SetUserStatus { username, enabled } => {
                assert!(username == "alice" && !enabled);
                writes += 1;
                Ok(Reply::Done)
            }
            other => panic!("unexpected {other:?}"),
        },
    )
    .unwrap();
    assert_eq!(writes, 1);
}

#[test]
fn in_sync_user_is_untouched() {
    ensure(
        "alice",
        "unused",
        &spec(&["readwrite"], true),
        &mut |request| match request {
            Request::GetUser { .. } => Ok(Reply::User(Some(remote_user(
                Some("readwrite"),
                UserStatus::Enabled,
            )))),
            other => panic!("unexpected {other:?}"),
        },
    )
    .unwrap();
}

/// A server that behaves, with one user at most.
#[derive(Default)]
struct Server {
    user: Option<(String, bool, Vec<String>)>,
    log: Vec<String>,
}

impl Server {
    fn serve(&mut self, request: Request) -> Answer {
        self.log.push(
            format!("{request:?}")
                .split(' ')
                .next()
                .unwrap()
                .to_string(),
        );
        match request {
            Request::GetUser { .. } => Ok(Reply::User(self.user.as_ref().map(
                |(_, enabled, policies)| {
                    let status = if *enabled {
                        UserStatus::Enabled
                    } else {
                        UserStatus::Disabled
                    };
                    let names = policies.join(",");
                    remote_user((!policies.is_empty()).then_some(names.as_str()), status)
                },
            ))),
            Request::CreateUser { password, .. } => {
                self.user = Some((password, true, vec![]));
                Ok(Reply::Done)
            }
            Request::SetUserStatus { enabled, .. } => {
                self.user.as_mut().unwrap().1 = enabled;
                Ok(Reply::Done)
            }
            Request::SetUserPolicies { policies, .. } => {
                self.user.as_mut().unwrap().2 = policies;
                Ok(Reply::Done)
            }
            other => panic!("unexpected {other:?}"),
        }
    }
}

#[test]
fn a_second_run_only_looks_the_user_up() {
    let s = spec(&["b", "a", "b"], false);
    let mut server = Server::default();
    ensure("bob", "first", &s, &mut |r| server.serve(r)).unwrap();
    assert_eq!(
        server.log,
        ["GetUser", "CreateUser", "SetUserStatus", "SetUserPolicies"]
    );
    assert_eq!(
        server.user,
        Some((
            "first".to_string(),
            false,
            vec!["a".to_string(), "b".to_string()]
        ))
    );
    server.log.clear();
    // another password changes nothing
    ensure("bob", "second", &s, &mut |r| server.serve(r)).unwrap();
    assert_eq!(server.log, ["GetUser"]);
    assert_eq!(server.user.unwrap().0, "first");
}

#[test]
fn policies_count_as_a_set_whatever_their_spacing() {
    for attached in [" readonly , readwrite", "readwrite,readonly", "readonly,readwrite,readonly"]
    {
        let mut asked = 0;
        ensure(
            "alice",
            "unused",
            &spec(&["readwrite", "readonly", "readwrite"], true),
            &mut |request| {
                asked += 1;
                match request {
                    Request::GetUser { .. } => Ok(Reply::User(Some(remote_user(
                        Some(attached),
                        UserStatus::Enabled,
                    )))),
                    other => panic!("unexpected {other:?}"),
                }
            },
        )
        .unwrap();
        assert_eq!(asked, 1);
    }
}

/// What is attached to a user whose policy names read `attached`, when `wanted`
/// are asked for.
fn replacement(attached: Option<&str>, wanted: &[&str]) -> Option<Vec<String>> {
    let mut replaced = None;
    ensure(
        "alice",
        "unused",
        &spec(wanted, true),
        &mut |request| match request {
            Request::GetUser { .. } => Ok(Reply::User(Some(remote_user(
                attached,
                UserStatus::Enabled,
            )))),
            Request::SetUserPolicies { policies, .. } => {
                replaced = Some(policies);
                Ok(Reply::Done)
            }
            other => panic!("unexpected {other:?}"),
        },
    )
    .unwrap();
    replaced
}

#[test]
fn extra_policies_are_detached() {
    assert_eq!(replacement(Some("a,b"), &["a"]), Some(vec!["a".to_string()]));
    assert_eq!(replacement(Some("a"), &[]), Some(vec![]));
    assert_eq!(replacement(None, &[]), None);
}

#[test]
fn an_empty_list_of_names_holds_one_empty_name() {
    assert_eq!(replacement(Some(""), &[]), Some(vec![]));
    assert_eq!(replacement(Some(""), &[""]), None);
    assert_eq!(replacement(Some("a,"), &["a", ""]), None);
}

#[test]
fn names_with_a_comma_never_settle() {
    assert_eq!(
        replacement(Some("a,b"), &["a,b"]),
        Some(vec!["a,b".to_string()])
    );
}

#[test]
fn policies_are_sent_in_order() {
    assert_eq!(
        replacement(None, &["b", "B", "aa", "a", "\u{e9}", "z"]),
        Some(
            ["B", "a", "aa", "b", "z", "\u{e9}"]
                .iter()
                .map(|s| s.to_string())
                .collect()
        )
    );
}

#[test]
fn an_error_ends_a_user_at_once() {
    let mut asked = 0;
    let result = ensure("alice", "pw", &spec(&["p"], false), &mut |request| {
        asked += 1;
        match request {
            Request::GetUser { .. } => Ok(Reply::User(None)),
            _ => Err(Error::RustFs("quota exceeded".into())),
        }
    });
    assert_eq!(result, Err(Error::RustFs("quota exceeded".into())));
    assert_eq!(asked, 2);
}

#[test]
fn a_user_is_removed_by_name_or_retained() {
    match cleanup_user("alice", &spec(&[], true)) {
        Some(Request::DeleteUser { username }) => assert_eq!(username, "alice"),
        other => panic!("unexpected {other:?}"),
    }
    let mut s = spec(&[], true);
    s.deletion_policy = DeletionPolicy::Retain;
    assert!(cleanup_user("alice", &s).is_none());
}

fn user(spec: UserSpec) -> User {
    User {
        metadata: ObjectMeta {
            name: Some("e2e-user".into()),
            generate_name: None,
            uid: None,
            generation: None,
        },
        spec,
        status: None,
    }
}

fn secret(entries: &[(&str, &str)]) -> Secret {
    let mut data = SecretData::new();
    for (key, value) in entries {
        data.insert(key, value.as_bytes().to_vec());
    }
    Secret { data: Some(data) }
}

/// The Secrets of the namespace `team-x`.
fn secrets(name: &str) -> Answer {
    match name {
        "creds" => Ok(Reply::Secret(secret(&[("password", "e2e-password-123")]))),
        "conn" => Ok(Reply::Secret(secret(&[
            ("endpoint", "http://rustfs:9000"),
            ("accessKey", "rustfsadmin"),
            ("secretKey", "rustfsadmin"),
        ]))),
        _ => Err(Error::Kube("not found".into())),
    }
}

/// Applies a User in the namespace `team-x`.
fn applied(obj: &User, fs: &mut dyn FnMut(Request) -> Answer) -> Report<ResourceStatus> {
    let mut turn = Turn::Begin;
    loop {
        match apply(obj, "team-x", "operators", turn) {
            Step::Ask { stage, request } => {
                let answer = answered(request, fs);
                turn = Turn::Resume { stage, answer };
            }
            Step::Done(report) => return report,
            Step::Failed(error) => panic!("unreported {error:?}"),
        }
    }
}

#[test]
fn applying_a_user_reads_its_password_first() {
    let mut server = Server::default();
    let mut log = Vec::new();
    let report = applied(&user(spec(&["e2e-policy"], true)), &mut |request| {
        match request {
            Request::GetSecret { namespace, name } => {
                log.push(format!("{namespace}/{name}"));
                secrets(&name)
            }
            Request::Connect { info } => {
                log.push(format!("{info:?}"));
                Ok(Reply::Connected {
                    endpoint: info.endpoint,
                })
            }
            other => server.serve(other),
        }
    });
    assert_eq!(log[0], "team-x/creds");
    assert_eq!(log[1], "team-x/conn");
    assert_eq!(log.len(), 3);
    assert_eq!(server.log, ["GetUser", "CreateUser", "SetUserPolicies"]);
    assert_eq!(
        server.user,
        Some((
            "e2e-password-123".to_string(),
            true,
            vec!["e2e-policy".to_string()]
        ))
    );
    assert_eq!(report.status, ResourceStatus::ready(None));
    assert_eq!(report.outcome, Ok(Action::Requeue { seconds: 300 }));
}

#[test]
fn a_missing_password_is_reported() {
    let mut s = spec(&[], true);
    s.password_ref.key = Some("pw".into());
    let report = applied(&user(s), &mut |request| match request {
        Request::GetSecret { name, .. } => secrets(&name),
        other => panic!("unexpected {other:?}"),
    });
    let message = "secret 'creds' is missing key 'pw'";
    assert_eq!(report.status, ResourceStatus::error(None, message));
    assert_eq!(report.outcome, Err(Error::Connection(message.into())));
}

#[test]
fn a_password_secret_that_cannot_be_read_is_reported() {
    let mut s = spec(&[], true);
    s.password_ref.name = "gone".into();
    let report = applied(&user(s), &mut |request| match request {
        Request::GetSecret { name, .. } => secrets(&name),
        other => panic!("unexpected {other:?}"),
    });
    assert_eq!(
        report.status.message.as_deref(),
        Some("cannot read secret 'team-x/gone': not found")
    );
}

#[test]
fn cleaning_up_removes_the_user() {
    let mut turn = Turn::Begin;
    let mut removed = Vec::new();
    let action = loop {
        match cleanup(&user(spec(&[], true)), "team-x", "operators", turn) {
            Step::Ask { stage, request } => {
                let answer = answered(request, &mut |request| match request {
                    Request::GetSecret { name, .. } => secrets(&name),
                    Request::Connect { info } => Ok(Reply::Connected {
                        endpoint: info.endpoint,
                    }),
                    Request::DeleteUser { username } => {
                        removed.push(username);
                        Ok(Reply::Done)
                    }
                    other => panic!("unexpected {other:?}"),
                });
                turn = Turn::Resume { stage, answer };
            }
            Step::Done(action) => break action,
            Step::Failed(error) => panic!("failed {error:?}"),
        }
    };
    assert_eq!(action, Action::AwaitChange);
    assert_eq!(removed, ["e2e-user"]);
}

#[test]
fn a_retained_user_needs_no_connection() {
    let mut s = spec(&[], true);
    s.deletion_policy = DeletionPolicy::Retain;
    match cleanup(&user(s), "team-x", "operators", Turn::Begin) {
        Step::Done(action) => assert_eq!(action, Action::AwaitChange),
        other => panic!("unexpected {other:?}"),
    }
}
