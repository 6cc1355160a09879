//! Resolving connection references into RustFS connections.
//!
//! Two forms are supported (exactly one must be set on the resource):
//! - `secret_ref`: Secret in the resource's namespace with `endpoint`,
//!   `accessKey` and `secretKey` (self-service).
//! - `cluster_ref`: cluster-scoped ClusterConnection; its credentials Secret is
//!   read from the operator's own namespace, so application namespaces never
//!   hold admin credentials.

use vstd::pervasive::unreached;
use vstd::prelude::*;

use crate::crd::{ClusterConnectionSpec, ClusterConnectionView, ConnectionRef, SecretKeyRef};
use crate::error::{Error, ErrorView};
use crate::exchange::{
    answer_view, answers, Answer, AnswerView, ConnectionInfo, ConnectionInfoView, Reply, ReplyKind,
    Request, RequestView, Step, StepView, Turn, TurnView,
};
use crate::secret::{secret_value, text_at, Secret};
use crate::text::same_text;

verus! {

/// The data of a Secret, seen as a mathematical value.
pub type SecretView = Option<Map<Seq<char>, Seq<u8>>>;

/// The error for a Secret that lacks a key.
pub open spec fn missing_key(secret_name: Seq<char>, key: Seq<char>) -> ErrorView {
    ErrorView::Connection("secret '"@ + secret_name + "' is missing key '"@ + key + "'"@)
}

/// The text under a key that must be there and not be empty.
pub open spec fn required_text(secret: SecretView, key: Seq<char>, secret_name: Seq<char>) -> Result<
    Seq<char>,
    ErrorView,
> {
    match text_at(secret, key) {
        Some(text) => if text.len() > 0 {
            Ok(text)
        } else {
            Err(missing_key(secret_name, key))
        },
        None => Err(missing_key(secret_name, key)),
    }
}

/// A result with an error of this crate, seen as a mathematical value.
pub open spec fn result_view<T: DeepView>(result: Result<T, Error>) -> Result<T::V, ErrorView> {
    match result {
        Ok(value) => Ok(value.deep_view()),
        Err(error) => Err(error.deep_view()),
    }
}

/// Reads a key of a Secret that must be there and not be empty.
pub fn required(secret: &Secret, key: &str, secret_name: &str) -> (value: Result<String, Error>)
    ensures
        result_view(value) == required_text(secret.deep_view(), key@, secret_name@),
{
    match secret_value(secret, key) {
        Some(text) => {
            if !text.as_str().is_empty() {
                return Ok(text);
            }
        },
        None => {},
    }
    Err(
        Error::Connection(
            "secret '".to_owned().concat(secret_name).concat("' is missing key '").concat(
                key,
            ).concat("'"),
        ),
    )
}

/// What came of reading a Secret: its data, or why it cannot be read.
pub open spec fn secret_read(namespace: Seq<char>, name: Seq<char>, answer: AnswerView) -> Result<
    SecretView,
    ErrorView,
> {
    match answer {
        Ok(reply) => Ok(reply->Secret_0),
        Err(error) => Err(
            ErrorView::Connection(
                "cannot read secret '"@ + namespace + "/"@ + name + "': "@ + error.message(),
            ),
        ),
    }
}

/// Takes the answer to reading a Secret.
pub fn get_secret(namespace: &str, name: &str, answer: Answer) -> (secret: Result<Secret, Error>)
    requires
        answers(answer_view(answer), ReplyKind::Secret),
    ensures
        result_view(secret) == secret_read(namespace@, name@, answer_view(answer)),
{
    match answer {
        Ok(Reply::Secret(secret)) => Ok(secret),
        Ok(_) => unreached(),
        Err(error) => Err(
            Error::Connection(
                "cannot read secret '".to_owned().concat(namespace).concat("/").concat(
                    name,
                ).concat("': ").concat(error.message()),
            ),
        ),
    }
}

/// The region used where none is given.
pub open spec fn region_or_default(region: Option<Seq<char>>) -> Seq<char> {
    match region {
        Some(region) => region,
        None => "us-east-1"@,
    }
}

/// Fills in the region.
fn or_default_region(region: Option<String>) -> (effective: String)
    ensures
        effective@ == region_or_default(region.deep_view()),
{
    match region {
        Some(region) => region,
        None => "us-east-1".to_owned(),
    }
}

/// The connection that a Secret in the resource's namespace describes, or the
/// first of its required keys that is missing.
pub open spec fn local_connection(secret: SecretView, name: Seq<char>) -> Result<
    ConnectionInfoView,
    ErrorView,
> {
    match (
        required_text(secret, "endpoint"@, name),
        required_text(secret, "accessKey"@, name),
        required_text(secret, "secretKey"@, name),
    ) {
        (Err(error), _, _) => Err(error),
        (Ok(_), Err(error), _) => Err(error),
        (Ok(_), Ok(_), Err(error)) => Err(error),
        (Ok(endpoint), Ok(access_key), Ok(secret_key)) => Ok(
            ConnectionInfoView {
                endpoint,
                access_key,
                secret_key,
                region: region_or_default(text_at(secret, "region"@)),
                insecure: text_at(secret, "insecure"@) == Some("true"@),
            },
        ),
    }
}

/// Makes a connection out of the Secret `name` in the resource's namespace.
pub fn from_local_secret(secret: &Secret, name: &str) -> (info: Result<ConnectionInfo, Error>)
    ensures
        result_view(info) == local_connection(secret.deep_view(), name@),
{
    let endpoint = match required(secret, "endpoint", name) {
        Ok(value) => value,
        Err(error) => return Err(error),
    };
    let access_key = match required(secret, "accessKey", name) {
        Ok(value) => value,
        Err(error) => return Err(error),
    };
    let secret_key = match required(secret, "secretKey", name) {
        Ok(value) => value,
        Err(error) => return Err(error),
    };
    let region = or_default_region(secret_value(secret, "region"));
    let insecure = match secret_value(secret, "insecure") {
        Some(value) => same_text(value.as_str(), "true"),
        None => false,
    };
    Ok(ConnectionInfo { endpoint, access_key, secret_key, region, insecure })
}

/// The connection that a ClusterConnection and its credentials Secret describe,
/// or the first required key that is missing.
pub open spec fn cluster_connection(conn: ClusterConnectionView, secret: SecretView) -> Result<
    ConnectionInfoView,
    ErrorView,
> {
    match (
        required_text(secret, "accessKey"@, conn.credentials_secret_ref),
        required_text(secret, "secretKey"@, conn.credentials_secret_ref),
    ) {
        (Err(error), _) => Err(error),
        (Ok(_), Err(error)) => Err(error),
        (Ok(access_key), Ok(secret_key)) => Ok(
            ConnectionInfoView {
                endpoint: conn.endpoint,
                access_key,
                secret_key,
                region: region_or_default(conn.region),
                insecure: conn.insecure,
            },
        ),
    }
}

/// Makes a connection out of a ClusterConnection and its credentials Secret.
pub fn from_cluster_connection(conn: ClusterConnectionSpec, secret: &Secret) -> (info: Result<
    ConnectionInfo,
    Error,
>)
    ensures
        result_view(info) == cluster_connection(conn.deep_view(), secret.deep_view()),
{
    let access_key = match required(secret, "accessKey", conn.credentials_secret_ref.as_str()) {
        Ok(value) => value,
        Err(error) => return Err(error),
    };
    let secret_key = match required(secret, "secretKey", conn.credentials_secret_ref.as_str()) {
        Ok(value) => value,
        Err(error) => return Err(error),
    };
    Ok(
        ConnectionInfo {
            endpoint: conn.endpoint,
            access_key,
            secret_key,
            region: or_default_region(conn.region),
            insecure: conn.insecure,
        },
    )
}

/// How far a connection reference has been resolved.
#[derive(Clone, Debug, PartialEq, Eq)]
pub enum ConnectStage {
    /// The Secret in the resource's namespace is being read.
    LocalSecret { name: String },
    /// The ClusterConnection is being read.
    ClusterConnection { name: String },
    /// The credentials of the ClusterConnection are being read.
    ClusterSecret { conn: ClusterConnectionSpec },
    /// The server is being connected to.
    Connecting,
}

/// A [`ConnectStage`], seen as a mathematical value.
pub enum ConnectStageView {
    LocalSecret { name: Seq<char> },
    ClusterConnection { name: Seq<char> },
    ClusterSecret { conn: ClusterConnectionView },
    Connecting,
}

impl DeepView for ConnectStage {
    type V = ConnectStageView;

    open spec fn deep_view(&self) -> ConnectStageView {
        match self {
            ConnectStage::LocalSecret { name } => ConnectStageView::LocalSecret { name: name@ },
            ConnectStage::ClusterConnection { name } => ConnectStageView::ClusterConnection {
                name: name@,
            },
            ConnectStage::ClusterSecret { conn } => ConnectStageView::ClusterSecret {
                conn: conn.deep_view(),
            },
            ConnectStage::Connecting => ConnectStageView::Connecting,
        }
    }
}

impl ConnectStageView {
    /// The kind of reply that the stage waits for.
    pub open spec fn awaits(self) -> ReplyKind {
        match self {
            ConnectStageView::LocalSecret { .. } => ReplyKind::Secret,
            ConnectStageView::ClusterConnection { .. } => ReplyKind::ClusterConnection,
            ConnectStageView::ClusterSecret { .. } => ReplyKind::Secret,
            ConnectStageView::Connecting => ReplyKind::Connected,
        }
    }
}

/// A step on the way to a connection, seen as a mathematical value. Where it is
/// done, the result is the endpoint of the server.
pub type ConnectStepView = StepView<ConnectStageView, Seq<char>>;

/// How resolving a connection reference begins.
pub open spec fn connect_first(namespace: Seq<char>, conn: ConnectionRef) -> ConnectStepView {
    match (conn.secret_ref, conn.cluster_ref) {
        (Some(_), Some(_)) => StepView::Failed(
            ErrorView::Spec(
                "connection.secretRef and connection.clusterRef are mutually exclusive"@,
            ),
        ),
        (None, None) => StepView::Failed(
            ErrorView::Spec("connection must set either secretRef or clusterRef"@),
        ),
        (Some(secret), None) => StepView::Ask {
            stage: ConnectStageView::LocalSecret { name: secret@ },
            request: RequestView::GetSecret { namespace, name: secret@ },
        },
        (None, Some(cluster)) => StepView::Ask {
            stage: ConnectStageView::ClusterConnection { name: cluster@ },
            request: RequestView::GetClusterConnection { name: cluster@ },
        },
    }
}

/// Connecting, once it is known where to.
pub open spec fn connect_to(info: Result<ConnectionInfoView, ErrorView>) -> ConnectStepView {
    match info {
        Ok(info) => StepView::Ask {
            stage: ConnectStageView::Connecting,
            request: RequestView::Connect { info },
        },
        Err(error) => StepView::Failed(error),
    }
}

/// How resolving a connection reference goes on from an answer.
pub open spec fn connect_after(
    namespace: Seq<char>,
    operator_namespace: Seq<char>,
    stage: ConnectStageView,
    answer: AnswerView,
) -> ConnectStepView {
    match stage {
        ConnectStageView::LocalSecret { name } => match secret_read(namespace, name, answer) {
            Ok(secret) => connect_to(local_connection(secret, name)),
            Err(error) => StepView::Failed(error),
        },
        ConnectStageView::ClusterConnection { name } => match answer {
            Ok(reply) => {
                let conn = reply->ClusterConnection_0;
                if conn.allows(namespace) {
                    StepView::Ask {
                        stage: ConnectStageView::ClusterSecret { conn },
                        request: RequestView::GetSecret {
                            namespace: operator_namespace,
                            name: conn.credentials_secret_ref,
                        },
                    }
                } else {
                    StepView::Failed(
                        ErrorView::Connection(
                            "namespace '"@ + namespace
                                + "' is not allowed to use ClusterConnection '"@ + name + "'"@,
                        ),
                    )
                }
            },
            Err(error) => StepView::Failed(
                ErrorView::Connection(
                    "cannot read ClusterConnection '"@ + name + "': "@ + error.message(),
                ),
            ),
        },
        ConnectStageView::ClusterSecret { conn } => match secret_read(
            operator_namespace,
            conn.credentials_secret_ref,
            answer,
        ) {
            Ok(secret) => connect_to(cluster_connection(conn, secret)),
            Err(error) => StepView::Failed(error),
        },
        ConnectStageView::Connecting => match answer {
            Ok(reply) => StepView::Done(reply->endpoint),
            Err(error) => StepView::Failed(error),
        },
    }
}

/// Connects, once it is known where to.
fn connect(info: Result<ConnectionInfo, Error>) -> (step: Step<ConnectStage, String>)
    ensures
        step.deep_view() == connect_to(result_view(info)),
{
    match info {
        Ok(info) => Step::Ask { stage: ConnectStage::Connecting, request: Request::Connect { info } },
        Err(error) => Step::Failed(error),
    }
}

/// Begins to resolve a connection reference.
fn begin(namespace: &str, conn: &ConnectionRef) -> (step: Step<ConnectStage, String>)
    ensures
        step.deep_view() == connect_first(namespace@, *conn),
{
    match (&conn.secret_ref, &conn.cluster_ref) {
        (Some(_), Some(_)) => Step::Failed(
            Error::Spec(
                "connection.secretRef and connection.clusterRef are mutually exclusive".to_owned(),
            ),
        ),
        (None, None) => Step::Failed(
            Error::Spec("connection must set either secretRef or clusterRef".to_owned()),
        ),
        (Some(secret), None) => Step::Ask {
            stage: ConnectStage::LocalSecret { name: secret.clone() },
            request: Request::GetSecret { namespace: namespace.to_owned(), name: secret.clone() },
        },
        (None, Some(cluster)) => Step::Ask {
            stage: ConnectStage::ClusterConnection { name: cluster.clone() },
            request: Request::GetClusterConnection { name: cluster.clone() },
        },
    }
}

/// Goes on resolving a connection reference.
fn resume(
    namespace: &str,
    operator_namespace: &str,
    stage: ConnectStage,
    answer: Answer,
) -> (step: Step<ConnectStage, String>)
    requires
        answers(answer_view(answer), stage.deep_view().awaits()),
    ensures
        step.deep_view() == connect_after(
            namespace@,
            operator_namespace@,
            stage.deep_view(),
            answer_view(answer),
        ),
{
    match stage {
        ConnectStage::LocalSecret { name } => match get_secret(namespace, name.as_str(), answer) {
            Ok(secret) => connect(from_local_secret(&secret, name.as_str())),
            Err(error) => Step::Failed(error),
        },
        ConnectStage::ClusterConnection { name } => match answer {
            Ok(Reply::ClusterConnection(conn)) => {
                if conn.allows_namespace(namespace) {
                    let request = Request::GetSecret {
                        namespace: operator_namespace.to_owned(),
                        name: conn.credentials_secret_ref.clone(),
                    };
                    Step::Ask { stage: ConnectStage::ClusterSecret { conn }, request }
                } else {
                    Step::Failed(
                        Error::Connection(
                            "namespace '".to_owned().concat(namespace).concat(
                                "' is not allowed to use ClusterConnection '",
                            ).concat(name.as_str()).concat("'"),
                        ),
                    )
                }
            },
            Ok(_) => unreached(),
            Err(error) => Step::Failed(
                Error::Connection(
                    "cannot read ClusterConnection '".to_owned().concat(name.as_str()).concat(
                        "': ",
                    ).concat(error.message()),
                ),
            ),
        },
        ConnectStage::ClusterSecret { conn } => {
            let secret = get_secret(
                operator_namespace,
                conn.credentials_secret_ref.as_str(),
                answer,
            );
            match secret {
                Ok(secret) => connect(from_cluster_connection(conn, &secret)),
                Err(error) => Step::Failed(error),
            }
        },
        ConnectStage::Connecting => match answer {
            Ok(Reply::Connected { endpoint }) => Step::Done(endpoint),
            Ok(_) => unreached(),
            Err(error) => Step::Failed(error),
        },
    }
}

/// How resolving a connection reference takes a turn.
pub open spec fn connect_step(
    namespace: Seq<char>,
    operator_namespace: Seq<char>,
    conn: ConnectionRef,
    turn: TurnView<ConnectStageView>,
) -> ConnectStepView {
    match turn {
        TurnView::Begin => connect_first(namespace, conn),
        TurnView::Resume { stage, answer } => connect_after(
            namespace,
            operator_namespace,
            stage,
            answer,
        ),
    }
}

/// Whether a turn can be taken: an answer is of the kind that its stage awaits.
pub open spec fn connect_fits(turn: TurnView<ConnectStageView>) -> bool {
    turn matches TurnView::Resume { stage, answer } ==> answers(answer, stage.awaits())
}

/// Resolves the connection reference of a resource in `namespace` and connects.
/// The result is the endpoint of the server.
///
/// Credentials of a ClusterConnection always come from the operator's own
/// namespace, and only after the connection has been found to allow the
/// resource's namespace.
pub fn provider_for(
    namespace: &str,
    operator_namespace: &str,
    conn: &ConnectionRef,
    turn: Turn<ConnectStage>,
) -> (step: Step<ConnectStage, String>)
    requires
        connect_fits(turn.deep_view()),
    ensures
        step.deep_view() == connect_step(
            namespace@,
            operator_namespace@,
            *conn,
            turn.deep_view(),
        ),
        step.deep_view() matches StepView::Ask { stage, request } ==> request.reply_kind()
            == stage.awaits(),
{
    match turn {
        Turn::Begin => begin(namespace, conn),
        Turn::Resume { stage, answer } => resume(namespace, operator_namespace, stage, answer),
    }
}

/// The request for the Secret that a key reference names.
pub open spec fn key_request(namespace: Seq<char>, sref: SecretKeyRef) -> RequestView {
    RequestView::GetSecret { namespace, name: sref.name@ }
}

/// The text that a key reference names, out of the answer to [`key_request`].
pub open spec fn key_text(
    namespace: Seq<char>,
    sref: SecretKeyRef,
    default_key: Seq<char>,
    answer: AnswerView,
) -> Result<Seq<char>, ErrorView> {
    match secret_read(namespace, sref.name@, answer) {
        Ok(secret) => required_text(secret, sref.effective_key(default_key), sref.name@),
        Err(error) => Err(error),
    }
}

/// Asks for the Secret that a key reference names.
pub fn secret_key_request(namespace: &str, sref: &SecretKeyRef) -> (request: Request)
    ensures
        request.deep_view() == key_request(namespace@, *sref),
{
    Request::GetSecret { namespace: namespace.to_owned(), name: sref.name.clone() }
}

/// Reads a single key out of the answer to [`secret_key_request`] (e.g. a
/// managed user's password).
pub fn secret_key_value(
    namespace: &str,
    sref: &SecretKeyRef,
    default_key: &str,
    answer: Answer,
) -> (value: Result<String, Error>)
    requires
        answers(answer_view(answer), ReplyKind::Secret),
    ensures
        result_view(value) == key_text(namespace@, *sref, default_key@, answer_view(answer)),
{
    match get_secret(namespace, sref.name.as_str(), answer) {
        Ok(secret) => required(&secret, sref.key_or(default_key), sref.name.as_str()),
        Err(error) => Err(error),
    }
}

} // verus!
