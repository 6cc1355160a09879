//! Requests, replies and steps: how a task talks to the outside.
//!
//! A task is a function from a [`Turn`] to a [`Step`]. It is run by performing the
//! request of each [`Step::Ask`] and handing the answer back with the stage, until
//! it is done or failed.

use vstd::prelude::*;

use crate::crd::{ClusterConnectionSpec, ClusterConnectionView};
use crate::error::{Error, ErrorView};
use crate::lifecycle::{LifecycleRule, LifecycleRuleView};
use crate::secret::Secret;

verus! {

/// What is needed to connect to a RustFS server.
#[derive(Clone, Debug, PartialEq, Eq)]
pub struct ConnectionInfo {
    pub endpoint: String,
    pub access_key: String,
    pub secret_key: String,
    pub region: String,
    /// Skip TLS verification.
    pub insecure: bool,
}

/// A [`ConnectionInfo`], seen as a mathematical value.
pub struct ConnectionInfoView {
    pub endpoint: Seq<char>,
    pub access_key: Seq<char>,
    pub secret_key: Seq<char>,
    pub region: Seq<char>,
    pub insecure: bool,
}

impl DeepView for ConnectionInfo {
    type V = ConnectionInfoView;

    open spec fn deep_view(&self) -> ConnectionInfoView {
        ConnectionInfoView {
            endpoint: self.endpoint@,
            access_key: self.access_key@,
            secret_key: self.secret_key@,
            region: self.region@,
            insecure: self.insecure,
        }
    }
}

/// Reference from an object to the one that owns it.
#[derive(Clone, Debug, PartialEq, Eq)]
pub struct OwnerReference {
    pub api_version: String,
    pub kind: String,
    pub name: String,
    pub uid: String,
    pub controller: Option<bool>,
    pub block_owner_deletion: Option<bool>,
}

/// An [`OwnerReference`], seen as a mathematical value.
pub struct OwnerReferenceView {
    pub api_version: Seq<char>,
    pub kind: Seq<char>,
    pub name: Seq<char>,
    pub uid: Seq<char>,
    pub controller: Option<bool>,
    pub block_owner_deletion: Option<bool>,
}

impl DeepView for OwnerReference {
    type V = OwnerReferenceView;

    open spec fn deep_view(&self) -> OwnerReferenceView {
        OwnerReferenceView {
            api_version: self.api_version@,
            kind: self.kind@,
            name: self.name@,
            uid: self.uid@,
            controller: self.controller,
            block_owner_deletion: self.block_owner_deletion,
        }
    }
}

/// A Secret to be written.
#[derive(Clone, Debug, PartialEq, Eq)]
pub struct SecretManifest {
    pub api_version: String,
    pub kind: String,
    pub name: String,
    pub owner_references: Vec<OwnerReference>,
    /// The Secret's `type`.
    pub secret_type: String,
    /// Keys and values, as text.
    pub string_data: Vec<(String, String)>,
}

/// A [`SecretManifest`], seen as a mathematical value.
pub struct SecretManifestView {
    pub api_version: Seq<char>,
    pub kind: Seq<char>,
    pub name: Seq<char>,
    pub owner_references: Seq<OwnerReferenceView>,
    pub secret_type: Seq<char>,
    pub string_data: Seq<(Seq<char>, Seq<char>)>,
}

impl DeepView for SecretManifest {
    type V = SecretManifestView;

    open spec fn deep_view(&self) -> SecretManifestView {
        SecretManifestView {
            api_version: self.api_version@,
            kind: self.kind@,
            name: self.name@,
            owner_references: self.owner_references.deep_view(),
            secret_type: self.secret_type@,
            string_data: self.string_data.deep_view(),
        }
    }
}

/// Whether a user may sign in.
#[derive(Clone, Copy, Debug, PartialEq, Eq, Structural)]
pub enum UserStatus {
    Enabled,
    Disabled,
}

/// A user on the server, as far as it is read.
#[derive(Clone, Debug, PartialEq, Eq)]
pub struct RemoteUser {
    pub status: UserStatus,
    /// Names of the attached policies, separated by commas.
    pub policy_name: Option<String>,
}

/// A [`RemoteUser`], seen as a mathematical value.
pub struct RemoteUserView {
    pub status: UserStatus,
    pub policy_name: Option<Seq<char>>,
}

impl DeepView for RemoteUser {
    type V = RemoteUserView;

    open spec fn deep_view(&self) -> RemoteUserView {
        RemoteUserView { status: self.status, policy_name: self.policy_name.deep_view() }
    }
}

/// Something that a task wants done.
#[derive(Debug)]
pub enum Request {
    /// Read a Secret.
    GetSecret { namespace: String, name: String },
    /// Read a cluster-scoped ClusterConnection.
    GetClusterConnection { name: String },
    /// Write a Secret, whatever it held before.
    ApplySecret { namespace: String, manifest: SecretManifest },
    /// Connect to a RustFS server; what follows goes to that server.
    Connect { info: ConnectionInfo },
    BucketExists { bucket: String },
    CreateBucket { bucket: String },
    DeleteBucket { bucket: String },
    GetVersioning { bucket: String },
    SetVersioning { bucket: String, enabled: bool },
    GetBucketQuota { bucket: String },
    SetBucketQuota { bucket: String, bytes: u64 },
    GetBucketLifecycle { bucket: String },
    SetBucketLifecycle { bucket: String, rules: Vec<LifecycleRule> },
    DeleteBucketLifecycle { bucket: String },
    GetUser { username: String },
    CreateUser { username: String, password: String },
    DeleteUser { username: String },
    SetUserStatus { username: String, enabled: bool },
    /// Replace the whole set of attached policies.
    SetUserPolicies { username: String, policies: Vec<String> },
    /// Look up an access key of the user, signed in as the user.
    GetAccessKey { username: String, password: String, access_key: String },
    /// Create an access key for the user, signed in as the user.
    CreateAccessKey {
        username: String,
        password: String,
        access_key: String,
        secret_key: String,
        description: Option<String>,
        /// Inline policy, as JSON text.
        policy: Option<String>,
    },
    /// Delete an access key of the user, signed in as the user.
    DeleteAccessKey { username: String, password: String, access_key: String },
}

/// A [`Request`], seen as a mathematical value.
pub enum RequestView {
    GetSecret { namespace: Seq<char>, name: Seq<char> },
    GetClusterConnection { name: Seq<char> },
    ApplySecret { namespace: Seq<char>, manifest: SecretManifestView },
    Connect { info: ConnectionInfoView },
    BucketExists { bucket: Seq<char> },
    CreateBucket { bucket: Seq<char> },
    DeleteBucket { bucket: Seq<char> },
    GetVersioning { bucket: Seq<char> },
    SetVersioning { bucket: Seq<char>, enabled: bool },
    GetBucketQuota { bucket: Seq<char> },
    SetBucketQuota { bucket: Seq<char>, bytes: u64 },
    GetBucketLifecycle { bucket: Seq<char> },
    SetBucketLifecycle { bucket: Seq<char>, rules: Seq<LifecycleRuleView> },
    DeleteBucketLifecycle { bucket: Seq<char> },
    GetUser { username: Seq<char> },
    CreateUser { username: Seq<char>, password: Seq<char> },
    DeleteUser { username: Seq<char> },
    SetUserStatus { username: Seq<char>, enabled: bool },
    SetUserPolicies { username: Seq<char>, policies: Seq<Seq<char>> },
    GetAccessKey { username: Seq<char>, password: Seq<char>, access_key: Seq<char> },
    CreateAccessKey {
        username: Seq<char>,
        password: Seq<char>,
        access_key: Seq<char>,
        secret_key: Seq<char>,
        description: Option<Seq<char>>,
        policy: Option<Seq<char>>,
    },
    DeleteAccessKey { username: Seq<char>, password: Seq<char>, access_key: Seq<char> },
}

impl DeepView for Request {
    type V = RequestView;

    open spec fn deep_view(&self) -> RequestView {
        match self {
            Request::GetSecret { namespace, name } => RequestView::GetSecret {
                namespace: namespace@,
                name: name@,
            },
            Request::GetClusterConnection { name } => RequestView::GetClusterConnection {
                name: name@,
            },
            Request::ApplySecret { namespace, manifest } => RequestView::ApplySecret {
                namespace: namespace@,
                manifest: manifest.deep_view(),
            },
            Request::Connect { info } => RequestView::Connect { info: info.deep_view() },
            Request::BucketExists { bucket } => RequestView::BucketExists { bucket: bucket@ },
            Request::CreateBucket { bucket } => RequestView::CreateBucket { bucket: bucket@ },
            Request::DeleteBucket { bucket } => RequestView::DeleteBucket { bucket: bucket@ },
            Request::GetVersioning { bucket } => RequestView::GetVersioning { bucket: bucket@ },
            Request::SetVersioning { bucket, enabled } => RequestView::SetVersioning {
                bucket: bucket@,
                enabled: *enabled,
            },
            Request::GetBucketQuota { bucket } => RequestView::GetBucketQuota { bucket: bucket@ },
            Request::SetBucketQuota { bucket, bytes } => RequestView::SetBucketQuota {
                bucket: bucket@,
                bytes: *bytes,
            },
            Request::GetBucketLifecycle { bucket } => RequestView::GetBucketLifecycle {
                bucket: bucket@,
            },
            Request::SetBucketLifecycle { bucket, rules } => RequestView::SetBucketLifecycle {
                bucket: bucket@,
                rules: rules.deep_view(),
            },
            Request::DeleteBucketLifecycle { bucket } => RequestView::DeleteBucketLifecycle {
                bucket: bucket@,
            },
            Request::GetUser { username } => RequestView::GetUser { username: username@ },
            Request::CreateUser { username, password } => RequestView::CreateUser {
                username: username@,
                password: password@,
            },
            Request::DeleteUser { username } => RequestView::DeleteUser { username: username@ },
            Request::SetUserStatus { username, enabled } => RequestView::SetUserStatus {
                username: username@,
                enabled: *enabled,
            },
            Request::SetUserPolicies { username, policies } => RequestView::SetUserPolicies {
                username: username@,
                policies: policies.deep_view(),
            },
            Request::GetAccessKey { username, password, access_key } => RequestView::GetAccessKey {
                username: username@,
                password: password@,
                access_key: access_key@,
            },
            Request::CreateAccessKey {
                username,
                password,
                access_key,
                secret_key,
                description,
                policy,
            } => RequestView::CreateAccessKey {
                username: username@,
                password: password@,
                access_key: access_key@,
                secret_key: secret_key@,
                description: description.deep_view(),
                policy: policy.deep_view(),
            },
            Request::DeleteAccessKey {
                username,
                password,
                access_key,
            } => RequestView::DeleteAccessKey {
                username: username@,
                password: password@,
                access_key: access_key@,
            },
        }
    }
}

/// The answer to a request that went well.
#[derive(Debug)]
pub enum Reply {
    /// It is done.
    Done,
    Secret(Secret),
    ClusterConnection(ClusterConnectionSpec),
    /// There is a connection, to the server at this endpoint.
    Connected { endpoint: String },
    /// Whether the thing asked for exists.
    Exists(bool),
    /// The versioning state of a bucket, where it has one.
    Versioning(Option<bool>),
    /// The hard quota of a bucket in bytes, where it has one.
    Quota(Option<u64>),
    Lifecycle(Vec<LifecycleRule>),
    User(Option<RemoteUser>),
}

/// A [`Reply`], seen as a mathematical value.
pub enum ReplyView {
    Done,
    Secret(Option<Map<Seq<char>, Seq<u8>>>),
    ClusterConnection(ClusterConnectionView),
    Connected { endpoint: Seq<char> },
    Exists(bool),
    Versioning(Option<bool>),
    Quota(Option<u64>),
    Lifecycle(Seq<LifecycleRuleView>),
    User(Option<RemoteUserView>),
}

impl DeepView for Reply {
    type V = ReplyView;

    open spec fn deep_view(&self) -> ReplyView {
        match self {
            Reply::Done => ReplyView::Done,
            Reply::Secret(secret) => ReplyView::Secret(secret.deep_view()),
            Reply::ClusterConnection(spec) => ReplyView::ClusterConnection(spec.deep_view()),
            Reply::Connected { endpoint } => ReplyView::Connected { endpoint: endpoint@ },
            Reply::Exists(exists) => ReplyView::Exists(*exists),
            Reply::Versioning(state) => ReplyView::Versioning(*state),
            Reply::Quota(bytes) => ReplyView::Quota(*bytes),
            Reply::Lifecycle(rules) => ReplyView::Lifecycle(rules.deep_view()),
            Reply::User(user) => ReplyView::User(user.deep_view()),
        }
    }
}

/// What came of a request: a reply, or an error.
pub type Answer = Result<Reply, Error>;

/// An [`Answer`], seen as a mathematical value.
pub type AnswerView = Result<ReplyView, ErrorView>;

/// The mathematical value of an answer.
pub open spec fn answer_view(answer: Answer) -> AnswerView {
    match answer {
        Ok(reply) => Ok(reply.deep_view()),
        Err(error) => Err(error.deep_view()),
    }
}

/// The kinds of reply.
#[derive(Clone, Copy, Debug, PartialEq, Eq, Structural)]
pub enum ReplyKind {
    Done,
    Secret,
    ClusterConnection,
    Connected,
    Exists,
    Versioning,
    Quota,
    Lifecycle,
    User,
}

impl ReplyView {
    /// The kind of the reply.
    pub open spec fn kind(self) -> ReplyKind {
        match self {
            ReplyView::Done => ReplyKind::Done,
            ReplyView::Secret(_) => ReplyKind::Secret,
            ReplyView::ClusterConnection(_) => ReplyKind::ClusterConnection,
            ReplyView::Connected { .. } => ReplyKind::Connected,
            ReplyView::Exists(_) => ReplyKind::Exists,
            ReplyView::Versioning(_) => ReplyKind::Versioning,
            ReplyView::Quota(_) => ReplyKind::Quota,
            ReplyView::Lifecycle(_) => ReplyKind::Lifecycle,
            ReplyView::User(_) => ReplyKind::User,
        }
    }
}

impl RequestView {
    /// The kind of reply that the request calls for.
    pub open spec fn reply_kind(self) -> ReplyKind {
        match self {
            RequestView::GetSecret { .. } => ReplyKind::Secret,
            RequestView::GetClusterConnection { .. } => ReplyKind::ClusterConnection,
            RequestView::Connect { .. } => ReplyKind::Connected,
            RequestView::BucketExists { .. } => ReplyKind::Exists,
            RequestView::GetAccessKey { .. } => ReplyKind::Exists,
            RequestView::GetVersioning { .. } => ReplyKind::Versioning,
            RequestView::GetBucketQuota { .. } => ReplyKind::Quota,
            RequestView::GetBucketLifecycle { .. } => ReplyKind::Lifecycle,
            RequestView::GetUser { .. } => ReplyKind::User,
            _ => ReplyKind::Done,
        }
    }
}

/// Whether an answer is an error or a reply of the given kind.
pub open spec fn answers(answer: AnswerView, kind: ReplyKind) -> bool {
    answer matches Ok(reply) ==> reply.kind() == kind
}

impl Reply {
    /// The kind of the reply.
    pub fn kind(&self) -> (kind: ReplyKind)
        ensures
            kind == self.deep_view().kind(),
    {
        match self {
            Reply::Done => ReplyKind::Done,
            Reply::Secret(_) => ReplyKind::Secret,
            Reply::ClusterConnection(_) => ReplyKind::ClusterConnection,
            Reply::Connected { .. } => ReplyKind::Connected,
            Reply::Exists(_) => ReplyKind::Exists,
            Reply::Versioning(_) => ReplyKind::Versioning,
            Reply::Quota(_) => ReplyKind::Quota,
            Reply::Lifecycle(_) => ReplyKind::Lifecycle,
            Reply::User(_) => ReplyKind::User,
        }
    }
}

impl Request {
    /// The kind of reply that the request calls for.
    pub fn reply_kind(&self) -> (kind: ReplyKind)
        ensures
            kind == self.deep_view().reply_kind(),
    {
        match self {
            Request::GetSecret { .. } => ReplyKind::Secret,
            Request::GetClusterConnection { .. } => ReplyKind::ClusterConnection,
            Request::Connect { .. } => ReplyKind::Connected,
            Request::BucketExists { .. } => ReplyKind::Exists,
            Request::GetAccessKey { .. } => ReplyKind::Exists,
            Request::GetVersioning { .. } => ReplyKind::Versioning,
            Request::GetBucketQuota { .. } => ReplyKind::Quota,
            Request::GetBucketLifecycle { .. } => ReplyKind::Lifecycle,
            Request::GetUser { .. } => ReplyKind::User,
            _ => ReplyKind::Done,
        }
    }
}

/// What moves a task on.
#[derive(Debug)]
pub enum Turn<S> {
    /// The task begins.
    Begin,
    /// The request that was asked for in `stage` has been answered.
    Resume { stage: S, answer: Answer },
}

/// A [`Turn`], seen as a mathematical value.
pub enum TurnView<S> {
    Begin,
    Resume { stage: S, answer: AnswerView },
}

impl<S: DeepView> DeepView for Turn<S> {
    type V = TurnView<S::V>;

    open spec fn deep_view(&self) -> TurnView<S::V> {
        match self {
            Turn::Begin => TurnView::Begin,
            Turn::Resume { stage, answer } => TurnView::Resume {
                stage: stage.deep_view(),
                answer: answer_view(*answer),
            },
        }
    }
}

/// Where a task stands.
#[derive(Debug)]
pub enum Step<S, T> {
    /// The request is to be performed, and the task continued from `stage` with
    /// the answer.
    Ask { stage: S, request: Request },
    /// The task is done.
    Done(T),
    /// The task failed.
    Failed(Error),
}

/// A [`Step`], seen as a mathematical value.
pub enum StepView<S, T> {
    Ask { stage: S, request: RequestView },
    Done(T),
    Failed(ErrorView),
}

impl<S: DeepView, T: DeepView> DeepView for Step<S, T> {
    type V = StepView<S::V, T::V>;

    open spec fn deep_view(&self) -> StepView<S::V, T::V> {
        match self {
            Step::Ask { stage, request } => StepView::Ask {
                stage: stage.deep_view(),
                request: request.deep_view(),
            },
            Step::Done(result) => StepView::Done(result.deep_view()),
            Step::Failed(error) => StepView::Failed(error.deep_view()),
        }
    }
}

} // verus!
