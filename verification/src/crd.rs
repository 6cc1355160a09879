//! The custom resources of the group `rustfs.com/v1alpha1`: Bucket, User,
//! AccessKey, Policy and ClusterConnection.
//!
//! Every namespaced resource points at a RustFS server in one of two ways:
//!
//! - `connection.secret_ref`: a Secret in the resource's own namespace holding
//!   `endpoint`, `accessKey` and `secretKey` (self-service; the namespace owns
//!   its credentials).
//! - `connection.cluster_ref`: the name of a cluster-scoped ClusterConnection,
//!   whose admin credentials Secret lives only in the operator's namespace
//!   (centrally managed).

use vstd::prelude::*;

use crate::text::list_holds;

verus! {

/// Group and version of the resources.
pub const API_VERSION: &'static str = "rustfs.com/v1alpha1";

/// Kind of the [`AccessKey`] resource.
pub const ACCESS_KEY_KIND: &'static str = "AccessKey";

/// The part of an object's metadata that reconciliation reads.
#[derive(Clone, Debug, PartialEq, Eq)]
pub struct ObjectMeta {
    pub name: Option<String>,
    /// Prefix from which the API server makes up a name.
    pub generate_name: Option<String>,
    pub uid: Option<String>,
    pub generation: Option<i64>,
}

/// The first of two optional strings that is set, or else the empty string.
pub open spec fn first_set(a: Option<String>, b: Option<String>) -> Seq<char> {
    match (a, b) {
        (Some(text), _) => text@,
        (None, Some(text)) => text@,
        (None, None) => Seq::empty(),
    }
}

/// Returns the first of two optional strings that is set, or else the empty
/// string.
fn first_set_or_empty<'a>(a: &'a Option<String>, b: &'a Option<String>) -> (text: &'a str)
    ensures
        text@ == first_set(*a, *b),
{
    match a {
        Some(text) => text.as_str(),
        None => match b {
            Some(text) => text.as_str(),
            None => {
                proof {
                    reveal_strlit("");
                    assert(""@ =~= Seq::<char>::empty());
                }
                ""
            },
        },
    }
}

impl ObjectMeta {
    /// The most useful name there is: the name, else the prefix for a generated
    /// one, else the empty string.
    pub fn name_any(&self) -> (name: &str)
        ensures
            name@ == first_set(self.name, self.generate_name),
            self.name matches Some(own) ==> name@ == own@,
            self.name is None ==> (self.generate_name matches Some(given) ==> name@ == given@),
            self.name is None && self.generate_name is None ==> name@.len() == 0,
    {
        first_set_or_empty(&self.name, &self.generate_name)
    }
}

/// Reference to a RustFS server. Exactly one of `secret_ref` / `cluster_ref`
/// must be set (validated at reconcile time).
#[derive(Clone, Debug, PartialEq, Eq)]
pub struct ConnectionRef {
    /// Name of a Secret in the resource's namespace holding `endpoint`,
    /// `accessKey` and `secretKey` (optional: `region`, `insecure`).
    pub secret_ref: Option<String>,
    /// Name of a cluster-scoped ClusterConnection.
    pub cluster_ref: Option<String>,
}

impl ConnectionRef {
    /// Connection via a Secret in the resource's own namespace.
    pub fn local(secret: &str) -> (conn: Self)
        ensures
            conn.secret_ref.deep_view() == Some(secret@),
            conn.cluster_ref is None,
    {
        ConnectionRef { secret_ref: Some(secret.to_owned()), cluster_ref: None }
    }

    /// Connection via a cluster-scoped ClusterConnection.
    pub fn cluster(name: &str) -> (conn: Self)
        ensures
            conn.secret_ref is None,
            conn.cluster_ref.deep_view() == Some(name@),
    {
        ConnectionRef { secret_ref: None, cluster_ref: Some(name.to_owned()) }
    }
}

impl Default for ConnectionRef {
    /// A reference with nothing set.
    fn default() -> (conn: Self)
        ensures
            conn.secret_ref is None,
            conn.cluster_ref is None,
    {
        ConnectionRef { secret_ref: None, cluster_ref: None }
    }
}

/// A centrally managed connection to a RustFS server. Cluster-scoped; the
/// referenced credentials Secret lives in the operator's own namespace, so
/// application namespaces never see admin credentials.
#[derive(Clone, Debug, PartialEq, Eq)]
pub struct ClusterConnectionSpec {
    /// RustFS endpoint URL, e.g. `http://rustfs.storage.svc:9000`.
    pub endpoint: String,
    /// Name of the Secret in the operator's namespace holding `accessKey` and
    /// `secretKey`.
    pub credentials_secret_ref: String,
    /// AWS region; defaults to `us-east-1`.
    pub region: Option<String>,
    /// Skip TLS verification.
    pub insecure: bool,
    /// Namespaces whose resources may use this connection. Absent means all
    /// namespaces are allowed.
    pub allowed_namespaces: Option<Vec<String>>,
}

/// A [`ClusterConnectionSpec`], seen as a mathematical value.
pub struct ClusterConnectionView {
    pub endpoint: Seq<char>,
    pub credentials_secret_ref: Seq<char>,
    pub region: Option<Seq<char>>,
    pub insecure: bool,
    pub allowed_namespaces: Option<Seq<Seq<char>>>,
}

impl DeepView for ClusterConnectionSpec {
    type V = ClusterConnectionView;

    open spec fn deep_view(&self) -> ClusterConnectionView {
        ClusterConnectionView {
            endpoint: self.endpoint@,
            credentials_secret_ref: self.credentials_secret_ref@,
            region: self.region.deep_view(),
            insecure: self.insecure,
            allowed_namespaces: self.allowed_namespaces.deep_view(),
        }
    }
}

impl ClusterConnectionView {
    /// Whether `namespace` is on the list, or there is no list.
    pub open spec fn allows(self, namespace: Seq<char>) -> bool {
        match self.allowed_namespaces {
            None => true,
            Some(allowed) => allowed.contains(namespace),
        }
    }
}

impl ClusterConnectionSpec {
    /// Whether resources in `namespace` may use this connection.
    pub fn allows_namespace(&self, namespace: &str) -> (allowed: bool)
        ensures
            allowed == self.deep_view().allows(namespace@),
            self.allowed_namespaces is None ==> allowed,
            self.allowed_namespaces matches Some(list) ==> (allowed <==> exists|i: int|
                0 <= i < list@.len() && (#[trigger] list@[i])@ == namespace@),
    {
        match &self.allowed_namespaces {
            None => true,
            Some(list) => {
                let allowed = list_holds(list, namespace);
                proof {
                    let names = list.deep_view();
                    if allowed {
                        let i = choose|i: int| 0 <= i < names.len() && names[i] == namespace@;
                        assert(list@[i]@ == namespace@);
                    }
                    assert forall|i: int|
                        0 <= i < list@.len() && (#[trigger] list@[i])@ == namespace@ implies
                        allowed by {
                        assert(names[i] == namespace@);
                    }
                }
                allowed
            },
        }
    }
}

/// What happens to the remote resource when the custom resource is deleted.
#[derive(Clone, Copy, Debug, PartialEq, Eq, Structural)]
pub enum DeletionPolicy {
    /// Delete the resource in RustFS.
    Delete,
    /// Keep the resource in RustFS, only remove the custom resource.
    Retain,
}

impl Default for DeletionPolicy {
    fn default() -> (policy: Self)
        ensures
            policy == DeletionPolicy::Delete,
    {
        DeletionPolicy::Delete
    }
}

/// Whether a lifecycle rule is active.
#[derive(Clone, Copy, Debug, PartialEq, Eq, Structural)]
pub enum LifecycleStatus {
    /// The rule is evaluated by the scanner.
    Enabled,
    /// The rule is kept but not evaluated.
    Disabled,
}

impl Default for LifecycleStatus {
    fn default() -> (status: Self)
        ensures
            status == LifecycleStatus::Enabled,
    {
        LifecycleStatus::Enabled
    }
}

/// A single S3 lifecycle rule.
///
/// Deliberately a *subset* of the S3 lifecycle spec: expiration by age and
/// aborting stale multipart uploads. Transitions and non-current-version rules
/// are omitted: they only make sense with storage tiers and versioning, which
/// RustFS does not offer.
#[derive(Clone, Debug, PartialEq, Eq)]
pub struct LifecycleRuleSpec {
    /// Rule ID, unique within the bucket.
    pub id: String,
    /// Enabled (default) or Disabled.
    pub status: LifecycleStatus,
    /// Object-key prefix the rule applies to. Unset means the whole bucket.
    pub prefix: Option<String>,
    /// Expire objects this many days after creation.
    pub expiration_days: Option<i32>,
    /// Abort multipart uploads left incomplete for this many days.
    pub abort_incomplete_multipart_upload_days: Option<i32>,
}

/// Shared status of Bucket, User and Policy resources.
#[derive(Clone, Debug, PartialEq, Eq)]
pub struct ResourceStatus {
    /// True once the remote resource matches the spec.
    pub ready: bool,
    /// Human-readable state or last error.
    pub message: Option<String>,
    /// Generation last acted upon.
    pub observed_generation: Option<i64>,
}

/// A [`ResourceStatus`], seen as a mathematical value.
pub struct ResourceStatusView {
    pub ready: bool,
    pub message: Option<Seq<char>>,
    pub observed_generation: Option<i64>,
}

impl DeepView for ResourceStatus {
    type V = ResourceStatusView;

    open spec fn deep_view(&self) -> ResourceStatusView {
        ResourceStatusView {
            ready: self.ready,
            message: self.message.deep_view(),
            observed_generation: self.observed_generation,
        }
    }
}

impl ResourceStatusView {
    /// The status of a resource that has been reconciled.
    pub open spec fn reconciled(generation: Option<i64>) -> Self {
        ResourceStatusView {
            ready: true,
            message: Some("reconciled"@),
            observed_generation: generation,
        }
    }

    /// The status of a resource that could not be reconciled.
    pub open spec fn failed(generation: Option<i64>, message: Seq<char>) -> Self {
        ResourceStatusView { ready: false, message: Some(message), observed_generation: generation }
    }
}

impl ResourceStatus {
    /// Status after a successful reconciliation.
    pub fn ready(generation: Option<i64>) -> (status: Self)
        ensures
            status.deep_view() == ResourceStatusView::reconciled(generation),
            status.ready,
            status.message matches Some(text) && text@ == "reconciled"@,
            status.observed_generation == generation,
    {
        ResourceStatus {
            ready: true,
            message: Some("reconciled".to_owned()),
            observed_generation: generation,
        }
    }

    /// Status after a failure, which `message` describes.
    pub fn error(generation: Option<i64>, message: &str) -> (status: Self)
        ensures
            status.deep_view() == ResourceStatusView::failed(generation, message@),
            !status.ready,
            status.message matches Some(text) && text@ == message@,
            status.observed_generation == generation,
    {
        ResourceStatus {
            ready: false,
            message: Some(message.to_owned()),
            observed_generation: generation,
        }
    }
}

impl Default for ResourceStatus {
    /// Nothing has been reported yet.
    fn default() -> (status: Self)
        ensures
            status.deep_view() == (ResourceStatusView {
                ready: false,
                message: None,
                observed_generation: None,
            }),
    {
        ResourceStatus { ready: false, message: None, observed_generation: None }
    }
}

/// An S3 bucket in RustFS.
#[derive(Clone, Debug, PartialEq, Eq)]
pub struct BucketSpec {
    pub connection: ConnectionRef,
    /// Bucket name in RustFS; defaults to the name of the resource.
    pub bucket_name: Option<String>,
    /// Desired versioning state; unset means unmanaged.
    pub versioning: Option<bool>,
    /// Hard quota in bytes; unset means unmanaged.
    pub quota_bytes: Option<u64>,
    /// Lifecycle rules; unset means unmanaged (the operator never reads or
    /// writes the bucket's lifecycle configuration). An explicitly empty list
    /// means "no rules", and removes any configuration present on the bucket.
    pub lifecycle: Option<Vec<LifecycleRuleSpec>>,
    pub deletion_policy: DeletionPolicy,
}

/// The Bucket resource.
#[derive(Clone, Debug, PartialEq, Eq)]
pub struct Bucket {
    pub metadata: ObjectMeta,
    pub spec: BucketSpec,
    pub status: Option<ResourceStatus>,
}

impl Bucket {
    /// Effective bucket name in RustFS.
    pub fn bucket_name(&self) -> (name: &str)
        ensures
            name@ == first_set(self.spec.bucket_name, self.metadata.name),
            self.spec.bucket_name matches Some(own) ==> name@ == own@,
            self.spec.bucket_name is None ==> (self.metadata.name matches Some(given) ==> name@
                == given@),
            self.spec.bucket_name is None && self.metadata.name is None ==> name@.len() == 0,
    {
        first_set_or_empty(&self.spec.bucket_name, &self.metadata.name)
    }
}

/// Reference to a key inside a Secret in the same namespace.
#[derive(Clone, Debug, PartialEq, Eq)]
pub struct SecretKeyRef {
    /// Secret name.
    pub name: String,
    /// Key within the Secret; each consumer documents its default.
    pub key: Option<String>,
}

impl SecretKeyRef {
    /// The key that is read, where `default` is the consumer's default.
    pub open spec fn effective_key(self, default: Seq<char>) -> Seq<char> {
        match self.key {
            Some(key) => key@,
            None => default,
        }
    }

    /// The key, or `default` where none is given.
    pub fn key_or<'a>(&'a self, default: &'a str) -> (key: &'a str)
        ensures
            key@ == self.effective_key(default@),
            self.key matches Some(own) ==> key@ == own@,
            self.key is None ==> key@ == default@,
    {
        match &self.key {
            Some(key) => key.as_str(),
            None => default,
        }
    }
}

/// Default of [`UserSpec::enabled`].
pub fn default_true() -> (value: bool)
    ensures
        value,
{
    true
}

/// An IAM user (identity) in RustFS: a username with a password. Policies
/// attach to the user; applications should authenticate with [`AccessKey`]s
/// issued for the user rather than the password itself.
#[derive(Clone, Debug, PartialEq, Eq)]
pub struct UserSpec {
    pub connection: ConnectionRef,
    /// Username in RustFS; defaults to the name of the resource.
    pub username: Option<String>,
    /// Secret holding the user's password (key defaults to `password`). Only
    /// applied when the user is first created; RustFS cannot update it.
    pub password_ref: SecretKeyRef,
    /// Policies attached to the user; managed declaratively (extra attachments
    /// are detached).
    pub policies: Vec<String>,
    /// Whether the user is enabled.
    pub enabled: bool,
    pub deletion_policy: DeletionPolicy,
}

/// The User resource.
#[derive(Clone, Debug, PartialEq, Eq)]
pub struct User {
    pub metadata: ObjectMeta,
    pub spec: UserSpec,
    pub status: Option<ResourceStatus>,
}

impl User {
    /// Effective username in RustFS.
    pub fn username(&self) -> (name: &str)
        ensures
            name@ == first_set(self.spec.username, self.metadata.name),
            self.spec.username matches Some(own) ==> name@ == own@,
            self.spec.username is None ==> (self.metadata.name matches Some(given) ==> name@
                == given@),
            self.spec.username is None && self.metadata.name is None ==> name@.len() == 0,
    {
        first_set_or_empty(&self.spec.username, &self.metadata.name)
    }
}

/// An access key (AK/SK credential pair, a RustFS "service account") owned by a
/// [`User`]. A user can have many. The operator authenticates to RustFS *as the
/// user* to issue the key, generates the credentials, and writes them to a
/// Secret in the resource's namespace, owner-referenced so it is
/// garbage-collected with the resource.
#[derive(Clone, Debug, PartialEq, Eq)]
pub struct AccessKeySpec {
    pub connection: ConnectionRef,
    /// Username of the owning RustFS user.
    pub user: String,
    /// Secret holding that user's password (key defaults to `password`).
    pub password_ref: SecretKeyRef,
    /// Explicit access key id; generated when omitted.
    pub access_key: Option<String>,
    /// Optional description stored on the service account.
    pub description: Option<String>,
    /// Optional inline policy restricting what this key may do.
    pub policy: Option<serde_json::Value>,
    /// Name of the Secret the operator writes the credentials to (keys
    /// `accessKey`, `secretKey`, `endpoint`); defaults to
    /// `<resource name>-credentials`.
    pub target_secret_name: Option<String>,
    pub deletion_policy: DeletionPolicy,
}

/// Status of AccessKey resources.
#[derive(Clone, Debug, PartialEq, Eq)]
pub struct AccessKeyStatus {
    pub ready: bool,
    pub message: Option<String>,
    pub observed_generation: Option<i64>,
    /// The issued access key id.
    pub access_key: Option<String>,
}

/// An [`AccessKeyStatus`], seen as a mathematical value.
pub struct AccessKeyStatusView {
    pub ready: bool,
    pub message: Option<Seq<char>>,
    pub observed_generation: Option<i64>,
    pub access_key: Option<Seq<char>>,
}

impl DeepView for AccessKeyStatus {
    type V = AccessKeyStatusView;

    open spec fn deep_view(&self) -> AccessKeyStatusView {
        AccessKeyStatusView {
            ready: self.ready,
            message: self.message.deep_view(),
            observed_generation: self.observed_generation,
            access_key: self.access_key.deep_view(),
        }
    }
}

impl Default for AccessKeyStatus {
    /// Nothing has been reported yet.
    fn default() -> (status: Self)
        ensures
            status.deep_view() == (AccessKeyStatusView {
                ready: false,
                message: None,
                observed_generation: None,
                access_key: None,
            }),
    {
        AccessKeyStatus { ready: false, message: None, observed_generation: None, access_key: None }
    }
}

/// The AccessKey resource.
#[derive(Clone, Debug, PartialEq, Eq)]
pub struct AccessKey {
    pub metadata: ObjectMeta,
    pub spec: AccessKeySpec,
    pub status: Option<AccessKeyStatus>,
}

impl AccessKey {
    /// The name of the Secret that receives the credentials.
    pub open spec fn secret_name(self) -> Seq<char> {
        match self.spec.target_secret_name {
            Some(name) => name@,
            None => first_set(self.metadata.name, None) + "-credentials"@,
        }
    }

    /// Effective name of the Secret receiving the credentials.
    pub fn target_secret_name(&self) -> (name: String)
        ensures
            name@ == self.secret_name(),
            self.spec.target_secret_name matches Some(own) ==> name@ == own@,
            self.spec.target_secret_name is None ==> (self.metadata.name matches Some(given)
                ==> name@ == given@ + "-credentials"@),
    {
        match &self.spec.target_secret_name {
            Some(name) => name.clone(),
            None => first_set_or_empty(&self.metadata.name, &None).to_owned().concat(
                "-credentials",
            ),
        }
    }
}

/// An IAM policy in RustFS.
#[derive(Debug, PartialEq, Eq)]
pub struct PolicySpec {
    pub connection: ConnectionRef,
    /// Policy name in RustFS; defaults to the name of the resource.
    pub policy_name: Option<String>,
    /// IAM policy document.
    pub document: serde_json::Value,
    pub deletion_policy: DeletionPolicy,
}

/// The Policy resource.
#[derive(Debug, PartialEq, Eq)]
pub struct Policy {
    pub metadata: ObjectMeta,
    pub spec: PolicySpec,
    pub status: Option<ResourceStatus>,
}

impl Policy {
    /// Effective policy name in RustFS.
    pub fn policy_name(&self) -> (name: &str)
        ensures
            name@ == first_set(self.spec.policy_name, self.metadata.name),
            self.spec.policy_name matches Some(own) ==> name@ == own@,
            self.spec.policy_name is None ==> (self.metadata.name matches Some(given) ==> name@
                == given@),
            self.spec.policy_name is None && self.metadata.name is None ==> name@.len() == 0,
    {
        first_set_or_empty(&self.spec.policy_name, &self.metadata.name)
    }
}

} // verus!
