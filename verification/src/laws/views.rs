//! What the mathematical values of requests, replies and the rest show: every
//! field, each in its place.

use vstd::prelude::*;

use crate::connection::{result_view, secret_read};
use crate::crd::{AccessKeyStatus, ClusterConnectionSpec, ResourceStatus};
use crate::error::{Error, ErrorView};
use crate::exchange::{
    answer_view, answers, AnswerView, ConnectionInfo, OwnerReference, RemoteUser, Reply, ReplyKind,
    ReplyView, Request, RequestView, SecretManifest, Step, StepView, Turn, TurnView,
};
use crate::lifecycle::LifecycleRule;
use crate::reconcile::access_key::{KeyOutcome, KeyOutcomeView};
use crate::reconcile::{Action, Report};
use crate::secret::Secret;

verus! {

/// An optional text, seen as a mathematical value.
pub open spec fn text_of(text: Option<String>) -> Option<Seq<char>> {
    match text {
        Some(text) => Some(text@),
        None => None,
    }
}

/// A request shows what it asks for.
pub proof fn a_request_shows_its_fields(request: Request)
    ensures
        ({
            let view = request.deep_view();
            match request {
                Request::GetSecret { namespace, name } => view == (RequestView::GetSecret {
                    namespace: namespace@,
                    name: name@,
                }),
                Request::GetClusterConnection { name } => view
                    == (RequestView::GetClusterConnection {
                    name: name@,
                }),
                Request::ApplySecret { namespace, manifest } => view == (RequestView::ApplySecret {
                    namespace: namespace@,
                    manifest: manifest.deep_view(),
                }),
                Request::Connect { info } => view == (RequestView::Connect {
                    info: info.deep_view(),
                }),
                Request::BucketExists { bucket } => view == (RequestView::BucketExists {
                    bucket: bucket@,
                }),
                Request::CreateBucket { bucket } => view == (RequestView::CreateBucket {
                    bucket: bucket@,
                }),
                Request::DeleteBucket { bucket } => view == (RequestView::DeleteBucket {
                    bucket: bucket@,
                }),
                Request::GetVersioning { bucket } => view == (RequestView::GetVersioning {
                    bucket: bucket@,
                }),
                Request::SetVersioning { bucket, enabled } => view == (RequestView::SetVersioning {
                    bucket: bucket@,
                    enabled,
                }),
                Request::GetBucketQuota { bucket } => view == (RequestView::GetBucketQuota {
                    bucket: bucket@,
                }),
                Request::SetBucketQuota { bucket, bytes } => view == (RequestView::SetBucketQuota {
                    bucket: bucket@,
                    bytes,
                }),
                Request::GetBucketLifecycle { bucket } => view == (RequestView::GetBucketLifecycle {
                    bucket: bucket@,
                }),
                Request::SetBucketLifecycle { bucket, rules } => view
                    == (RequestView::SetBucketLifecycle {
                    bucket: bucket@,
                    rules: rules.deep_view(),
                }),
                Request::DeleteBucketLifecycle { bucket } => view
                    == (RequestView::DeleteBucketLifecycle {
                    bucket: bucket@,
                }),
                Request::GetUser { username } => view == (RequestView::GetUser {
                    username: username@,
                }),
                Request::CreateUser { username, password } => view == (RequestView::CreateUser {
                    username: username@,
                    password: password@,
                }),
                Request::DeleteUser { username } => view == (RequestView::DeleteUser {
                    username: username@,
                }),
                Request::SetUserStatus { username, enabled } => view
                    == (RequestView::SetUserStatus {
                    username: username@,
                    enabled,
                }),
                Request::SetUserPolicies { username, policies } => view
                    == (RequestView::SetUserPolicies {
                    username: username@,
                    policies: policies.deep_view(),
                }),
                Request::GetAccessKey { username, password, access_key } => view
                    == (RequestView::GetAccessKey {
                    username: username@,
                    password: password@,
                    access_key: access_key@,
                }),
                Request::CreateAccessKey {
                    username,
                    password,
                    access_key,
                    secret_key,
                    description,
                    policy,
                } => view == (RequestView::CreateAccessKey {
                    username: username@,
                    password: password@,
                    access_key: access_key@,
                    secret_key: secret_key@,
                    description: text_of(description),
                    policy: text_of(policy),
                }),
                Request::DeleteAccessKey { username, password, access_key } => view
                    == (RequestView::DeleteAccessKey {
                    username: username@,
                    password: password@,
                    access_key: access_key@,
                }),
            }
        }),
{
}

/// The lists in a request show their items in order.
pub proof fn a_list_shows_its_items(
    policies: Vec<String>,
    rules: Vec<LifecycleRule>,
    owners: Vec<OwnerReference>,
    text: Vec<(String, String)>,
)
    ensures
        policies.deep_view().len() == policies@.len(),
        forall|i: int|
            0 <= i < policies@.len() ==> #[trigger] policies.deep_view()[i] == policies@[i]@,
        rules.deep_view().len() == rules@.len(),
        forall|i: int|
            0 <= i < rules@.len() ==> #[trigger] rules.deep_view()[i] == rules@[i].deep_view(),
        owners.deep_view().len() == owners@.len(),
        forall|i: int|
            0 <= i < owners@.len() ==> #[trigger] owners.deep_view()[i] == owners@[i].deep_view(),
        text.deep_view().len() == text@.len(),
        forall|i: int|
            0 <= i < text@.len() ==> #[trigger] text.deep_view()[i] == (text@[i].0@, text@[i].1@),
{
}

/// A reply shows what it tells.
pub proof fn a_reply_shows_its_fields(reply: Reply)
    ensures
        ({
            let view = reply.deep_view();
            match reply {
                Reply::Done => view == ReplyView::Done,
                Reply::Secret(secret) => view == ReplyView::Secret(secret.deep_view()),
                Reply::ClusterConnection(spec) => view == ReplyView::ClusterConnection(
                    spec.deep_view(),
                ),
                Reply::Connected { endpoint } => view == (ReplyView::Connected {
                    endpoint: endpoint@,
                }),
                Reply::Exists(exists) => view == ReplyView::Exists(exists),
                Reply::Versioning(state) => view == ReplyView::Versioning(state),
                Reply::Quota(bytes) => view == ReplyView::Quota(bytes),
                Reply::Lifecycle(rules) => view == ReplyView::Lifecycle(rules.deep_view()),
                Reply::User(Some(user)) => view == ReplyView::User(Some(user.deep_view())),
                Reply::User(None) => view == ReplyView::User(None),
            }
        }),
{
}

/// The parts of requests and replies show their fields.
pub proof fn parts_show_their_fields(
    info: ConnectionInfo,
    owner: OwnerReference,
    manifest: SecretManifest,
    user: RemoteUser,
    secret: Secret,
)
    ensures
        info.deep_view().endpoint == info.endpoint@,
        info.deep_view().access_key == info.access_key@,
        info.deep_view().secret_key == info.secret_key@,
        info.deep_view().region == info.region@,
        info.deep_view().insecure == info.insecure,
        owner.deep_view().api_version == owner.api_version@,
        owner.deep_view().kind == owner.kind@,
        owner.deep_view().name == owner.name@,
        owner.deep_view().uid == owner.uid@,
        owner.deep_view().controller == owner.controller,
        owner.deep_view().block_owner_deletion == owner.block_owner_deletion,
        manifest.deep_view().api_version == manifest.api_version@,
        manifest.deep_view().kind == manifest.kind@,
        manifest.deep_view().name == manifest.name@,
        manifest.deep_view().owner_references == manifest.owner_references.deep_view(),
        manifest.deep_view().secret_type == manifest.secret_type@,
        manifest.deep_view().string_data == manifest.string_data.deep_view(),
        user.deep_view().status == user.status,
        user.deep_view().policy_name == text_of(user.policy_name),
        secret.data is None ==> secret.deep_view() is None,
        secret.data matches Some(data) ==> secret.deep_view() == Some(data.deep_view()),
{
}

/// A ClusterConnection shows its fields.
pub proof fn a_cluster_connection_shows_its_fields(spec: ClusterConnectionSpec)
    ensures
        spec.deep_view().endpoint == spec.endpoint@,
        spec.deep_view().credentials_secret_ref == spec.credentials_secret_ref@,
        spec.deep_view().region == text_of(spec.region),
        spec.deep_view().insecure == spec.insecure,
        spec.allowed_namespaces is None ==> spec.deep_view().allowed_namespaces is None,
        spec.allowed_namespaces matches Some(list) ==> spec.deep_view().allowed_namespaces == Some(
            list.deep_view(),
        ),
{
}

/// A lifecycle rule shows its fields.
pub proof fn a_rule_shows_its_fields(rule: LifecycleRule)
    ensures
        ({
            let view = rule.deep_view();
            &&& view.id == rule.id@
            &&& view.status == rule.status
            &&& view.prefix == text_of(rule.prefix)
            &&& rule.tags is None <==> view.tags is None
            &&& rule.expiration is None ==> view.expiration is None
            &&& rule.expiration matches Some(expiration) ==> {
                &&& view.expiration matches Some(shown)
                &&& shown.days == expiration.days
                &&& shown.date == text_of(expiration.date)
            }
            &&& view.transition == rule.transition
            &&& view.noncurrent_version_expiration == rule.noncurrent_version_expiration
            &&& view.noncurrent_version_transition == rule.noncurrent_version_transition
            &&& view.expired_object_delete_marker == rule.expired_object_delete_marker
            &&& view.abort_incomplete_multipart_upload_days
                == rule.abort_incomplete_multipart_upload_days
        }),
{
}

/// Statuses, errors and outcomes show their fields.
pub proof fn results_show_their_fields(
    status: ResourceStatus,
    key: AccessKeyStatus,
    error: Error,
    outcome: KeyOutcome,
)
    ensures
        status.deep_view().ready == status.ready,
        status.deep_view().message == text_of(status.message),
        status.deep_view().observed_generation == status.observed_generation,
        key.deep_view().ready == key.ready,
        key.deep_view().message == text_of(key.message),
        key.deep_view().observed_generation == key.observed_generation,
        key.deep_view().access_key == text_of(key.access_key),
        match error {
            Error::Connection(text) => error.deep_view() == ErrorView::Connection(text@),
            Error::Spec(text) => error.deep_view() == ErrorView::Spec(text@),
            Error::Finalizer(text) => error.deep_view() == ErrorView::Finalizer(text@),
            Error::Kube(text) => error.deep_view() == ErrorView::Kube(text@),
            Error::RustFs(text) => error.deep_view() == ErrorView::RustFs(text@),
        },
        match outcome {
            KeyOutcome::Kept { access_key } => outcome.deep_view() == (KeyOutcomeView::Kept {
                access_key: access_key@,
            }),
            KeyOutcome::Issued { access_key, secret_key } => outcome.deep_view() == (
            KeyOutcomeView::Issued { access_key: access_key@, secret_key: secret_key@ }),
        },
{
}

/// Answers, turns, steps and reports show what is in them.
pub proof fn exchanges_show_what_is_in_them<S: DeepView, T: DeepView>(
    reply: Reply,
    error: Error,
    stage: S,
    request: Request,
    value: T,
    report: Report<T>,
)
    ensures
        answer_view(Ok(reply)) == (Ok::<ReplyView, ErrorView>(reply.deep_view())),
        answer_view(Err(error)) == (Err::<ReplyView, ErrorView>(error.deep_view())),
        result_view(Ok::<T, Error>(value)) == (Ok::<T::V, ErrorView>(value.deep_view())),
        result_view(Err::<T, Error>(error)) == (Err::<T::V, ErrorView>(error.deep_view())),
        Turn::<S>::Begin.deep_view() == TurnView::<S::V>::Begin,
        (Turn::Resume { stage, answer: Ok(reply) }).deep_view() == (TurnView::Resume {
            stage: stage.deep_view(),
            answer: Ok(reply.deep_view()),
        }),
        (Turn::Resume { stage, answer: Err(error) }).deep_view() == (TurnView::Resume {
            stage: stage.deep_view(),
            answer: Err(error.deep_view()),
        }),
        (Step::<S, T>::Ask { stage, request }).deep_view() == (StepView::<S::V, T::V>::Ask {
            stage: stage.deep_view(),
            request: request.deep_view(),
        }),
        Step::<S, T>::Done(value).deep_view() == StepView::<S::V, T::V>::Done(value.deep_view()),
        Step::<S, T>::Failed(error).deep_view() == StepView::<S::V, T::V>::Failed(
            error.deep_view(),
        ),
        report.deep_view().status == report.status.deep_view(),
        report.outcome matches Ok(action) ==> report.deep_view().outcome == (Ok::<
            Action,
            ErrorView,
        >(action)),
        report.outcome matches Err(failure) ==> report.deep_view().outcome == (Err::<
            Action,
            ErrorView,
        >(failure.deep_view())),
{
}

/// What came of reading a Secret: the Secret, or an error that names it.
pub proof fn a_secret_is_read_or_named(
    namespace: Seq<char>,
    name: Seq<char>,
    secret: Option<Map<Seq<char>, Seq<u8>>>,
    error: ErrorView,
)
    ensures
        secret_read(namespace, name, Ok(ReplyView::Secret(secret))) == (Ok::<
            Option<Map<Seq<char>, Seq<u8>>>,
            ErrorView,
        >(secret)),
        secret_read(namespace, name, Err(error)) == (Err::<
            Option<Map<Seq<char>, Seq<u8>>>,
            ErrorView,
        >(
            ErrorView::Connection(
                "cannot read secret '"@ + namespace + "/"@ + name + "': "@ + error.message(),
            ),
        )),
{
}

/// An answer fits a kind exactly if it is an error or a reply of that kind.
pub proof fn an_error_fits_any_kind(answer: AnswerView, kind: ReplyKind)
    ensures
        answer is Err ==> answers(answer, kind),
        answer matches Ok(ReplyView::Done) ==> (answers(answer, kind) <==> kind is Done),
        answer matches Ok(ReplyView::Secret(_)) ==> (answers(answer, kind) <==> kind is Secret),
        answer matches Ok(ReplyView::ClusterConnection(_)) ==> (answers(answer, kind)
            <==> kind is ClusterConnection),
        answer matches Ok(ReplyView::Connected { .. }) ==> (answers(answer, kind)
            <==> kind is Connected),
        answer matches Ok(ReplyView::Exists(_)) ==> (answers(answer, kind) <==> kind is Exists),
        answer matches Ok(ReplyView::Versioning(_)) ==> (answers(answer, kind)
            <==> kind is Versioning),
        answer matches Ok(ReplyView::Quota(_)) ==> (answers(answer, kind) <==> kind is Quota),
        answer matches Ok(ReplyView::Lifecycle(_)) ==> (answers(answer, kind)
            <==> kind is Lifecycle),
        answer matches Ok(ReplyView::User(_)) ==> (answers(answer, kind) <==> kind is User),
{
}

/// A request that reads calls for a reply with what is read; any other calls for
/// a reply that it is done.
pub proof fn a_request_calls_for_its_reply(request: RequestView)
    ensures
        request.reply_kind() == match request {
            RequestView::GetSecret { .. } => ReplyKind::Secret,
            RequestView::GetClusterConnection { .. } => ReplyKind::ClusterConnection,
            RequestView::Connect { .. } => ReplyKind::Connected,
            RequestView::BucketExists { .. } => ReplyKind::Exists,
            RequestView::GetVersioning { .. } => ReplyKind::Versioning,
            RequestView::GetBucketQuota { .. } => ReplyKind::Quota,
            RequestView::GetBucketLifecycle { .. } => ReplyKind::Lifecycle,
            RequestView::GetUser { .. } => ReplyKind::User,
            RequestView::GetAccessKey { .. } => ReplyKind::Exists,
            RequestView::ApplySecret { .. } => ReplyKind::Done,
            RequestView::CreateBucket { .. } => ReplyKind::Done,
            RequestView::DeleteBucket { .. } => ReplyKind::Done,
            RequestView::SetVersioning { .. } => ReplyKind::Done,
            RequestView::SetBucketQuota { .. } => ReplyKind::Done,
            RequestView::SetBucketLifecycle { .. } => ReplyKind::Done,
            RequestView::DeleteBucketLifecycle { .. } => ReplyKind::Done,
            RequestView::CreateUser { .. } => ReplyKind::Done,
            RequestView::DeleteUser { .. } => ReplyKind::Done,
            RequestView::SetUserStatus { .. } => ReplyKind::Done,
            RequestView::SetUserPolicies { .. } => ReplyKind::Done,
            RequestView::CreateAccessKey { .. } => ReplyKind::Done,
            RequestView::DeleteAccessKey { .. } => ReplyKind::Done,
        },
{
}

} // verus!
