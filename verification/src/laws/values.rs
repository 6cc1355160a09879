//! What the names, texts, statuses and reports that the tasks speak of are, in
//! terms of the fields of the resources and of the bytes of the Secrets.

use vstd::prelude::*;
use vstd::utf8::{
    decode_utf8, encode_utf8, encode_utf8_decode_utf8, encode_utf8_valid_utf8, valid_utf8,
};

use crate::connection::{key_request, key_text, region_or_default, required_text};
use crate::crd::{
    AccessKey, AccessKeyStatusView, Bucket, ClusterConnectionView, ResourceStatusView, SecretKeyRef,
    User,
};
use crate::error::ErrorView;
use crate::exchange::{AnswerView, ReplyView, RequestView};
use crate::reconcile::access_key::{
    credentials_secret, holds_credentials, is_generated_access_key, is_generated_secret_key,
    known_key, owner, recorded_key, shows_credentials, ACCESS_KEY_CHARSET,
    SECRET_KEY_CHARSET,
};
use crate::reconcile::{access_key, bucket, concluded, user, Action, ReportView};
use crate::secret::text_at;

verus! {

/// Whether a name is the one that a spec gives or else the one that the metadata
/// gives; where neither gives one, it is empty.
pub open spec fn is_name(name: Seq<char>, own: Option<String>, given: Option<String>) -> bool {
    &&& own matches Some(text) ==> name == text@
    &&& own is None ==> (given matches Some(text) ==> name == text@)
    &&& own is None && given is None ==> name.len() == 0
}

/// The name of a bucket is the one in the spec, else that of the resource.
pub proof fn a_bucket_is_named_by_its_spec(obj: Bucket)
    ensures
        is_name(bucket::effective_name(obj), obj.spec.bucket_name, obj.metadata.name),
{
}

/// The name of a user is the one in the spec, else that of the resource.
pub proof fn a_user_is_named_by_its_spec(obj: User)
    ensures
        is_name(user::effective_name(obj), obj.spec.username, obj.metadata.name),
{
}

/// The target Secret is the one in the spec, else it is named after the resource.
pub proof fn a_target_secret_is_named_by_its_spec(obj: AccessKey)
    ensures
        obj.spec.target_secret_name matches Some(name) ==> obj.secret_name() == name@,
        obj.spec.target_secret_name is None ==> (obj.metadata.name matches Some(name)
            ==> obj.secret_name() == name@ + "-credentials"@),
        obj.spec.target_secret_name is None && obj.metadata.name is None ==> obj.secret_name()
            == "-credentials"@,
{
    assert(Seq::<char>::empty() + "-credentials"@ =~= "-credentials"@);
}

/// The key of a resource is the one that its spec pins, else the one that its
/// status records.
pub proof fn a_pinned_key_wins(obj: AccessKey)
    ensures
        obj.spec.access_key matches Some(id) ==> known_key(obj) == Some(id@),
        obj.spec.access_key is None ==> (match obj.status {
            Some(status) => match status.access_key {
                Some(id) => known_key(obj) == Some(id@),
                None => known_key(obj) is None,
            },
            None => known_key(obj) is None,
        }),
        match obj.status {
            Some(status) => match status.access_key {
                Some(id) => recorded_key(obj) == Some(id@),
                None => recorded_key(obj) is None,
            },
            None => recorded_key(obj) is None,
        },
{
}

/// A key is managed as the user that the spec names, with the password given.
pub proof fn a_key_is_its_owners(obj: AccessKey, password: Seq<char>)
    ensures
        owner(obj, password).username == obj.spec.user@,
        owner(obj, password).password == password,
{
}

/// A namespace may use a connection exactly if there is no list, or it is on it.
pub proof fn a_list_allows_what_is_on_it(conn: ClusterConnectionView, namespace: Seq<char>)
    ensures
        conn.allowed_namespaces is None ==> conn.allows(namespace),
        conn.allowed_namespaces matches Some(list) ==> (conn.allows(namespace) <==> exists|i: int|
            0 <= i < list.len() && #[trigger] list[i] == namespace),
{
}

/// Whether a Secret has a text under a key.
pub open spec fn has_text(
    secret: Option<Map<Seq<char>, Seq<u8>>>,
    key: Seq<char>,
    text: Seq<char>,
) -> bool {
    &&& secret matches Some(data)
    &&& data.contains_key(key)
    &&& valid_utf8(data[key])
    &&& decode_utf8(data[key]) == text
}

/// The text under a key is what its bytes are in UTF-8; without such bytes there
/// is none.
pub proof fn a_text_is_what_its_bytes_encode(
    secret: Option<Map<Seq<char>, Seq<u8>>>,
    key: Seq<char>,
    text: Seq<char>,
)
    ensures
        text_at(secret, key) == Some(text) <==> has_text(secret, key, text),
{
}

/// A text that has been put under a key is read back, and no other key changes.
pub proof fn a_text_is_read_back(
    data: Map<Seq<char>, Seq<u8>>,
    key: Seq<char>,
    other: Seq<char>,
    text: Seq<char>,
)
    requires
        other != key,
    ensures
        text_at(Some(data.insert(key, encode_utf8(text))), key) == Some(text),
        text_at(Some(data.insert(key, encode_utf8(text))), other) == text_at(Some(data), other),
{
    encode_utf8_valid_utf8(text);
    encode_utf8_decode_utf8(text);
}

/// A required text is the text under its key, unless there is none or it is
/// empty; then the Secret and the key are named.
pub proof fn a_required_text_must_not_be_empty(
    secret: Option<Map<Seq<char>, Seq<u8>>>,
    key: Seq<char>,
    name: Seq<char>,
    text: Seq<char>,
)
    ensures
        required_text(secret, key, name) == (Ok::<Seq<char>, ErrorView>(text)) <==> has_text(
            secret,
            key,
            text,
        ) && text.len() > 0,
        required_text(secret, key, name) matches Err(error) ==> error == (ErrorView::Connection(
            "secret '"@ + name + "' is missing key '"@ + key + "'"@,
        )),
{
}

/// A key reference is followed to the Secret that it names, in the namespace of
/// the resource, and to the key that it names or else the default one.
pub proof fn a_key_reference_is_followed(
    namespace: Seq<char>,
    sref: SecretKeyRef,
    default_key: Seq<char>,
    secret: Option<Map<Seq<char>, Seq<u8>>>,
    text: Seq<char>,
    error: ErrorView,
)
    ensures
        key_request(namespace, sref) == (RequestView::GetSecret { namespace, name: sref.name@ }),
        ({
            let answer: AnswerView = Ok(ReplyView::Secret(secret));
            let key = match sref.key {
                Some(key) => key@,
                None => default_key,
            };
            &&& key_text(namespace, sref, default_key, answer) == (Ok::<Seq<char>, ErrorView>(
                text,
            )) <==> has_text(secret, key, text) && text.len() > 0
            &&& key_text(namespace, sref, default_key, answer) matches Err(missing) ==> missing == (
            ErrorView::Connection(
                "secret '"@ + sref.name@ + "' is missing key '"@ + key + "'"@,
            ))
        }),
        key_text(namespace, sref, default_key, Err(error)) == (Err::<Seq<char>, ErrorView>(
            ErrorView::Connection(
                "cannot read secret '"@ + namespace + "/"@ + sref.name@ + "': "@ + error.message(),
            ),
        )),
{
}

/// The region is the one given, and `us-east-1` only where none is.
pub proof fn a_region_that_is_given_is_used(region: Option<Seq<char>>)
    ensures
        region matches Some(given) ==> region_or_default(region) == given,
        region is None ==> region_or_default(region) == "us-east-1"@,
{
}

/// The message of an error is the text that it carries.
pub proof fn an_error_says_what_it_carries(text: Seq<char>)
    ensures
        ErrorView::Connection(text).message() == text,
        ErrorView::Spec(text).message() == text,
        ErrorView::Finalizer(text).message() == text,
        ErrorView::Kube(text).message() == text,
        ErrorView::RustFs(text).message() == text,
{
}

/// Whether a report tells a success: the resource is ready, and is looked at
/// again after five minutes.
pub open spec fn tells_success(
    report: ReportView<ResourceStatusView>,
    generation: Option<i64>,
) -> bool {
    &&& report.status.ready
    &&& report.status.message == Some("reconciled"@)
    &&& report.status.observed_generation == generation
    &&& report.outcome == (Ok::<Action, ErrorView>(Action::Requeue { seconds: 300 }))
}

/// Whether a report tells an error: the resource is not ready, the status has the
/// message, and the error is passed on.
pub open spec fn tells_error(
    report: ReportView<ResourceStatusView>,
    generation: Option<i64>,
    error: ErrorView,
) -> bool {
    &&& !report.status.ready
    &&& report.status.message == Some(error.message())
    &&& report.status.observed_generation == generation
    &&& report.outcome == (Err::<Action, ErrorView>(error))
}

/// A report tells how applying a Bucket or a User ended.
pub proof fn a_report_tells_the_end(generation: Option<i64>, error: ErrorView)
    ensures
        tells_success(concluded(generation, Ok(())), generation),
        tells_error(concluded(generation, Err(error)), generation, error),
{
}

/// Whether a report tells the success of an AccessKey, with the id of the key.
pub open spec fn tells_key(
    report: ReportView<AccessKeyStatusView>,
    generation: Option<i64>,
    id: Seq<char>,
) -> bool {
    &&& report.status.ready
    &&& report.status.message == Some("reconciled"@)
    &&& report.status.observed_generation == generation
    &&& report.status.access_key == Some(id)
    &&& report.outcome == (Ok::<Action, ErrorView>(Action::Requeue { seconds: 300 }))
}

/// Whether a report tells the error of an AccessKey, next to the id that was
/// recorded before.
pub open spec fn tells_key_error(
    report: ReportView<AccessKeyStatusView>,
    obj: AccessKey,
    error: ErrorView,
) -> bool {
    &&& !report.status.ready
    &&& report.status.message == Some(error.message())
    &&& report.status.observed_generation == obj.metadata.generation
    &&& match obj.status {
        Some(status) => match status.access_key {
            Some(id) => report.status.access_key == Some(id@),
            None => report.status.access_key is None,
        },
        None => report.status.access_key is None,
    }
    &&& report.outcome == (Err::<Action, ErrorView>(error))
}

/// A report tells how applying an AccessKey ended.
pub proof fn a_key_report_tells_the_end(obj: AccessKey, id: Seq<char>, error: ErrorView)
    ensures
        tells_key(access_key::concluded(obj, Ok(id)), obj.metadata.generation, id),
        tells_key_error(access_key::concluded(obj, Err(error)), obj, error),
{
}

/// The status of a resource that has been reconciled, and of one that has not.
pub proof fn a_status_tells_the_state(generation: Option<i64>, message: Seq<char>)
    ensures
        ({
            let status = ResourceStatusView::reconciled(generation);
            &&& status.ready
            &&& status.message == Some("reconciled"@)
            &&& status.observed_generation == generation
        }),
        ({
            let status = ResourceStatusView::failed(generation, message);
            &&& !status.ready
            &&& status.message == Some(message)
            &&& status.observed_generation == generation
        }),
{
}

/// A Secret holds credentials for a key exactly if it has the id as text and
/// some bytes as secret key.
pub proof fn credentials_are_the_id_and_a_secret(
    data: Map<Seq<char>, Seq<u8>>,
    id: Seq<char>,
)
    ensures
        holds_credentials(Some(data), id) <==> has_text(Some(data), "accessKey"@, id)
            && data.contains_key("secretKey"@),
        !holds_credentials(None, id),
{
}

/// The answer to reading a Secret shows credentials exactly if the Secret was read
/// and holds them.
pub proof fn a_secret_that_cannot_be_read_shows_nothing(
    secret: Option<Map<Seq<char>, Seq<u8>>>,
    error: ErrorView,
    id: Seq<char>,
)
    ensures
        shows_credentials(Ok(ReplyView::Secret(secret)), id) <==> has_text(
            secret,
            "accessKey"@,
            id,
        ) && secret->0.contains_key("secretKey"@),
        !shows_credentials(Err(error), id),
{
}

/// A credentials Secret is owned by its resource and hands out the pair and the
/// endpoint.
pub proof fn credentials_are_owned_by_the_resource(
    obj: AccessKey,
    name: Seq<char>,
    id: Seq<char>,
    secret_key: Seq<char>,
    endpoint: Seq<char>,
)
    ensures
        ({
            let manifest = credentials_secret(obj, name, id, secret_key, endpoint);
            let text = manifest.string_data;
            &&& manifest.api_version == "v1"@
            &&& manifest.kind == "Secret"@
            &&& manifest.secret_type == "Opaque"@
            &&& manifest.name == name
            &&& text.len() == 3
            &&& text.contains(("accessKey"@, id))
            &&& text.contains(("secretKey"@, secret_key))
            &&& text.contains(("endpoint"@, endpoint))
            &&& manifest.owner_references.len() == 1
            &&& ({
                let owner = manifest.owner_references[0];
                &&& owner.api_version == "rustfs.com/v1alpha1"@
                &&& owner.kind == "AccessKey"@
                &&& is_name(owner.name, obj.metadata.name, obj.metadata.generate_name)
                &&& is_name(owner.uid, obj.metadata.uid, None)
                &&& owner.controller == Some(true)
                &&& owner.block_owner_deletion is None
            })
        }),
{
    let text = credentials_secret(obj, name, id, secret_key, endpoint).string_data;
    assert(text[0] == ("accessKey"@, id));
    assert(text[1] == ("secretKey"@, secret_key));
    assert(text[2] == ("endpoint"@, endpoint));
}

/// A generated access key is one of twenty characters, each a capital letter or a
/// digit from two to seven.
pub proof fn a_generated_access_key_has_its_form(key: Seq<char>)
    ensures
        is_generated_access_key(key) <==> key.len() == 20 && forall|i: int|
            0 <= i < 20 ==> 'A' <= #[trigger] key[i] <= 'Z' || '2' <= key[i] <= '7',
        ACCESS_KEY_CHARSET@ == "ABCDEFGHIJKLMNOPQRSTUVWXYZ234567"@,
{
    reveal_strlit("ABCDEFGHIJKLMNOPQRSTUVWXYZ234567");
    let charset = "ABCDEFGHIJKLMNOPQRSTUVWXYZ234567"@;
    assert forall|c: char| #[trigger] charset.contains(c) <==> ('A' <= c <= 'Z' || '2' <= c
        <= '7') by {
        if charset.contains(c) {
            let j = choose|j: int| 0 <= j < charset.len() && charset[j] == c;
        }
        if 'A' <= c <= 'Z' {
            assert(charset[c as int - 'A' as int] == c);
        }
        if '2' <= c <= '7' {
            assert(charset[26 + c as int - '2' as int] == c);
        }
    }
}

/// A generated secret key is one of forty characters, each a letter or a digit.
pub proof fn a_generated_secret_key_has_its_form(key: Seq<char>)
    ensures
        is_generated_secret_key(key) <==> key.len() == 40 && forall|i: int|
            0 <= i < 40 ==> 'A' <= #[trigger] key[i] <= 'Z' || 'a' <= key[i] <= 'z' || '0' <= key[i]
                <= '9',
        SECRET_KEY_CHARSET@ == "ABCDEFGHIJKLMNOPQRSTUVWXYZabcdefghijklmnopqrstuvwxyz0123456789"@,
{
    reveal_strlit("ABCDEFGHIJKLMNOPQRSTUVWXYZabcdefghijklmnopqrstuvwxyz0123456789");
    let charset = "ABCDEFGHIJKLMNOPQRSTUVWXYZabcdefghijklmnopqrstuvwxyz0123456789"@;
    assert forall|c: char| #[trigger] charset.contains(c) <==> ('A' <= c <= 'Z' || 'a' <= c <= 'z'
        || '0' <= c <= '9') by {
        if charset.contains(c) {
            let j = choose|j: int| 0 <= j < charset.len() && charset[j] == c;
        }
        if 'A' <= c <= 'Z' {
            assert(charset[c as int - 'A' as int] == c);
        }
        if 'a' <= c <= 'z' {
            assert(charset[26 + c as int - 'a' as int] == c);
        }
        if '0' <= c <= '9' {
            assert(charset[52 + c as int - '0' as int] == c);
        }
    }
}

} // verus!
