//! AccessKey (service account) reconciliation.
//!
//! RustFS mints service accounts for the calling identity only, so the operator
//! authenticates as the owning user (username and password from the spec) to
//! issue keys. The generated AK/SK pair is written to a Secret in the resource's
//! namespace, owner-referenced for garbage collection. Secret keys are only
//! obtainable at creation time: if the target Secret disappears, the key is
//! revoked and reissued.

use rand::Rng;
use vstd::pervasive::unreached;
use vstd::prelude::*;

use crate::connection::{
    connect_step, key_request, key_text, provider_for, secret_key_request, secret_key_value,
    ConnectStage, ConnectStageView, ConnectStepView, SecretView,
};
use crate::crd::{
    first_set, AccessKey, AccessKeySpec, AccessKeyStatus, AccessKeyStatusView, DeletionPolicy,
    ACCESS_KEY_KIND, API_VERSION,
};
use crate::error::{Error, ErrorView};
use crate::exchange::{
    answer_view, answers, Answer, AnswerView, OwnerReference, OwnerReferenceView, Reply, ReplyKind,
    Request, RequestView, SecretManifest, SecretManifestView, Step, StepView, Turn, TurnView,
};
use crate::json::{document_json, document_text};
use crate::reconcile::{Action, Report, ReportView, REQUEUE_OK};
use crate::secret::{secret_value, text_at, Secret};
use crate::text::same_text;

verus! {

/// The characters of a generated access key.
pub const ACCESS_KEY_CHARSET: &'static str = "ABCDEFGHIJKLMNOPQRSTUVWXYZ234567";

/// The characters of a generated secret key.
pub const SECRET_KEY_CHARSET: &'static str =
    "ABCDEFGHIJKLMNOPQRSTUVWXYZabcdefghijklmnopqrstuvwxyz0123456789";

/// Whether a key has the given length and only characters of the charset.
pub open spec fn drawn_from(key: Seq<char>, len: nat, charset: Seq<char>) -> bool {
    &&& key.len() == len
    &&& forall|i: int| 0 <= i < len ==> charset.contains(#[trigger] key[i])
}

/// Whether a text could have been generated as an access key.
pub open spec fn is_generated_access_key(key: Seq<char>) -> bool {
    drawn_from(key, 20, "ABCDEFGHIJKLMNOPQRSTUVWXYZ234567"@)
}

/// Whether a text could have been generated as a secret key.
pub open spec fn is_generated_secret_key(key: Seq<char>) -> bool {
    drawn_from(key, 40, "ABCDEFGHIJKLMNOPQRSTUVWXYZabcdefghijklmnopqrstuvwxyz0123456789"@)
}

/// Calls `random_range` on the generator that `rand::rng` returns, for a number
/// below `n`. Which one comes back is up to chance.
#[verifier::external_body]
fn random_below(n: usize) -> (pick: usize)
    requires
        n > 0,
    ensures
        pick < n,
{
    rand::rng().random_range(0..n)
}

/// Spells a key out of a charset: the characters at the picked positions.
pub fn spell_key(charset: &str, picks: &Vec<usize>) -> (key: String)
    requires
        forall|i: int| 0 <= i < picks.len() ==> picks[i] < charset@.len(),
    ensures
        key@ == picks@.map_values(|pick: usize| charset@[pick as int]),
{
    let size = charset.unicode_len();
    let mut key = String::new();
    for i in 0..picks.len()
        invariant
            size == charset@.len(),
            forall|i: int| 0 <= i < picks.len() ==> picks[i] < charset@.len(),
            key@ == picks@.take(i as int).map_values(|pick: usize| charset@[pick as int]),
    {
        let pick: usize = picks[i];
        let ghost before = key@;
        key.append(charset.substring_char(pick, pick + 1));
        proof {
            let spelled = |pick: usize| charset@[pick as int];
            assert(key@ =~= before.push(charset@[pick as int]));
            assert(picks@.take(i + 1) =~= picks@.take(i as int).push(pick));
            assert(picks@.take(i + 1).map_values(spelled) =~= before.push(spelled(pick)));
        }
    }
    assert(picks@.take(picks.len() as int) =~= picks@);
    key
}

/// Draws a key of `len` characters from a charset.
pub fn random_key(len: usize, charset: &str) -> (key: String)
    requires
        len > 0 ==> charset@.len() > 0,
    ensures
        drawn_from(key@, len as nat, charset@),
        key@.len() == len,
        forall|i: int| 0 <= i < len ==> charset@.contains(#[trigger] key@[i]),
{
    let size = charset.unicode_len();
    let mut picks: Vec<usize> = Vec::new();
    for i in 0..len
        invariant
            len > 0 ==> size > 0,
            picks.len() == i,
            forall|j: int| 0 <= j < picks.len() ==> picks[j] < size,
    {
        picks.push(random_below(size));
    }
    spell_key(charset, &picks)
}

/// Generates an access key.
pub fn generate_access_key() -> (key: String)
    ensures
        is_generated_access_key(key@),
{
    proof {
        reveal_strlit("ABCDEFGHIJKLMNOPQRSTUVWXYZ234567");
    }
    random_key(20, ACCESS_KEY_CHARSET)
}

/// Generates a secret key.
pub fn generate_secret_key() -> (key: String)
    ensures
        is_generated_secret_key(key@),
{
    proof {
        reveal_strlit("ABCDEFGHIJKLMNOPQRSTUVWXYZabcdefghijklmnopqrstuvwxyz0123456789");
    }
    random_key(40, SECRET_KEY_CHARSET)
}

/// Outcome of [`ensure_access_key`].
#[derive(Clone, Debug, PartialEq, Eq)]
pub enum KeyOutcome {
    /// Key exists and the credentials Secret is intact.
    Kept { access_key: String },
    /// A new credential pair was issued and must be written to the Secret.
    Issued { access_key: String, secret_key: String },
}

/// A [`KeyOutcome`], seen as a mathematical value.
pub enum KeyOutcomeView {
    Kept { access_key: Seq<char> },
    Issued { access_key: Seq<char>, secret_key: Seq<char> },
}

impl DeepView for KeyOutcome {
    type V = KeyOutcomeView;

    open spec fn deep_view(&self) -> KeyOutcomeView {
        match self {
            KeyOutcome::Kept { access_key } => KeyOutcomeView::Kept { access_key: access_key@ },
            KeyOutcome::Issued { access_key, secret_key } => KeyOutcomeView::Issued {
                access_key: access_key@,
                secret_key: secret_key@,
            },
        }
    }
}

/// How far an access key has been brought in line.
#[derive(Clone, Debug, PartialEq, Eq)]
pub enum KeyStage {
    /// The known key is being looked up.
    Probing { access_key: String, policy: Option<String> },
    /// The known key is being revoked.
    Revoking { access_key: String, policy: Option<String> },
    /// The key is being created.
    Creating { access_key: String, secret_key: String },
}

/// A [`KeyStage`], seen as a mathematical value.
pub enum KeyStageView {
    Probing { access_key: Seq<char>, policy: Option<Seq<char>> },
    Revoking { access_key: Seq<char>, policy: Option<Seq<char>> },
    Creating { access_key: Seq<char>, secret_key: Seq<char> },
}

impl DeepView for KeyStage {
    type V = KeyStageView;

    open spec fn deep_view(&self) -> KeyStageView {
        match self {
            KeyStage::Probing { access_key, policy } => KeyStageView::Probing {
                access_key: access_key@,
                policy: policy.deep_view(),
            },
            KeyStage::Revoking { access_key, policy } => KeyStageView::Revoking {
                access_key: access_key@,
                policy: policy.deep_view(),
            },
            KeyStage::Creating { access_key, secret_key } => KeyStageView::Creating {
                access_key: access_key@,
                secret_key: secret_key@,
            },
        }
    }
}

impl KeyStageView {
    /// The kind of reply that the stage waits for.
    pub open spec fn awaits(self) -> ReplyKind {
        match self {
            KeyStageView::Probing { .. } => ReplyKind::Exists,
            _ => ReplyKind::Done,
        }
    }
}

/// A step on the way to an access key that is in line, seen as a mathematical
/// value.
pub type KeyStepView = StepView<KeyStageView, KeyOutcomeView>;

/// The user as whom a key is managed.
pub struct Identity {
    pub username: Seq<char>,
    pub password: Seq<char>,
}

/// A credential pair that has been generated.
pub struct Fresh {
    pub access_key: Seq<char>,
    pub secret_key: Seq<char>,
}

/// The inline policy of the spec as JSON text.
pub open spec fn inline_policy(spec: AccessKeySpec) -> Option<Seq<char>> {
    match spec.policy {
        Some(document) => Some(document_text(document)),
        None => None,
    }
}

/// Creating a key.
pub open spec fn issue(
    user: Identity,
    spec: AccessKeySpec,
    policy: Option<Seq<char>>,
    access_key: Seq<char>,
    secret_key: Seq<char>,
) -> KeyStepView {
    StepView::Ask {
        stage: KeyStageView::Creating { access_key, secret_key },
        request: RequestView::CreateAccessKey {
            username: user.username,
            password: user.password,
            access_key,
            secret_key,
            description: spec.description.deep_view(),
            policy,
        },
    }
}

/// How bringing an access key in line begins: a known key is looked up; where
/// none is known, one is created under a generated id.
pub open spec fn ensure_first(
    user: Identity,
    known: Option<Seq<char>>,
    spec: AccessKeySpec,
    fresh: Fresh,
) -> KeyStepView {
    let policy = inline_policy(spec);
    match known {
        Some(access_key) => StepView::Ask {
            stage: KeyStageView::Probing { access_key, policy },
            request: RequestView::GetAccessKey {
                username: user.username,
                password: user.password,
                access_key,
            },
        },
        None => issue(user, spec, policy, fresh.access_key, fresh.secret_key),
    }
}

/// How bringing an access key in line goes on from an answer: an error ends it.
/// A known key is kept if it exists and its Secret is intact. If it exists and
/// the Secret is lost, the key is revoked first. Else it is created anew, under
/// its id and with a generated secret.
pub open spec fn ensure_after(
    user: Identity,
    intact: bool,
    spec: AccessKeySpec,
    fresh: Fresh,
    stage: KeyStageView,
    answer: AnswerView,
) -> KeyStepView {
    match answer {
        Err(error) => StepView::Failed(error),
        Ok(reply) => match stage {
            KeyStageView::Probing { access_key, policy } => if !reply->Exists_0 {
                issue(user, spec, policy, access_key, fresh.secret_key)
            } else if intact {
                StepView::Done(KeyOutcomeView::Kept { access_key })
            } else {
                StepView::Ask {
                    stage: KeyStageView::Revoking { access_key, policy },
                    request: RequestView::DeleteAccessKey {
                        username: user.username,
                        password: user.password,
                        access_key,
                    },
                }
            },
            KeyStageView::Revoking { access_key, policy } => issue(
                user,
                spec,
                policy,
                access_key,
                fresh.secret_key,
            ),
            KeyStageView::Creating { access_key, secret_key } => StepView::Done(
                KeyOutcomeView::Issued { access_key, secret_key },
            ),
        },
    }
}

/// How bringing an access key in line takes a turn, where `fresh` are the
/// credentials generated for it.
pub open spec fn ensure_step(
    user: Identity,
    known: Option<Seq<char>>,
    intact: bool,
    spec: AccessKeySpec,
    fresh: Fresh,
    turn: TurnView<KeyStageView>,
) -> KeyStepView {
    match turn {
        TurnView::Begin => ensure_first(user, known, spec, fresh),
        TurnView::Resume { stage, answer } => ensure_after(
            user,
            intact,
            spec,
            fresh,
            stage,
            answer,
        ),
    }
}

/// Whether a turn can be taken: an answer is of the kind that its stage awaits.
pub open spec fn ensure_fits(turn: TurnView<KeyStageView>) -> bool {
    turn matches TurnView::Resume { stage, answer } ==> answers(answer, stage.awaits())
}

/// Writes the inline policy of the spec as JSON text.
fn policy_json(spec: &AccessKeySpec) -> (policy: Option<String>)
    ensures
        policy.deep_view() == inline_policy(*spec),
{
    match &spec.policy {
        Some(document) => match document_json(document) {
            Ok(text) => Some(text),
            Err(_) => unreached(),
        },
        None => None,
    }
}

/// Creates a key.
fn create(
    username: &str,
    password: &str,
    spec: &AccessKeySpec,
    policy: Option<String>,
    access_key: String,
    secret_key: &str,
) -> (step: Step<KeyStage, KeyOutcome>)
    ensures
        step.deep_view() == issue(
            Identity { username: username@, password: password@ },
            *spec,
            policy.deep_view(),
            access_key@,
            secret_key@,
        ),
{
    Step::Ask {
        request: Request::CreateAccessKey {
            username: username.to_owned(),
            password: password.to_owned(),
            access_key: access_key.clone(),
            secret_key: secret_key.to_owned(),
            description: spec.description.clone(),
            policy,
        },
        stage: KeyStage::Creating { access_key, secret_key: secret_key.to_owned() },
    }
}

/// Converges the service account in RustFS, with `fresh_access_key` and
/// `fresh_secret_key` for the credentials that have to be made up.
///
/// `known_ak` is the key recorded in status (or pinned in the spec);
/// `secret_intact` says whether the target Secret still holds credentials for
/// it.
pub fn ensure_access_key_using(
    username: &str,
    password: &str,
    known_ak: Option<&str>,
    secret_intact: bool,
    spec: &AccessKeySpec,
    turn: Turn<KeyStage>,
    fresh_access_key: &str,
    fresh_secret_key: &str,
) -> (step: Step<KeyStage, KeyOutcome>)
    requires
        ensure_fits(turn.deep_view()),
    ensures
        step.deep_view() == ensure_step(
            Identity { username: username@, password: password@ },
            known_ak.deep_view(),
            secret_intact,
            *spec,
            Fresh { access_key: fresh_access_key@, secret_key: fresh_secret_key@ },
            turn.deep_view(),
        ),
        step.deep_view() matches StepView::Ask { stage, request } ==> request.reply_kind()
            == stage.awaits(),
{
    let (stage, answer) = match turn {
        Turn::Begin => {
            let policy = policy_json(spec);
            return match known_ak {
                Some(access_key) => Step::Ask {
                    stage: KeyStage::Probing { access_key: access_key.to_owned(), policy },
                    request: Request::GetAccessKey {
                        username: username.to_owned(),
                        password: password.to_owned(),
                        access_key: access_key.to_owned(),
                    },
                },
                None => create(
                    username,
                    password,
                    spec,
                    policy,
                    fresh_access_key.to_owned(),
                    fresh_secret_key,
                ),
            };
        },
        Turn::Resume { stage, answer } => (stage, answer),
    };
    let reply = match answer {
        Ok(reply) => reply,
        Err(error) => return Step::Failed(error),
    };
    match stage {
        KeyStage::Probing { access_key, policy } => {
            let exists = match reply {
                Reply::Exists(exists) => exists,
                _ => unreached(),
            };
            if !exists {
                create(username, password, spec, policy, access_key, fresh_secret_key)
            } else if secret_intact {
                Step::Done(KeyOutcome::Kept { access_key })
            } else {
                // Secret lost; the secret key is unrecoverable: revoke and
                // reissue.
                let request = Request::DeleteAccessKey {
                    username: username.to_owned(),
                    password: password.to_owned(),
                    access_key: access_key.clone(),
                };
                Step::Ask { stage: KeyStage::Revoking { access_key, policy }, request }
            }
        },
        KeyStage::Revoking { access_key, policy } => create(
            username,
            password,
            spec,
            policy,
            access_key,
            fresh_secret_key,
        ),
        KeyStage::Creating { access_key, secret_key } => Step::Done(
            KeyOutcome::Issued { access_key, secret_key },
        ),
    }
}

/// Whether credentials could have been generated.
pub open spec fn is_generated(fresh: Fresh) -> bool {
    is_generated_access_key(fresh.access_key) && is_generated_secret_key(fresh.secret_key)
}

/// Converges the service account in RustFS, with generated credentials where
/// some have to be made up. See [`ensure_access_key_using`].
pub fn ensure_access_key(
    username: &str,
    password: &str,
    known_ak: Option<&str>,
    secret_intact: bool,
    spec: &AccessKeySpec,
    turn: Turn<KeyStage>,
) -> (step: Step<KeyStage, KeyOutcome>)
    requires
        ensure_fits(turn.deep_view()),
    ensures
        exists|fresh: Fresh| #[trigger]
            is_generated(fresh) && step.deep_view() == ensure_step(
                Identity { username: username@, password: password@ },
                known_ak.deep_view(),
                secret_intact,
                *spec,
                fresh,
                turn.deep_view(),
            ),
        step.deep_view() matches StepView::Ask { stage, request } ==> request.reply_kind()
            == stage.awaits(),
{
    let access_key = generate_access_key();
    let secret_key = generate_secret_key();
    assert(is_generated(Fresh { access_key: access_key@, secret_key: secret_key@ }));
    ensure_access_key_using(
        username,
        password,
        known_ak,
        secret_intact,
        spec,
        turn,
        access_key.as_str(),
        secret_key.as_str(),
    )
}

/// The request that revokes a key, where there is one and the deletion policy
/// asks for it.
pub open spec fn removal(
    user: Identity,
    access_key: Option<Seq<char>>,
    spec: AccessKeySpec,
) -> Option<RequestView> {
    match (spec.deletion_policy, access_key) {
        (DeletionPolicy::Delete, Some(access_key)) => Some(
            RequestView::DeleteAccessKey {
                username: user.username,
                password: user.password,
                access_key,
            },
        ),
        _ => None,
    }
}

/// Asks for a key to be revoked, if there is one and the deletion policy asks
/// for it.
pub fn cleanup_access_key(
    username: &str,
    password: &str,
    access_key: Option<&str>,
    spec: &AccessKeySpec,
) -> (request: Option<Request>)
    ensures
        request.deep_view() == removal(
            Identity { username: username@, password: password@ },
            access_key.deep_view(),
            *spec,
        ),
        request is Some <==> access_key is Some && spec.deletion_policy is Delete,
        request matches Some(made) ==> (made matches Request::DeleteAccessKey {
            username: owner,
            password: secret,
            access_key: revoked,
        } && owner@ == username@ && secret@ == password@ && revoked@ == access_key->0@),
{
    match (spec.deletion_policy, access_key) {
        (DeletionPolicy::Delete, Some(access_key)) => Some(
            Request::DeleteAccessKey {
                username: username.to_owned(),
                password: password.to_owned(),
                access_key: access_key.to_owned(),
            },
        ),
        _ => None,
    }
}

/// Whether a Secret holds credentials for an access key: its id, and some secret
/// key.
pub open spec fn holds_credentials(secret: SecretView, access_key: Seq<char>) -> bool {
    &&& text_at(secret, "accessKey"@) == Some(access_key)
    &&& secret matches Some(data) && data.contains_key("secretKey"@)
}

/// Whether the answer to reading the target Secret shows credentials for an
/// access key. A Secret that cannot be read counts as lost.
pub open spec fn shows_credentials(answer: AnswerView, access_key: Seq<char>) -> bool {
    answer matches Ok(reply) && holds_credentials(reply->Secret_0, access_key)
}

/// Whether the target Secret currently holds credentials for `ak`, by the answer
/// to reading it.
pub fn secret_intact(answer: Answer, ak: &str) -> (intact: bool)
    requires
        answers(answer_view(answer), ReplyKind::Secret),
    ensures
        intact == shows_credentials(answer_view(answer), ak@),
{
    let secret = match answer {
        Ok(Reply::Secret(secret)) => secret,
        Ok(_) => unreached(),
        Err(_) => return false,
    };
    let stored = match secret_value(&secret, "accessKey") {
        Some(stored) => same_text(stored.as_str(), ak),
        None => false,
    };
    let has_secret_key = match &secret.data {
        Some(data) => data.get("secretKey").is_some(),
        None => false,
    };
    stored && has_secret_key
}

/// The Secret that hands credentials out: owned by the resource, so that it goes
/// when the resource goes.
pub open spec fn credentials_secret(
    obj: AccessKey,
    name: Seq<char>,
    access_key: Seq<char>,
    secret_key: Seq<char>,
    endpoint: Seq<char>,
) -> SecretManifestView {
    SecretManifestView {
        api_version: "v1"@,
        kind: "Secret"@,
        name,
        owner_references: seq![
            OwnerReferenceView {
                api_version: "rustfs.com/v1alpha1"@,
                kind: "AccessKey"@,
                name: first_set(obj.metadata.name, obj.metadata.generate_name),
                uid: first_set(obj.metadata.uid, None),
                controller: Some(true),
                block_owner_deletion: None,
            },
        ],
        secret_type: "Opaque"@,
        string_data: seq![
            ("accessKey"@, access_key),
            ("secretKey"@, secret_key),
            ("endpoint"@, endpoint),
        ],
    }
}

/// Makes up the Secret that hands credentials out.
pub fn write_credentials_secret(
    obj: &AccessKey,
    name: &str,
    access_key: &str,
    secret_key: &str,
    endpoint: &str,
) -> (manifest: SecretManifest)
    ensures
        manifest.deep_view() == credentials_secret(
            *obj,
            name@,
            access_key@,
            secret_key@,
            endpoint@,
        ),
{
    let uid = match &obj.metadata.uid {
        Some(uid) => uid.clone(),
        None => String::new(),
    };
    let mut owner_references: Vec<OwnerReference> = Vec::new();
    owner_references.push(
        OwnerReference {
            api_version: API_VERSION.to_owned(),
            kind: ACCESS_KEY_KIND.to_owned(),
            name: obj.metadata.name_any().to_owned(),
            uid,
            controller: Some(true),
            block_owner_deletion: None,
        },
    );
    let mut string_data: Vec<(String, String)> = Vec::new();
    string_data.push(("accessKey".to_owned(), access_key.to_owned()));
    string_data.push(("secretKey".to_owned(), secret_key.to_owned()));
    string_data.push(("endpoint".to_owned(), endpoint.to_owned()));
    let manifest = SecretManifest {
        api_version: "v1".to_owned(),
        kind: "Secret".to_owned(),
        name: name.to_owned(),
        owner_references,
        secret_type: "Opaque".to_owned(),
        string_data,
    };
    proof {
        let wanted = credentials_secret(*obj, name@, access_key@, secret_key@, endpoint@);
        assert(manifest.deep_view().owner_references =~= wanted.owner_references);
        assert(manifest.deep_view().string_data =~= wanted.string_data);
    }
    manifest
}

/// The access key of a resource: the one pinned in its spec, else the one
/// recorded in its status.
pub open spec fn known_key(obj: AccessKey) -> Option<Seq<char>> {
    match obj.spec.access_key {
        Some(access_key) => Some(access_key@),
        None => recorded_key(obj),
    }
}

/// The access key recorded in the status of a resource.
pub open spec fn recorded_key(obj: AccessKey) -> Option<Seq<char>> {
    match obj.status {
        Some(status) => status.access_key.deep_view(),
        None => None,
    }
}

/// The access key recorded in the status of a resource.
fn recorded_access_key(obj: &AccessKey) -> (access_key: Option<String>)
    ensures
        access_key.deep_view() == recorded_key(*obj),
{
    match &obj.status {
        Some(status) => status.access_key.clone(),
        None => None,
    }
}

/// The access key of a resource: the one pinned in its spec, else the one
/// recorded in its status.
pub fn known_access_key(obj: &AccessKey) -> (access_key: Option<String>)
    ensures
        access_key.deep_view() == known_key(*obj),
{
    match &obj.spec.access_key {
        Some(access_key) => Some(access_key.clone()),
        None => recorded_access_key(obj),
    }
}

/// How applying an AccessKey ends: a success is reported as ready with the id of
/// the key; an error is reported with its message, next to the id that was
/// recorded before.
pub open spec fn concluded(obj: AccessKey, result: Result<Seq<char>, ErrorView>) -> ReportView<
    AccessKeyStatusView,
> {
    match result {
        Ok(access_key) => ReportView {
            status: AccessKeyStatusView {
                ready: true,
                message: Some("reconciled"@),
                observed_generation: obj.metadata.generation,
                access_key: Some(access_key),
            },
            outcome: Ok(Action::Requeue { seconds: REQUEUE_OK }),
        },
        Err(error) => ReportView {
            status: AccessKeyStatusView {
                ready: false,
                message: Some(error.message()),
                observed_generation: obj.metadata.generation,
                access_key: recorded_key(obj),
            },
            outcome: Err(error),
        },
    }
}

/// Reports a success.
fn report_ready(obj: &AccessKey, access_key: String) -> (report: Report<AccessKeyStatus>)
    ensures
        report.deep_view() == concluded(*obj, Ok(access_key@)),
{
    Report {
        status: AccessKeyStatus {
            ready: true,
            message: Some("reconciled".to_owned()),
            observed_generation: obj.metadata.generation,
            access_key: Some(access_key),
        },
        outcome: Ok(Action::Requeue { seconds: REQUEUE_OK }),
    }
}

/// Reports an error.
fn report_error(obj: &AccessKey, error: Error) -> (report: Report<AccessKeyStatus>)
    ensures
        report.deep_view() == concluded(*obj, Err(error.deep_view())),
{
    Report {
        status: AccessKeyStatus {
            ready: false,
            message: Some(error.message().to_owned()),
            observed_generation: obj.metadata.generation,
            access_key: recorded_access_key(obj),
        },
        outcome: Err(error),
    }
}

/// How far applying an AccessKey has come.
#[derive(Clone, Debug, PartialEq, Eq)]
pub enum ApplyStage {
    /// The Secret with the password is being read.
    ReadingPassword,
    /// The server is being connected to.
    Connecting { password: String, stage: ConnectStage },
    /// The target Secret is being looked at.
    CheckingSecret { password: String, endpoint: String, access_key: String },
    /// The key is being brought in line.
    Ensuring { password: String, endpoint: String, intact: bool, stage: KeyStage },
    /// The target Secret is being written.
    WritingSecret { access_key: String },
}

/// An [`ApplyStage`], seen as a mathematical value.
pub enum ApplyStageView {
    ReadingPassword,
    Connecting { password: Seq<char>, stage: ConnectStageView },
    CheckingSecret { password: Seq<char>, endpoint: Seq<char>, access_key: Seq<char> },
    Ensuring { password: Seq<char>, endpoint: Seq<char>, intact: bool, stage: KeyStageView },
    WritingSecret { access_key: Seq<char> },
}

impl DeepView for ApplyStage {
    type V = ApplyStageView;

    open spec fn deep_view(&self) -> ApplyStageView {
        match self {
            ApplyStage::ReadingPassword => ApplyStageView::ReadingPassword,
            ApplyStage::Connecting { password, stage } => ApplyStageView::Connecting {
                password: password@,
                stage: stage.deep_view(),
            },
            ApplyStage::CheckingSecret {
                password,
                endpoint,
                access_key,
            } => ApplyStageView::CheckingSecret {
                password: password@,
                endpoint: endpoint@,
                access_key: access_key@,
            },
            ApplyStage::Ensuring { password, endpoint, intact, stage } => ApplyStageView::Ensuring {
                password: password@,
                endpoint: endpoint@,
                intact: *intact,
                stage: stage.deep_view(),
            },
            ApplyStage::WritingSecret { access_key } => ApplyStageView::WritingSecret {
                access_key: access_key@,
            },
        }
    }
}

impl ApplyStageView {
    /// The kind of reply that the stage waits for.
    pub open spec fn awaits(self) -> ReplyKind {
        match self {
            ApplyStageView::ReadingPassword => ReplyKind::Secret,
            ApplyStageView::Connecting { stage, .. } => stage.awaits(),
            ApplyStageView::CheckingSecret { .. } => ReplyKind::Secret,
            ApplyStageView::Ensuring { stage, .. } => stage.awaits(),
            ApplyStageView::WritingSecret { .. } => ReplyKind::Done,
        }
    }
}

/// A step of applying an AccessKey, seen as a mathematical value.
pub type ApplyStepView = StepView<ApplyStageView, ReportView<AccessKeyStatusView>>;

/// The user as whom the key of a resource is managed.
pub open spec fn owner(obj: AccessKey, password: Seq<char>) -> Identity {
    Identity { username: obj.spec.user@, password }
}

/// Applying while the key is brought in line: a key that was kept is reported;
/// credentials that were issued are written to the target Secret first; a
/// failure is reported.
pub open spec fn apply_ensuring(
    obj: AccessKey,
    namespace: Seq<char>,
    password: Seq<char>,
    endpoint: Seq<char>,
    intact: bool,
    step: KeyStepView,
) -> ApplyStepView {
    match step {
        StepView::Ask { stage, request } => StepView::Ask {
            stage: ApplyStageView::Ensuring { password, endpoint, intact, stage },
            request,
        },
        StepView::Done(KeyOutcomeView::Kept { access_key }) => StepView::Done(
            concluded(obj, Ok(access_key)),
        ),
        StepView::Done(KeyOutcomeView::Issued { access_key, secret_key }) => StepView::Ask {
            stage: ApplyStageView::WritingSecret { access_key },
            request: RequestView::ApplySecret {
                namespace,
                manifest: credentials_secret(
                    obj,
                    obj.secret_name(),
                    access_key,
                    secret_key,
                    endpoint,
                ),
            },
        },
        StepView::Failed(error) => StepView::Done(concluded(obj, Err(error))),
    }
}

/// Applying while connecting: once there is a connection, the target Secret is
/// looked at where a key is known, else the key is issued; a failure is
/// reported.
pub open spec fn apply_connecting(
    obj: AccessKey,
    namespace: Seq<char>,
    password: Seq<char>,
    fresh: Fresh,
    step: ConnectStepView,
) -> ApplyStepView {
    match step {
        StepView::Ask { stage, request } => StepView::Ask {
            stage: ApplyStageView::Connecting { password, stage },
            request,
        },
        StepView::Done(endpoint) => match known_key(obj) {
            Some(access_key) => StepView::Ask {
                stage: ApplyStageView::CheckingSecret { password, endpoint, access_key },
                request: RequestView::GetSecret { namespace, name: obj.secret_name() },
            },
            None => apply_ensuring(
                obj,
                namespace,
                password,
                endpoint,
                false,
                ensure_step(owner(obj, password), None, false, obj.spec, fresh, TurnView::Begin),
            ),
        },
        StepView::Failed(error) => StepView::Done(concluded(obj, Err(error))),
    }
}

/// How applying an AccessKey takes a turn, where `fresh` are the credentials
/// generated for it.
pub open spec fn apply_step(
    obj: AccessKey,
    namespace: Seq<char>,
    operator_namespace: Seq<char>,
    fresh: Fresh,
    turn: TurnView<ApplyStageView>,
) -> ApplyStepView {
    let conn = obj.spec.connection;
    match turn {
        TurnView::Begin => StepView::Ask {
            stage: ApplyStageView::ReadingPassword,
            request: key_request(namespace, obj.spec.password_ref),
        },
        TurnView::Resume { stage, answer } => match stage {
            ApplyStageView::ReadingPassword => match key_text(
                namespace,
                obj.spec.password_ref,
                "password"@,
                answer,
            ) {
                Ok(password) => apply_connecting(
                    obj,
                    namespace,
                    password,
                    fresh,
                    connect_step(namespace, operator_namespace, conn, TurnView::Begin),
                ),
                Err(error) => StepView::Done(concluded(obj, Err(error))),
            },
            ApplyStageView::Connecting { password, stage } => apply_connecting(
                obj,
                namespace,
                password,
                fresh,
                connect_step(
                    namespace,
                    operator_namespace,
                    conn,
                    TurnView::Resume { stage, answer },
                ),
            ),
            ApplyStageView::CheckingSecret { password, endpoint, access_key } => {
                let intact = shows_credentials(answer, access_key);
                apply_ensuring(
                    obj,
                    namespace,
                    password,
                    endpoint,
                    intact,
                    ensure_step(
                        owner(obj, password),
                        Some(access_key),
                        intact,
                        obj.spec,
                        fresh,
                        TurnView::Begin,
                    ),
                )
            },
            ApplyStageView::Ensuring { password, endpoint, intact, stage } => apply_ensuring(
                obj,
                namespace,
                password,
                endpoint,
                intact,
                ensure_step(
                    owner(obj, password),
                    known_key(obj),
                    intact,
                    obj.spec,
                    fresh,
                    TurnView::Resume { stage, answer },
                ),
            ),
            ApplyStageView::WritingSecret { access_key } => match answer {
                Ok(_) => StepView::Done(concluded(obj, Ok(access_key))),
                Err(error) => StepView::Done(concluded(obj, Err(error))),
            },
        },
    }
}

/// Whether a turn can be taken: an answer is of the kind that its stage awaits.
pub open spec fn apply_fits(turn: TurnView<ApplyStageView>) -> bool {
    turn matches TurnView::Resume { stage, answer } ==> answers(answer, stage.awaits())
}

/// Goes on from bringing the key in line.
fn follow_ensuring(
    obj: &AccessKey,
    namespace: &str,
    password: String,
    endpoint: String,
    intact: bool,
    step: Step<KeyStage, KeyOutcome>,
) -> (lifted: Step<ApplyStage, Report<AccessKeyStatus>>)
    ensures
        lifted.deep_view() == apply_ensuring(
            *obj,
            namespace@,
            password@,
            endpoint@,
            intact,
            step.deep_view(),
        ),
{
    match step {
        Step::Ask { stage, request } => Step::Ask {
            stage: ApplyStage::Ensuring { password, endpoint, intact, stage },
            request,
        },
        Step::Done(KeyOutcome::Kept { access_key }) => Step::Done(report_ready(obj, access_key)),
        Step::Done(KeyOutcome::Issued { access_key, secret_key }) => {
            let manifest = write_credentials_secret(
                obj,
                obj.target_secret_name().as_str(),
                access_key.as_str(),
                secret_key.as_str(),
                endpoint.as_str(),
            );
            Step::Ask {
                stage: ApplyStage::WritingSecret { access_key },
                request: Request::ApplySecret { namespace: namespace.to_owned(), manifest },
            }
        },
        Step::Failed(error) => Step::Done(report_error(obj, error)),
    }
}

/// Applies an AccessKey in `namespace`, with `fresh_access_key` and
/// `fresh_secret_key` for the credentials that have to be made up: reads the
/// owner's password, connects to the server that the resource selects, looks at
/// the target Secret, brings the key in line, writes credentials that were
/// issued, and reports how that went.
pub fn apply_using(
    obj: &AccessKey,
    namespace: &str,
    operator_namespace: &str,
    turn: Turn<ApplyStage>,
    fresh_access_key: &str,
    fresh_secret_key: &str,
) -> (step: Step<ApplyStage, Report<AccessKeyStatus>>)
    requires
        apply_fits(turn.deep_view()),
    ensures
        step.deep_view() == apply_step(
            *obj,
            namespace@,
            operator_namespace@,
            Fresh { access_key: fresh_access_key@, secret_key: fresh_secret_key@ },
            turn.deep_view(),
        ),
        step !is Failed,
        step.deep_view() matches StepView::Ask { stage, request } ==> request.reply_kind()
            == stage.awaits(),
{
    let (stage, answer) = match turn {
        Turn::Begin => return Step::Ask {
            stage: ApplyStage::ReadingPassword,
            request: secret_key_request(namespace, &obj.spec.password_ref),
        },
        Turn::Resume { stage, answer } => (stage, answer),
    };
    let (password, connecting) = match stage {
        ApplyStage::ReadingPassword => match secret_key_value(
            namespace,
            &obj.spec.password_ref,
            "password",
            answer,
        ) {
            Ok(password) => (password, Turn::Begin),
            Err(error) => return Step::Done(report_error(obj, error)),
        },
        ApplyStage::Connecting { password, stage } => (password, Turn::Resume { stage, answer }),
        ApplyStage::CheckingSecret { password, endpoint, access_key } => {
            let intact = secret_intact(answer, access_key.as_str());
            let step = ensure_access_key_using(
                obj.spec.user.as_str(),
                password.as_str(),
                Some(access_key.as_str()),
                intact,
                &obj.spec,
                Turn::Begin,
                fresh_access_key,
                fresh_secret_key,
            );
            return follow_ensuring(obj, namespace, password, endpoint, intact, step);
        },
        ApplyStage::Ensuring { password, endpoint, intact, stage } => {
            let known = known_access_key(obj);
            let known_ak = match &known {
                Some(access_key) => Some(access_key.as_str()),
                None => None,
            };
            let step = ensure_access_key_using(
                obj.spec.user.as_str(),
                password.as_str(),
                known_ak,
                intact,
                &obj.spec,
                Turn::Resume { stage, answer },
                fresh_access_key,
                fresh_secret_key,
            );
            return follow_ensuring(obj, namespace, password, endpoint, intact, step);
        },
        ApplyStage::WritingSecret { access_key } => return match answer {
            Ok(_) => Step::Done(report_ready(obj, access_key)),
            Err(error) => Step::Done(report_error(obj, error)),
        },
    };
    match provider_for(namespace, operator_namespace, &obj.spec.connection, connecting) {
        Step::Ask { stage, request } => Step::Ask {
            stage: ApplyStage::Connecting { password, stage },
            request,
        },
        Step::Done(endpoint) => match known_access_key(obj) {
            Some(access_key) => Step::Ask {
                stage: ApplyStage::CheckingSecret { password, endpoint, access_key },
                request: Request::GetSecret {
                    namespace: namespace.to_owned(),
                    name: obj.target_secret_name(),
                },
            },
            None => {
                let step = ensure_access_key_using(
                    obj.spec.user.as_str(),
                    password.as_str(),
                    None,
                    false,
                    &obj.spec,
                    Turn::Begin,
                    fresh_access_key,
                    fresh_secret_key,
                );
                follow_ensuring(obj, namespace, password, endpoint, false, step)
            },
        },
        Step::Failed(error) => Step::Done(report_error(obj, error)),
    }
}

/// Applies an AccessKey in `namespace`, with generated credentials where some
/// have to be made up. See [`apply_using`].
pub fn apply(
    obj: &AccessKey,
    namespace: &str,
    operator_namespace: &str,
    turn: Turn<ApplyStage>,
) -> (step: Step<ApplyStage, Report<AccessKeyStatus>>)
    requires
        apply_fits(turn.deep_view()),
    ensures
        exists|fresh: Fresh| #[trigger]
            is_generated(fresh) && step.deep_view() == apply_step(
                *obj,
                namespace@,
                operator_namespace@,
                fresh,
                turn.deep_view(),
            ),
        step !is Failed,
        step.deep_view() matches StepView::Ask { stage, request } ==> request.reply_kind()
            == stage.awaits(),
{
    let access_key = generate_access_key();
    let secret_key = generate_secret_key();
    assert(is_generated(Fresh { access_key: access_key@, secret_key: secret_key@ }));
    apply_using(
        obj,
        namespace,
        operator_namespace,
        turn,
        access_key.as_str(),
        secret_key.as_str(),
    )
}

/// How far cleaning up after a deleted AccessKey has come.
#[derive(Clone, Debug, PartialEq, Eq)]
pub enum KeyCleanupStage {
    /// The Secret with the password is being read.
    ReadingPassword,
    /// The server is being connected to.
    Connecting { password: String, stage: ConnectStage },
    /// The key is being revoked.
    Removing,
}

/// A [`KeyCleanupStage`], seen as a mathematical value.
pub enum KeyCleanupStageView {
    ReadingPassword,
    Connecting { password: Seq<char>, stage: ConnectStageView },
    Removing,
}

impl DeepView for KeyCleanupStage {
    type V = KeyCleanupStageView;

    open spec fn deep_view(&self) -> KeyCleanupStageView {
        match self {
            KeyCleanupStage::ReadingPassword => KeyCleanupStageView::ReadingPassword,
            KeyCleanupStage::Connecting { password, stage } => KeyCleanupStageView::Connecting {
                password: password@,
                stage: stage.deep_view(),
            },
            KeyCleanupStage::Removing => KeyCleanupStageView::Removing,
        }
    }
}

impl KeyCleanupStageView {
    /// The kind of reply that the stage waits for.
    pub open spec fn awaits(self) -> ReplyKind {
        match self {
            KeyCleanupStageView::ReadingPassword => ReplyKind::Secret,
            KeyCleanupStageView::Connecting { stage, .. } => stage.awaits(),
            KeyCleanupStageView::Removing => ReplyKind::Done,
        }
    }
}

/// A step of cleaning up, seen as a mathematical value.
pub type KeyCleanupStepView = StepView<KeyCleanupStageView, Action>;

/// Cleaning up while connecting: the removal follows the connection.
pub open spec fn cleanup_connecting(
    obj: AccessKey,
    password: Seq<char>,
    step: ConnectStepView,
) -> KeyCleanupStepView {
    match step {
        StepView::Ask { stage, request } => StepView::Ask {
            stage: KeyCleanupStageView::Connecting { password, stage },
            request,
        },
        StepView::Failed(error) => StepView::Failed(error),
        StepView::Done(_) => match removal(owner(obj, password), known_key(obj), obj.spec) {
            Some(request) => StepView::Ask { stage: KeyCleanupStageView::Removing, request },
            None => StepView::Done(Action::AwaitChange),
        },
    }
}

/// How cleaning up takes a turn. Where the key is to be retained, or there is
/// none, nothing is asked for. Else the password is read, the server is
/// connected to, and the key is revoked.
pub open spec fn cleanup_step(
    obj: AccessKey,
    namespace: Seq<char>,
    operator_namespace: Seq<char>,
    turn: TurnView<KeyCleanupStageView>,
) -> KeyCleanupStepView {
    let conn = obj.spec.connection;
    match turn {
        TurnView::Begin => if obj.spec.deletion_policy is Retain || known_key(obj) is None {
            StepView::Done(Action::AwaitChange)
        } else {
            StepView::Ask {
                stage: KeyCleanupStageView::ReadingPassword,
                request: key_request(namespace, obj.spec.password_ref),
            }
        },
        TurnView::Resume { stage, answer } => match stage {
            KeyCleanupStageView::ReadingPassword => match key_text(
                namespace,
                obj.spec.password_ref,
                "password"@,
                answer,
            ) {
                Ok(password) => cleanup_connecting(
                    obj,
                    password,
                    connect_step(namespace, operator_namespace, conn, TurnView::Begin),
                ),
                Err(error) => StepView::Failed(error),
            },
            KeyCleanupStageView::Connecting { password, stage } => cleanup_connecting(
                obj,
                password,
                connect_step(
                    namespace,
                    operator_namespace,
                    conn,
                    TurnView::Resume { stage, answer },
                ),
            ),
            KeyCleanupStageView::Removing => match answer {
                Ok(_) => StepView::Done(Action::AwaitChange),
                Err(error) => StepView::Failed(error),
            },
        },
    }
}

/// Whether a turn can be taken: an answer is of the kind that its stage awaits.
pub open spec fn cleanup_fits(turn: TurnView<KeyCleanupStageView>) -> bool {
    turn matches TurnView::Resume { stage, answer } ==> answers(answer, stage.awaits())
}

/// Cleans up after a deleted AccessKey in `namespace`.
pub fn cleanup(
    obj: &AccessKey,
    namespace: &str,
    operator_namespace: &str,
    turn: Turn<KeyCleanupStage>,
) -> (step: Step<KeyCleanupStage, Action>)
    requires
        cleanup_fits(turn.deep_view()),
    ensures
        step.deep_view() == cleanup_step(*obj, namespace@, operator_namespace@, turn.deep_view()),
        step.deep_view() matches StepView::Ask { stage, request } ==> request.reply_kind()
            == stage.awaits(),
{
    let known = known_access_key(obj);
    let (stage, answer) = match turn {
        Turn::Begin => {
            if obj.spec.deletion_policy == DeletionPolicy::Retain || known.is_none() {
                return Step::Done(Action::AwaitChange);
            }
            return Step::Ask {
                stage: KeyCleanupStage::ReadingPassword,
                request: secret_key_request(namespace, &obj.spec.password_ref),
            };
        },
        Turn::Resume { stage, answer } => (stage, answer),
    };
    let (password, connecting) = match stage {
        KeyCleanupStage::ReadingPassword => match secret_key_value(
            namespace,
            &obj.spec.password_ref,
            "password",
            answer,
        ) {
            Ok(password) => (password, Turn::Begin),
            Err(error) => return Step::Failed(error),
        },
        KeyCleanupStage::Connecting { password, stage } => (
            password,
            Turn::Resume { stage, answer },
        ),
        KeyCleanupStage::Removing => return match answer {
            Ok(_) => Step::Done(Action::AwaitChange),
            Err(error) => Step::Failed(error),
        },
    };
    match provider_for(namespace, operator_namespace, &obj.spec.connection, connecting) {
        Step::Ask { stage, request } => Step::Ask {
            stage: KeyCleanupStage::Connecting { password, stage },
            request,
        },
        Step::Failed(error) => Step::Failed(error),
        Step::Done(_) => {
            let known_ak = match &known {
                Some(access_key) => Some(access_key.as_str()),
                None => None,
            };
            match cleanup_access_key(
                obj.spec.user.as_str(),
                password.as_str(),
                known_ak,
                &obj.spec,
            ) {
                Some(request) => Step::Ask { stage: KeyCleanupStage::Removing, request },
                None => Step::Done(Action::AwaitChange),
            }
        },
    }
}

} // verus!
