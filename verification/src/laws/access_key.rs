//! What bringing an access key in line achieves: that there is one key, and that
//! its credentials are in the target Secret.

use vstd::prelude::*;
use vstd::utf8::{encode_utf8, encode_utf8_decode_utf8, encode_utf8_valid_utf8};

use crate::connection::{key_request, key_text, ConnectStageView};
use crate::crd::{AccessKey, AccessKeySpec, AccessKeyStatusView, ClusterConnectionView};
use crate::error::ErrorView;
use crate::exchange::{AnswerView, ConnectionInfoView, ReplyView, RequestView, StepView, TurnView};
use crate::json::document_text;
use crate::laws::connection::{
    a_reference_is_followed, connect_log, connecting, names_text, not_allowed, resolves_to,
};
use crate::laws::values::{a_target_secret_is_named_by_its_spec, tells_key, tells_key_error};
use crate::model::{
    a_part_gets_where_it_would_alone, a_part_stands_where_it_would_alone, advanced, begun,
    earlier_answers_stay, embedded, leads_one_further, leads_to, leads_to_is_transitive, only_reads,
    standing, with_text, Run, Task, World,
};
use crate::reconcile::access_key::{
    apply_connecting, apply_ensuring, apply_step, cleanup_connecting, cleanup_step, concluded,
    credentials_secret, ensure_step, holds_credentials, inline_policy, known_key, owner,
    recorded_key, removal, shows_credentials, ApplyStageView, Fresh, Identity, KeyCleanupStageView,
    KeyOutcomeView, KeyStageView,
};
use crate::reconcile::{Action, ReportView};
use crate::secret::text_at;

verus! {

/// The credentials that are generated in each turn.
pub type Draws = spec_fn(nat) -> Fresh;

/// The task of bringing an access key in line.
pub open spec fn ensuring(
    user: Identity,
    known: Option<Seq<char>>,
    intact: bool,
    spec: AccessKeySpec,
    draws: Draws,
) -> Task<KeyStageView, KeyOutcomeView> {
    |count: nat, turn: TurnView<KeyStageView>|
        ensure_step(user, known, intact, spec, draws(count), turn)
}

/// The request that creates a key as a spec asks.
pub open spec fn creation(
    user: Identity,
    spec: AccessKeySpec,
    access_key: Seq<char>,
    secret_key: Seq<char>,
) -> RequestView {
    RequestView::CreateAccessKey {
        username: user.username,
        password: user.password,
        access_key,
        secret_key,
        description: match spec.description {
            Some(text) => Some(text@),
            None => None,
        },
        policy: match spec.policy {
            Some(document) => Some(document_text(document)),
            None => None,
        },
    }
}

/// What holds wherever the task stands.
spec fn sound(
    user: Identity,
    known: Option<Seq<char>>,
    intact: bool,
    spec: AccessKeySpec,
    draws: Draws,
    answers: Seq<AnswerView>,
    step: StepView<KeyStageView, KeyOutcomeView>,
) -> bool {
    match step {
        StepView::Failed(error) => answers.contains(Err(error)),
        StepView::Done(KeyOutcomeView::Kept { access_key }) => {
            &&& known == Some(access_key)
            &&& intact
            &&& answers.len() > 0
            &&& answers[0] matches Ok(reply) && reply->Exists_0
        },
        StepView::Done(KeyOutcomeView::Issued { access_key, .. }) => match known {
            Some(id) => access_key == id,
            None => access_key == draws(0).access_key,
        },
        StepView::Ask { stage, request } => match stage {
            KeyStageView::Probing { access_key, policy } => {
                &&& answers.len() == 0
                &&& known == Some(access_key)
                &&& policy == inline_policy(spec)
                &&& request == (RequestView::GetAccessKey {
                    username: user.username,
                    password: user.password,
                    access_key,
                })
            },
            KeyStageView::Revoking { access_key, policy } => {
                &&& answers.len() == 1
                &&& known == Some(access_key)
                &&& !intact
                &&& answers[0] matches Ok(reply) && reply->Exists_0
                &&& policy == inline_policy(spec)
                &&& request == (RequestView::DeleteAccessKey {
                    username: user.username,
                    password: user.password,
                    access_key,
                })
            },
            KeyStageView::Creating { access_key, secret_key } => {
                &&& answers.len() <= 2
                &&& known is None ==> answers.len() == 0
                &&& access_key == match known {
                    Some(id) => id,
                    None => draws(0).access_key,
                }
                &&& secret_key == draws(answers.len()).secret_key
                &&& request == creation(user, spec, access_key, secret_key)
            },
        },
    }
}

proof fn every_step_is_sound(
    user: Identity,
    known: Option<Seq<char>>,
    intact: bool,
    spec: AccessKeySpec,
    draws: Draws,
    answers: Seq<AnswerView>,
)
    ensures
        sound(
            user,
            known,
            intact,
            spec,
            draws,
            answers,
            standing(ensuring(user, known, intact, spec, draws), answers),
        ),
    decreases answers.len(),
{
    if answers.len() > 0 {
        let front = answers.drop_last();
        every_step_is_sound(user, known, intact, spec, draws, front);
        earlier_answers_stay(answers);
    }
}

/// The id that a key has or gets: the known one, else a generated one.
pub open spec fn id(known: Option<Seq<char>>, draws: Draws) -> Seq<char> {
    match known {
        Some(access_key) => access_key,
        None => draws(0).access_key,
    }
}

/// Whatever the answers are, every request is made as the owner and is about the
/// one key. A key is only revoked where it is known, exists, and its Secret is
/// lost; it is only created with the description and policy of the spec and with
/// a secret key that has just been generated.
pub proof fn every_request_is_the_owners(
    user: Identity,
    known: Option<Seq<char>>,
    intact: bool,
    spec: AccessKeySpec,
    draws: Draws,
    answers: Seq<AnswerView>,
)
    ensures
        standing(ensuring(user, known, intact, spec, draws), answers) matches StepView::Ask {
            request,
            ..
        } ==> {
            ||| {
                &&& request == (RequestView::GetAccessKey {
                    username: user.username,
                    password: user.password,
                    access_key: id(known, draws),
                })
                &&& known is Some
                &&& answers.len() == 0
            }
            ||| {
                &&& request == (RequestView::DeleteAccessKey {
                    username: user.username,
                    password: user.password,
                    access_key: id(known, draws),
                })
                &&& known is Some
                &&& !intact
                &&& answers.len() == 1
                &&& answers[0] matches Ok(reply) && reply->Exists_0
            }
            ||| {
                &&& request == creation(
                    user,
                    spec,
                    id(known, draws),
                    draws(answers.len()).secret_key,
                )
                &&& answers.len() <= 2
            }
        },
{
    every_step_is_sound(user, known, intact, spec, draws, answers);
}

/// Whatever the answers are, whether a key is known, and whatever else the spec
/// sets: a request that creates the key carries the JSON text of the policy in
/// the spec where one is set, and none where none is. The same goes for the
/// description.
pub proof fn a_key_is_created_with_its_policy(
    user: Identity,
    known: Option<Seq<char>>,
    intact: bool,
    spec: AccessKeySpec,
    draws: Draws,
    answers: Seq<AnswerView>,
)
    ensures
        standing(ensuring(user, known, intact, spec, draws), answers) matches StepView::Ask {
            request: RequestView::CreateAccessKey { description, policy, .. },
            ..
        } ==> {
            &&& spec.policy matches Some(document) ==> policy == Some(document_text(document))
            &&& spec.policy is None ==> policy is None
            &&& spec.description matches Some(text) ==> description == Some(text@)
            &&& spec.description is None ==> description is None
        },
{
    every_step_is_sound(user, known, intact, spec, draws, answers);
}

/// Whatever the answers are, the outcome is about the one key, and a key is only
/// kept where it is known, exists, and its Secret is intact.
pub proof fn a_key_is_only_kept_with_its_secret(
    user: Identity,
    known: Option<Seq<char>>,
    intact: bool,
    spec: AccessKeySpec,
    draws: Draws,
    answers: Seq<AnswerView>,
)
    ensures
        standing(ensuring(user, known, intact, spec, draws), answers) matches StepView::Done(
            outcome,
        ) ==> match outcome {
            KeyOutcomeView::Kept { access_key } => {
                &&& known == Some(access_key)
                &&& intact
                &&& answers.len() > 0
                &&& answers[0] matches Ok(reply) && reply->Exists_0
            },
            KeyOutcomeView::Issued { access_key, .. } => access_key == id(known, draws),
        },
{
    every_step_is_sound(user, known, intact, spec, draws, answers);
}

/// Credentials only count as issued once the server has agreed to create that
/// very pair.
pub proof fn what_is_issued_has_been_created(
    user: Identity,
    known: Option<Seq<char>>,
    intact: bool,
    spec: AccessKeySpec,
    draws: Draws,
    answers: Seq<AnswerView>,
    answer: AnswerView,
    access_key: Seq<char>,
    secret_key: Seq<char>,
)
    requires
        standing(ensuring(user, known, intact, spec, draws), answers) is Ask,
        standing(ensuring(user, known, intact, spec, draws), answers.push(answer)) == (StepView::<
            KeyStageView,
            KeyOutcomeView,
        >::Done(KeyOutcomeView::Issued { access_key, secret_key })),
    ensures
        answer is Ok,
        standing(ensuring(user, known, intact, spec, draws), answers)->request == creation(
            user,
            spec,
            access_key,
            secret_key,
        ),
{
    every_step_is_sound(user, known, intact, spec, draws, answers);
    assert(answers.push(answer).drop_last() =~= answers);
}

/// An error ends the task, and is what it fails with.
pub proof fn an_error_ends_it(
    user: Identity,
    known: Option<Seq<char>>,
    intact: bool,
    spec: AccessKeySpec,
    draws: Draws,
    answers: Seq<AnswerView>,
    error: ErrorView,
)
    requires
        standing(ensuring(user, known, intact, spec, draws), answers) is Ask,
    ensures
        standing(ensuring(user, known, intact, spec, draws), answers.push(Err(error))) == (
        StepView::<KeyStageView, KeyOutcomeView>::Failed(error)),
{
    assert(answers.push(Err(error)).drop_last() =~= answers);
}

/// Whatever the answers are, the task only fails with an error that came back as
/// an answer: nothing about the spec makes it fail.
pub proof fn it_only_fails_with_an_error_that_came_back(
    user: Identity,
    known: Option<Seq<char>>,
    intact: bool,
    spec: AccessKeySpec,
    draws: Draws,
    answers: Seq<AnswerView>,
)
    ensures
        standing(ensuring(user, known, intact, spec, draws), answers) matches StepView::Failed(
            error,
        ) ==> answers.contains(Err(error)),
{
    every_step_is_sound(user, known, intact, spec, draws, answers);
}

/// The end of a run that created a key after some requests.
pub open spec fn issued(
    user: Identity,
    spec: AccessKeySpec,
    world: World,
    log: Seq<RequestView>,
    access_key: Seq<char>,
    secret_key: Seq<char>,
) -> Run<KeyStageView, KeyOutcomeView> {
    Run {
        world: world.with_key(user.username, access_key, secret_key),
        log: log.push(creation(user, spec, access_key, secret_key)),
        step: StepView::Done(KeyOutcomeView::Issued { access_key, secret_key }),
    }
}

/// Where the task ends: a key that exists and whose Secret is intact is kept; one
/// that exists and whose Secret is lost is revoked and created anew under its
/// id; one that does not exist is created under its id; and where none is known,
/// one is created under a generated id.
pub open spec fn settled(
    user: Identity,
    known: Option<Seq<char>>,
    intact: bool,
    spec: AccessKeySpec,
    draws: Draws,
    world: World,
) -> Run<KeyStageView, KeyOutcomeView> {
    let access_key = id(known, draws);
    let look = RequestView::GetAccessKey {
        username: user.username,
        password: user.password,
        access_key,
    };
    let revoke = RequestView::DeleteAccessKey {
        username: user.username,
        password: user.password,
        access_key,
    };
    if known is None {
        issued(user, spec, world, seq![], access_key, draws(0).secret_key)
    } else if !world.keys.contains_key((user.username, access_key)) {
        issued(user, spec, world, seq![look], access_key, draws(1).secret_key)
    } else if intact {
        Run {
            world,
            log: seq![look],
            step: StepView::Done(KeyOutcomeView::Kept { access_key }),
        }
    } else {
        issued(user, spec, world, seq![look, revoke], access_key, draws(2).secret_key)
    }
}

/// Against a server that behaves, the task ends there.
pub proof fn a_key_is_brought_in_line(
    user: Identity,
    known: Option<Seq<char>>,
    intact: bool,
    spec: AccessKeySpec,
    draws: Draws,
    world: World,
)
    ensures
        leads_to(
            ensuring(user, known, intact, spec, draws),
            begun(ensuring(user, known, intact, spec, draws), world),
            settled(user, known, intact, spec, draws, world),
        ),
{
    let task = ensuring(user, known, intact, spec, draws);
    let end = settled(user, known, intact, spec, draws, world);
    let r0 = begun(task, world);
    let r1 = advanced(task, r0);
    let r2 = advanced(task, r1);
    let r3 = advanced(task, r2);
    leads_one_further(task, r0);
    leads_one_further(task, r1);
    leads_one_further(task, r2);
    leads_to_is_transitive(task, r0, r1, r2);
    leads_to_is_transitive(task, r0, r2, r3);
    let key = (user.username, id(known, draws));
    if known is None {
        assert(r1.log =~= end.log);
    } else if !world.keys.contains_key(key) {
        assert(r2.log =~= end.log);
    } else if intact {
        assert(r1.log =~= end.log);
    } else {
        assert(r3.log =~= end.log);
        assert(world.keys.remove(key).insert(key, draws(2).secret_key) =~= world.keys.insert(
            key,
            draws(2).secret_key,
        ));
    }
}

/// The task of applying an AccessKey.
pub open spec fn applying(
    obj: AccessKey,
    namespace: Seq<char>,
    operator_namespace: Seq<char>,
    draws: Draws,
) -> Task<ApplyStageView, ReportView<AccessKeyStatusView>> {
    |count: nat, turn: TurnView<ApplyStageView>|
        apply_step(obj, namespace, operator_namespace, draws(count), turn)
}

/// Whatever the answers are, applying never fails unreported: where it ends, the
/// status tells a success with the id of the key, or the message of the error
/// that is passed on, next to the id that was recorded before.
pub proof fn the_end_is_reported(
    obj: AccessKey,
    namespace: Seq<char>,
    operator_namespace: Seq<char>,
    draws: Draws,
    answers: Seq<AnswerView>,
)
    ensures
        match standing(applying(obj, namespace, operator_namespace, draws), answers) {
            StepView::Ask { .. } => true,
            StepView::Done(report) => exists|result: Result<Seq<char>, ErrorView>|
                report == #[trigger] concluded(obj, result),
            StepView::Failed(_) => false,
        },
    decreases answers.len(),
{
    if answers.len() > 0 {
        the_end_is_reported(obj, namespace, operator_namespace, draws, answers.drop_last());
    }
}

/// In every turn of applying an AccessKey, a request about an access key is made
/// as the user that the spec names, a Secret is only written in the resource's
/// namespace and under the name of the target Secret, and nothing else is asked
/// for than that and the connection.
pub proof fn applying_keeps_to_the_owner_and_the_target(
    obj: AccessKey,
    namespace: Seq<char>,
    operator_namespace: Seq<char>,
    draws: Draws,
    count: nat,
    turn: TurnView<ApplyStageView>,
)
    ensures
        apply_step(obj, namespace, operator_namespace, draws(count), turn) matches StepView::Ask {
            request,
            ..
        } ==> match request {
            RequestView::GetAccessKey { username, .. } => username == obj.spec.user@,
            RequestView::CreateAccessKey { username, .. } => username == obj.spec.user@,
            RequestView::DeleteAccessKey { username, .. } => username == obj.spec.user@,
            RequestView::ApplySecret { namespace: place, manifest } => {
                &&& place == namespace
                &&& obj.spec.target_secret_name matches Some(name) ==> manifest.name == name@
                &&& obj.spec.target_secret_name is None ==> (obj.metadata.name matches Some(name)
                    ==> manifest.name == name@ + "-credentials"@)
            },
            RequestView::GetSecret { .. } => true,
            RequestView::GetClusterConnection { .. } => true,
            RequestView::Connect { .. } => true,
            _ => false,
        },
{
    a_target_secret_is_named_by_its_spec(obj);
}

/// What holds wherever applying an AccessKey stands.
spec fn carries_the_policy(
    obj: AccessKey,
    step: StepView<ApplyStageView, ReportView<AccessKeyStatusView>>,
) -> bool {
    let wanted = match obj.spec.policy {
        Some(document) => Some(document_text(document)),
        None => None,
    };
    step matches StepView::Ask { stage, request } ==> {
        &&& stage matches ApplyStageView::Ensuring { stage: inner, .. } ==> match inner {
            KeyStageView::Probing { policy, .. } => policy == wanted,
            KeyStageView::Revoking { policy, .. } => policy == wanted,
            KeyStageView::Creating { .. } => true,
        }
        &&& request matches RequestView::CreateAccessKey { description, policy, .. } ==> {
            &&& policy == wanted
            &&& description == obj.spec.description.deep_view()
        }
    }
}

/// Whatever the answers are, and whatever else the resource says: a request that
/// creates a key while an AccessKey is applied carries the JSON text of the
/// policy in its spec where one is set, and none where none is. The same goes for
/// the description.
pub proof fn an_applied_key_carries_its_policy(
    obj: AccessKey,
    namespace: Seq<char>,
    operator_namespace: Seq<char>,
    draws: Draws,
    answers: Seq<AnswerView>,
)
    ensures
        standing(applying(obj, namespace, operator_namespace, draws), answers) matches
            StepView::Ask {
            request: RequestView::CreateAccessKey { description, policy, .. },
            ..
        } ==> {
            &&& obj.spec.policy matches Some(document) ==> policy == Some(document_text(document))
            &&& obj.spec.policy is None ==> policy is None
            &&& obj.spec.description matches Some(text) ==> description == Some(text@)
            &&& obj.spec.description is None ==> description is None
        },
{
    every_step_carries_the_policy(obj, namespace, operator_namespace, draws, answers);
}

proof fn every_step_carries_the_policy(
    obj: AccessKey,
    namespace: Seq<char>,
    operator_namespace: Seq<char>,
    draws: Draws,
    answers: Seq<AnswerView>,
)
    ensures
        carries_the_policy(
            obj,
            standing(applying(obj, namespace, operator_namespace, draws), answers),
        ),
    decreases answers.len(),
{
    if answers.len() > 0 {
        every_step_carries_the_policy(
            obj,
            namespace,
            operator_namespace,
            draws,
            answers.drop_last(),
        );
    }
}

/// Applying an AccessKey first reads the password, and reports it where that
/// fails.
pub proof fn applying_reads_the_password_first(
    obj: AccessKey,
    namespace: Seq<char>,
    operator_namespace: Seq<char>,
    draws: Draws,
    first: AnswerView,
)
    ensures
        ({
            let task = applying(obj, namespace, operator_namespace, draws);
            &&& standing(task, seq![]) matches StepView::Ask { request, .. } && request == (
            RequestView::GetSecret { namespace, name: obj.spec.password_ref.name@ })
            &&& key_text(namespace, obj.spec.password_ref, "password"@, first) matches Err(error)
                ==> (standing(task, seq![first]) matches StepView::Done(report) && tells_key_error(
                report,
                obj,
                error,
            ))
        }),
{
    let task = applying(obj, namespace, operator_namespace, draws);
    assert(seq![first].drop_last() =~= seq![]);
    assert(standing(task, seq![]) == task(0, TurnView::Begin));
}

/// Applying an AccessKey then connects, as its reference says. An error on the
/// way is reported. Once there is a connection, the target Secret is looked at
/// where a key is known; else a key is created.
pub proof fn applying_connects_next(
    obj: AccessKey,
    namespace: Seq<char>,
    operator_namespace: Seq<char>,
    draws: Draws,
    first: AnswerView,
    answers: Seq<AnswerView>,
    password: Seq<char>,
)
    requires
        key_text(namespace, obj.spec.password_ref, "password"@, first) == (Ok::<
            Seq<char>,
            ErrorView,
        >(password)),
        answers.len() > 0 ==> standing(
            connecting(namespace, operator_namespace, obj.spec.connection),
            answers.drop_last(),
        ) is Ask,
    ensures
        ({
            let step = standing(
                applying(obj, namespace, operator_namespace, draws),
                seq![first] + answers,
            );
            match standing(
                connecting(namespace, operator_namespace, obj.spec.connection),
                answers,
            ) {
                StepView::Ask { request: wanted, .. } => step matches StepView::Ask { request, .. }
                    && request == wanted,
                StepView::Failed(error) => step matches StepView::Done(report) && tells_key_error(
                    report,
                    obj,
                    error,
                ),
                StepView::Done(_) => {
                    &&& step matches StepView::Ask { request, .. }
                    &&& known_key(obj) is Some ==> request == (RequestView::GetSecret {
                        namespace,
                        name: obj.secret_name(),
                    })
                    &&& known_key(obj) is None ==> request == creation(
                        Identity { username: obj.spec.user@, password },
                        obj.spec,
                        draws(1 + answers.len()).access_key,
                        draws(1 + answers.len()).secret_key,
                    )
                },
            }
        }),
{
    connecting_after_the_password(
        obj,
        namespace,
        operator_namespace,
        draws,
        first,
        answers,
        password,
    );
}

proof fn connecting_after_the_password(
    obj: AccessKey,
    namespace: Seq<char>,
    operator_namespace: Seq<char>,
    draws: Draws,
    first: AnswerView,
    answers: Seq<AnswerView>,
    password: Seq<char>,
)
    requires
        key_text(namespace, obj.spec.password_ref, "password"@, first) == (Ok::<
            Seq<char>,
            ErrorView,
        >(password)),
        answers.len() > 0 ==> standing(
            connecting(namespace, operator_namespace, obj.spec.connection),
            answers.drop_last(),
        ) is Ask,
    ensures
        standing(applying(obj, namespace, operator_namespace, draws), seq![first] + answers)
            == apply_connecting(
            obj,
            namespace,
            password,
            draws(1 + answers.len()),
            standing(connecting(namespace, operator_namespace, obj.spec.connection), answers),
        ),
{
    let whole = applying(obj, namespace, operator_namespace, draws);
    let part = connecting(namespace, operator_namespace, obj.spec.connection);
    let wrap = |stage: ConnectStageView| ApplyStageView::Connecting { password, stage };
    let lift = |k: nat, step: StepView<ConnectStageView, Seq<char>>|
        apply_connecting(obj, namespace, password, draws(k), step);
    assert(seq![first].drop_last() =~= seq![]);
    assert(standing(whole, seq![]) == whole(0, TurnView::Begin));
    a_part_stands_where_it_would_alone(part, whole, seq![first], wrap, lift, answers);
}

/// Whether the answers up to here have led an AccessKey as far as its key: the
/// password has been read, the server has been connected to, and the target
/// Secret has been looked at where a key is known.
pub open spec fn is_prepared(
    obj: AccessKey,
    namespace: Seq<char>,
    operator_namespace: Seq<char>,
    first: AnswerView,
    before: Seq<AnswerView>,
    held: Seq<AnswerView>,
    password: Seq<char>,
    endpoint: Seq<char>,
) -> bool {
    let connect = connecting(namespace, operator_namespace, obj.spec.connection);
    &&& key_text(namespace, obj.spec.password_ref, "password"@, first) == (Ok::<
        Seq<char>,
        ErrorView,
    >(password))
    &&& before.len() > 0
    &&& standing(connect, before.drop_last()) is Ask
    &&& standing(connect, before) == (StepView::<ConnectStageView, Seq<char>>::Done(endpoint))
    &&& held.len() == if known_key(obj) is Some {
        1nat
    } else {
        0nat
    }
}

/// Whether the target Secret has been found to hold credentials for the known
/// key.
pub open spec fn was_intact(obj: AccessKey, held: Seq<AnswerView>) -> bool {
    known_key(obj) matches Some(id) && shows_credentials(held[0], id)
}

/// Applying an AccessKey then brings the key in line, as its owner. An error is
/// reported, and so is a key that was kept; credentials that were issued are
/// written to the target Secret, with the endpoint, and that is reported.
pub proof fn applying_then_brings_in_line(
    obj: AccessKey,
    namespace: Seq<char>,
    operator_namespace: Seq<char>,
    draws: Draws,
    first: AnswerView,
    before: Seq<AnswerView>,
    held: Seq<AnswerView>,
    answers: Seq<AnswerView>,
    password: Seq<char>,
    endpoint: Seq<char>,
    error: ErrorView,
)
    requires
        is_prepared(
            obj,
            namespace,
            operator_namespace,
            first,
            before,
            held,
            password,
            endpoint,
        ),
        ({
            let count = 1 + before.len() + held.len();
            let key = ensuring(
                Identity { username: obj.spec.user@, password },
                known_key(obj),
                was_intact(obj, held),
                obj.spec,
                drawn_from(draws, count),
            );
            answers.len() > 0 ==> standing(key, answers.drop_last()) is Ask
        }),
    ensures
        ({
            let count = 1 + before.len() + held.len();
            let key = ensuring(
                Identity { username: obj.spec.user@, password },
                known_key(obj),
                was_intact(obj, held),
                obj.spec,
                drawn_from(draws, count),
            );
            let task = applying(obj, namespace, operator_namespace, draws);
            let all = seq![first] + before + held + answers;
            let step = standing(task, all);
            match standing(key, answers) {
                StepView::Ask { request: wanted, .. } => step matches StepView::Ask { request, .. }
                    && request == wanted,
                StepView::Failed(failure) => step matches StepView::Done(report)
                    && tells_key_error(report, obj, failure),
                StepView::Done(KeyOutcomeView::Kept { access_key }) => step matches StepView::Done(
                    report,
                ) && tells_key(report, obj.metadata.generation, access_key),
                StepView::Done(KeyOutcomeView::Issued { access_key, secret_key }) => {
                    &&& step matches StepView::Ask { request, .. }
                    &&& request == (RequestView::ApplySecret {
                        namespace,
                        manifest: credentials_secret(
                            obj,
                            obj.secret_name(),
                            access_key,
                            secret_key,
                            endpoint,
                        ),
                    })
                    &&& standing(task, all.push(Ok(ReplyView::Done))) matches StepView::Done(report)
                        && tells_key(report, obj.metadata.generation, access_key)
                    &&& standing(task, all.push(Err(error))) matches StepView::Done(report)
                        && tells_key_error(report, obj, error)
                },
            }
        }),
{
    let whole = applying(obj, namespace, operator_namespace, draws);
    connecting_after_the_password(
        obj,
        namespace,
        operator_namespace,
        draws,
        first,
        before,
        password,
    );
    let connected = seq![first] + before;
    let prepared = connected + held;
    let intact = was_intact(obj, held);
    if known_key(obj) is Some {
        assert(prepared.drop_last() =~= connected);
        assert(prepared.last() == held[0]);
    } else {
        assert(prepared =~= connected);
    }
    let part = ensuring(
        Identity { username: obj.spec.user@, password },
        known_key(obj),
        intact,
        obj.spec,
        drawn_from(draws, prepared.len()),
    );
    let wrap = |stage: KeyStageView| ApplyStageView::Ensuring { password, endpoint, intact, stage };
    let lift = |k: nat, step: StepView<KeyStageView, KeyOutcomeView>|
        apply_ensuring(obj, namespace, password, endpoint, intact, step);
    a_part_stands_where_it_would_alone(part, whole, prepared, wrap, lift, answers);
    let all = prepared + answers;
    assert(all.push(Ok(ReplyView::Done)).drop_last() =~= all);
    assert(all.push(Err(error)).drop_last() =~= all);
}

/// Where a ClusterConnection does not allow the namespace of an AccessKey, that
/// is reported, and nothing is asked of any server.
pub proof fn a_key_that_is_not_allowed_is_reported(
    obj: AccessKey,
    namespace: Seq<char>,
    operator_namespace: Seq<char>,
    draws: Draws,
    answers: Seq<AnswerView>,
    cluster: ClusterConnectionView,
)
    requires
        obj.spec.connection.secret_ref is None,
        obj.spec.connection.cluster_ref is Some,
        answers.len() > 1,
        key_text(namespace, obj.spec.password_ref, "password"@, answers[0]) is Ok,
        answers[1] == (Ok::<ReplyView, ErrorView>(ReplyView::ClusterConnection(cluster))),
        !cluster.allows(namespace),
    ensures
        standing(applying(obj, namespace, operator_namespace, draws), answers) == (StepView::<
            ApplyStageView,
            ReportView<AccessKeyStatusView>,
        >::Done(
            concluded(
                obj,
                Err(not_allowed(namespace, obj.spec.connection.cluster_ref->0@)),
            ),
        )),
    decreases answers.len(),
{
    let task = applying(obj, namespace, operator_namespace, draws);
    if answers.len() == 2 {
        let first = answers.drop_last();
        assert(standing(task, first.drop_last()) == task(0, TurnView::Begin));
        assert(standing(task, first) is Ask);
    } else {
        a_key_that_is_not_allowed_is_reported(
            obj,
            namespace,
            operator_namespace,
            draws,
            answers.drop_last(),
            cluster,
        );
    }
}

/// Whether the target Secret holds credentials for the known key of a resource.
pub open spec fn is_intact(obj: AccessKey, namespace: Seq<char>, world: World) -> bool {
    let place = (namespace, obj.secret_name());
    &&& known_key(obj) matches Some(access_key)
    &&& world.secrets.contains_key(place)
    &&& holds_credentials(Some(world.secrets[place]), access_key)
}

/// The requests that come before the key is brought in line: the password is
/// read, the server is connected to, and the target Secret is looked at where a
/// key is known.
pub open spec fn preparation(
    obj: AccessKey,
    namespace: Seq<char>,
    operator_namespace: Seq<char>,
    world: World,
    info: ConnectionInfoView,
) -> Seq<RequestView> {
    let connected = seq![key_request(namespace, obj.spec.password_ref)] + connect_log(
        world,
        namespace,
        operator_namespace,
        obj.spec.connection,
        info,
    );
    if known_key(obj) is Some {
        connected.push(RequestView::GetSecret { namespace, name: obj.secret_name() })
    } else {
        connected
    }
}

/// The credentials generated from a given turn on.
pub open spec fn drawn_from(draws: Draws, count: nat) -> Draws {
    |k: nat| draws(count + k)
}

/// How the key is brought in line while its resource is applied.
pub open spec fn key_settled(
    obj: AccessKey,
    namespace: Seq<char>,
    operator_namespace: Seq<char>,
    draws: Draws,
    world: World,
    password: Seq<char>,
    info: ConnectionInfoView,
) -> Run<KeyStageView, KeyOutcomeView> {
    let before = preparation(obj, namespace, operator_namespace, world, info);
    settled(
        owner(obj, password),
        known_key(obj),
        is_intact(obj, namespace, world),
        obj.spec,
        drawn_from(draws, before.len()),
        world,
    )
}

/// Where applying ends: the key is in line, and credentials that were issued have
/// been written to the target Secret.
pub open spec fn applied(
    obj: AccessKey,
    namespace: Seq<char>,
    operator_namespace: Seq<char>,
    draws: Draws,
    world: World,
    password: Seq<char>,
    info: ConnectionInfoView,
) -> Run<ApplyStageView, ReportView<AccessKeyStatusView>> {
    let before = preparation(obj, namespace, operator_namespace, world, info);
    let key = key_settled(obj, namespace, operator_namespace, draws, world, password, info);
    let name = obj.secret_name();
    match key.step->Done_0 {
        KeyOutcomeView::Kept { access_key } => Run {
            world: key.world,
            log: before + key.log,
            step: StepView::Done(concluded(obj, Ok(access_key))),
        },
        KeyOutcomeView::Issued { access_key, secret_key } => {
            let manifest = credentials_secret(obj, name, access_key, secret_key, info.endpoint);
            Run {
                world: key.world.with_secret(
                    namespace,
                    name,
                    with_text(key.world.secret_data(namespace, name), manifest.string_data),
                ),
                log: (before + key.log).push(RequestView::ApplySecret { namespace, manifest }),
                step: StepView::Done(concluded(obj, Ok(access_key))),
            }
        },
    }
}

/// Getting as far as the key itself.
proof fn preparing(
    obj: AccessKey,
    namespace: Seq<char>,
    operator_namespace: Seq<char>,
    draws: Draws,
    world: World,
    password: Seq<char>,
    info: ConnectionInfoView,
    end: Run<ApplyStageView, ReportView<AccessKeyStatusView>>,
)
    requires
        names_text(world, namespace, obj.spec.password_ref, "password"@, password),
        resolves_to(world, namespace, operator_namespace, obj.spec.connection, info),
        end.world == world,
        end.log == preparation(obj, namespace, operator_namespace, world, info),
        end.step == apply_ensuring(
            obj,
            namespace,
            password,
            info.endpoint,
            is_intact(obj, namespace, world),
            ensure_step(
                owner(obj, password),
                known_key(obj),
                is_intact(obj, namespace, world),
                obj.spec,
                draws(end.log.len()),
                TurnView::Begin,
            ),
        ),
    ensures
        leads_to(
            applying(obj, namespace, operator_namespace, draws),
            begun(applying(obj, namespace, operator_namespace, draws), world),
            end,
        ),
{
    let whole = applying(obj, namespace, operator_namespace, draws);
    let conn = obj.spec.connection;
    let start = begun(whole, world);
    let first = seq![key_request(namespace, obj.spec.password_ref)];
    leads_one_further(whole, start);
    assert(advanced(whole, start).log =~= first);

    let part = connecting(namespace, operator_namespace, conn);
    let wrap = |stage: ConnectStageView| ApplyStageView::Connecting { password, stage };
    let lift = |k: nat, step: StepView<ConnectStageView, Seq<char>>|
        apply_connecting(obj, namespace, password, draws(k), step);
    let log = connect_log(world, namespace, operator_namespace, conn, info);
    let from = begun(part, world);
    let to = Run { world, log, step: StepView::Done(info.endpoint) };
    a_reference_is_followed(world, namespace, operator_namespace, conn, info);
    a_part_gets_where_it_would_alone(part, whole, first, wrap, lift, from, to);
    assert(embedded(first, lift, from).log =~= first);
    let connected = embedded(first, lift, to);
    leads_to_is_transitive(whole, start, embedded(first, lift, from), connected);
    if known_key(obj) is Some {
        leads_one_further(whole, connected);
        leads_to_is_transitive(whole, start, connected, advanced(whole, connected));
    }
}

/// In a cluster and on a server that behave, applying an AccessKey ends there,
/// where its password is there and its reference leads to a connection.
pub proof fn a_key_is_applied(
    obj: AccessKey,
    namespace: Seq<char>,
    operator_namespace: Seq<char>,
    draws: Draws,
    world: World,
    password: Seq<char>,
    info: ConnectionInfoView,
)
    requires
        names_text(world, namespace, obj.spec.password_ref, "password"@, password),
        resolves_to(world, namespace, operator_namespace, obj.spec.connection, info),
    ensures
        leads_to(
            applying(obj, namespace, operator_namespace, draws),
            begun(applying(obj, namespace, operator_namespace, draws), world),
            applied(obj, namespace, operator_namespace, draws, world, password, info),
        ),
{
    let whole = applying(obj, namespace, operator_namespace, draws);
    let start = begun(whole, world);
    let before = preparation(obj, namespace, operator_namespace, world, info);
    let intact = is_intact(obj, namespace, world);
    let user = owner(obj, password);
    let endpoint = info.endpoint;
    let drawn = drawn_from(draws, before.len());

    let task = ensuring(user, known_key(obj), intact, obj.spec, drawn);
    let wrap = |stage: KeyStageView| ApplyStageView::Ensuring { password, endpoint, intact, stage };
    let lift = |k: nat, step: StepView<KeyStageView, KeyOutcomeView>|
        apply_ensuring(obj, namespace, password, endpoint, intact, step);
    let from = begun(task, world);
    let to = key_settled(obj, namespace, operator_namespace, draws, world, password, info);
    a_key_is_brought_in_line(user, known_key(obj), intact, obj.spec, drawn, world);
    a_part_gets_where_it_would_alone(task, whole, before, wrap, lift, from, to);

    let prepared = embedded(before, lift, from);
    let finished = embedded(before, lift, to);
    assert(prepared.log =~= before);
    preparing(obj, namespace, operator_namespace, draws, world, password, info, prepared);
    leads_to_is_transitive(whole, start, prepared, finished);
    if to.step->Done_0 is Issued {
        leads_one_further(whole, finished);
        leads_to_is_transitive(whole, start, finished, advanced(whole, finished));
    }
}

/// The keys of a credentials Secret are all different.
proof fn lemma_keys_differ()
    ensures
        "accessKey"@ != "secretKey"@,
        "accessKey"@ != "endpoint"@,
        "secretKey"@ != "endpoint"@,
{
    reveal_strlit("accessKey");
    reveal_strlit("secretKey");
    reveal_strlit("endpoint");
    assert("accessKey"@[0] == 'a');
    assert("secretKey"@[0] == 's');
    assert("endpoint"@[0] == 'e');
}

/// What a credentials Secret holds once it has been written: the pair and the
/// endpoint.
pub proof fn written_credentials_can_be_read(
    obj: AccessKey,
    name: Seq<char>,
    access_key: Seq<char>,
    secret_key: Seq<char>,
    endpoint: Seq<char>,
    data: Map<Seq<char>, Seq<u8>>,
)
    ensures
        ({
            let manifest = credentials_secret(obj, name, access_key, secret_key, endpoint);
            let secret = Some(with_text(data, manifest.string_data));
            &&& text_at(secret, "accessKey"@) == Some(access_key)
            &&& text_at(secret, "secretKey"@) == Some(secret_key)
            &&& text_at(secret, "endpoint"@) == Some(endpoint)
            &&& holds_credentials(secret, access_key)
        }),
{
    let text = credentials_secret(obj, name, access_key, secret_key, endpoint).string_data;
    let a = data.insert("accessKey"@, encode_utf8(access_key));
    let b = a.insert("secretKey"@, encode_utf8(secret_key));
    let c = b.insert("endpoint"@, encode_utf8(endpoint));
    reveal_with_fuel(with_text, 4);
    assert(with_text(data, text) == c);
    lemma_keys_differ();
    encode_utf8_valid_utf8(access_key);
    encode_utf8_valid_utf8(secret_key);
    encode_utf8_valid_utf8(endpoint);
    encode_utf8_decode_utf8(access_key);
    encode_utf8_decode_utf8(secret_key);
    encode_utf8_decode_utf8(endpoint);
}

/// Whether there is nothing left to do for the key of a resource: it is known, it
/// exists, and the target Secret holds credentials for it.
pub open spec fn is_in_place(obj: AccessKey, namespace: Seq<char>, world: World) -> bool {
    &&& known_key(obj) matches Some(access_key)
    &&& world.keys.contains_key((obj.spec.user@, access_key))
    &&& is_intact(obj, namespace, world)
}

/// The id of the key that applying reports.
pub open spec fn applied_id(
    obj: AccessKey,
    namespace: Seq<char>,
    operator_namespace: Seq<char>,
    draws: Draws,
    world: World,
    info: ConnectionInfoView,
) -> Seq<char> {
    let before = preparation(obj, namespace, operator_namespace, world, info);
    id(known_key(obj), drawn_from(draws, before.len()))
}

/// Once an AccessKey has been applied, its status tells the id of a key that
/// exists and for which the target Secret holds credentials. Where they have
/// been issued, the Secret holds the very pair that the server has, and the
/// endpoint. A key that was known keeps its id.
pub proof fn credentials_are_handed_out(
    obj: AccessKey,
    namespace: Seq<char>,
    operator_namespace: Seq<char>,
    draws: Draws,
    world: World,
    password: Seq<char>,
    info: ConnectionInfoView,
)
    ensures
        ({
            let end = applied(obj, namespace, operator_namespace, draws, world, password, info);
            let access_key = applied_id(obj, namespace, operator_namespace, draws, world, info);
            let place = (namespace, obj.secret_name());
            let secret = Some(end.world.secrets[place]);
            &&& end.step == (StepView::<ApplyStageView, ReportView<AccessKeyStatusView>>::Done(
                concluded(obj, Ok(access_key)),
            ))
            &&& known_key(obj) matches Some(known) ==> access_key == known
            &&& end.world.keys.contains_key((obj.spec.user@, access_key))
            &&& end.world.secrets.contains_key(place)
            &&& holds_credentials(secret, access_key)
            &&& !is_in_place(obj, namespace, world) ==> {
                &&& text_at(secret, "secretKey"@) == Some(
                    end.world.keys[(obj.spec.user@, access_key)],
                )
                &&& text_at(secret, "endpoint"@) == Some(info.endpoint)
            }
        }),
{
    let key = key_settled(obj, namespace, operator_namespace, draws, world, password, info);
    let name = obj.secret_name();
    if let KeyOutcomeView::Issued { access_key, secret_key } = key.step->Done_0 {
        written_credentials_can_be_read(
            obj,
            name,
            access_key,
            secret_key,
            info.endpoint,
            key.world.secret_data(namespace, name),
        );
    }
}

/// A key that is in place is left alone: applying only reads, changes nothing,
/// and reports the same id.
pub proof fn credentials_in_place_are_left_alone(
    obj: AccessKey,
    namespace: Seq<char>,
    operator_namespace: Seq<char>,
    draws: Draws,
    world: World,
    password: Seq<char>,
    info: ConnectionInfoView,
)
    requires
        resolves_to(world, namespace, operator_namespace, obj.spec.connection, info),
        is_in_place(obj, namespace, world),
    ensures
        ({
            let end = applied(obj, namespace, operator_namespace, draws, world, password, info);
            &&& end.world == world
            &&& only_reads(end.log)
            &&& end.step == (StepView::<ApplyStageView, ReportView<AccessKeyStatusView>>::Done(
                concluded(obj, Ok(known_key(obj)->0)),
            ))
        }),
{
    a_reference_is_followed(world, namespace, operator_namespace, obj.spec.connection, info);
}

/// Applying an AccessKey again, once its status tells the id that was reported,
/// finds the key in place, whatever has been generated meanwhile.
pub proof fn an_applied_key_is_in_place(
    obj: AccessKey,
    again: AccessKey,
    namespace: Seq<char>,
    operator_namespace: Seq<char>,
    draws: Draws,
    world: World,
    password: Seq<char>,
    info: ConnectionInfoView,
)
    requires
        again.spec == obj.spec,
        again.metadata == obj.metadata,
        recorded_key(again) == Some(
            applied_id(obj, namespace, operator_namespace, draws, world, info),
        ),
    ensures
        is_in_place(
            again,
            namespace,
            applied(obj, namespace, operator_namespace, draws, world, password, info).world,
        ),
{
    credentials_are_handed_out(
        obj,
        namespace,
        operator_namespace,
        draws,
        world,
        password,
        info,
    );
}

/// Where the credentials of a key that exists are lost, the key is revoked and
/// issued again under its id, with a new secret key.
pub proof fn a_lost_secret_is_made_good(
    obj: AccessKey,
    namespace: Seq<char>,
    operator_namespace: Seq<char>,
    draws: Draws,
    world: World,
    password: Seq<char>,
    info: ConnectionInfoView,
    access_key: Seq<char>,
)
    requires
        known_key(obj) == Some(access_key),
        world.keys.contains_key((obj.spec.user@, access_key)),
        !is_intact(obj, namespace, world),
    ensures
        ({
            let user = owner(obj, password);
            let before = preparation(obj, namespace, operator_namespace, world, info);
            let secret_key = draws(before.len() + 2).secret_key;
            let key = key_settled(
                obj,
                namespace,
                operator_namespace,
                draws,
                world,
                password,
                info,
            );
            &&& key.log == seq![
                RequestView::GetAccessKey {
                    username: user.username,
                    password: user.password,
                    access_key,
                },
                RequestView::DeleteAccessKey {
                    username: user.username,
                    password: user.password,
                    access_key,
                },
                creation(user, obj.spec, access_key, secret_key),
            ]
            &&& key.world == world.with_key(user.username, access_key, secret_key)
            &&& key.step == (StepView::<KeyStageView, KeyOutcomeView>::Done(
                KeyOutcomeView::Issued { access_key, secret_key },
            ))
        }),
{
    let user = owner(obj, password);
    let before = preparation(obj, namespace, operator_namespace, world, info);
    let secret_key = draws(before.len() + 2).secret_key;
    let key = key_settled(obj, namespace, operator_namespace, draws, world, password, info);
    assert(key.log =~= seq![
        RequestView::GetAccessKey {
            username: user.username,
            password: user.password,
            access_key,
        },
        RequestView::DeleteAccessKey {
            username: user.username,
            password: user.password,
            access_key,
        },
        creation(user, obj.spec, access_key, secret_key),
    ]);
}

/// The task of cleaning up after a deleted AccessKey.
pub open spec fn cleaning_up(
    obj: AccessKey,
    namespace: Seq<char>,
    operator_namespace: Seq<char>,
) -> Task<KeyCleanupStageView, Action> {
    |count: nat, turn: TurnView<KeyCleanupStageView>|
        cleanup_step(obj, namespace, operator_namespace, turn)
}

/// Cleaning up after an AccessKey that is to be deleted and has a key reads the
/// password first, then connects as the reference says, then revokes the key as
/// the owner. An error on the way is what it fails with.
pub proof fn cleaning_up_connects_and_revokes(
    obj: AccessKey,
    namespace: Seq<char>,
    operator_namespace: Seq<char>,
    first: AnswerView,
    answers: Seq<AnswerView>,
    last: AnswerView,
    id: Seq<char>,
)
    requires
        obj.spec.deletion_policy is Delete,
        known_key(obj) == Some(id),
        answers.len() > 0 ==> standing(
            connecting(namespace, operator_namespace, obj.spec.connection),
            answers.drop_last(),
        ) is Ask,
    ensures
        ({
            let task = cleaning_up(obj, namespace, operator_namespace);
            let all = seq![first] + answers;
            &&& standing(task, seq![]) matches StepView::Ask { request, .. } && request == (
            RequestView::GetSecret { namespace, name: obj.spec.password_ref.name@ })
            &&& match key_text(namespace, obj.spec.password_ref, "password"@, first) {
                Err(error) => standing(task, seq![first]) == (StepView::<
                    KeyCleanupStageView,
                    Action,
                >::Failed(error)),
                Ok(password) => match standing(
                    connecting(namespace, operator_namespace, obj.spec.connection),
                    answers,
                ) {
                    StepView::Ask { request: wanted, .. } => standing(task, all) matches
                        StepView::Ask { request, .. } && request == wanted,
                    StepView::Failed(error) => standing(task, all) == (StepView::<
                        KeyCleanupStageView,
                        Action,
                    >::Failed(error)),
                    StepView::Done(_) => {
                        &&& standing(task, all) matches StepView::Ask { request, .. } && request == (
                        RequestView::DeleteAccessKey {
                            username: obj.spec.user@,
                            password,
                            access_key: id,
                        })
                        &&& standing(task, all.push(last)) == match last {
                            Ok(_) => StepView::<KeyCleanupStageView, Action>::Done(
                                Action::AwaitChange,
                            ),
                            Err(error) => StepView::Failed(error),
                        }
                    },
                },
            }
        }),
{
    let whole = cleaning_up(obj, namespace, operator_namespace);
    assert(seq![first].drop_last() =~= seq![]);
    assert(standing(whole, seq![]) == whole(0, TurnView::Begin));
    if let Ok(password) = key_text(namespace, obj.spec.password_ref, "password"@, first) {
        let part = connecting(namespace, operator_namespace, obj.spec.connection);
        let wrap = |stage: ConnectStageView| KeyCleanupStageView::Connecting { password, stage };
        let lift = |k: nat, step: StepView<ConnectStageView, Seq<char>>|
            cleanup_connecting(obj, password, step);
        a_part_stands_where_it_would_alone(part, whole, seq![first], wrap, lift, answers);
        let all = seq![first] + answers;
        assert(all.push(last).drop_last() =~= all);
    }
}

/// A key is revoked, as its owner, exactly where there is one and the deletion
/// policy says so.
pub proof fn a_key_is_only_revoked_where_the_policy_says_so(
    user: Identity,
    known: Option<Seq<char>>,
    spec: AccessKeySpec,
)
    ensures
        removal(user, known, spec) is Some <==> known is Some && spec.deletion_policy is Delete,
        removal(user, known, spec) matches Some(request) ==> request == (
        RequestView::DeleteAccessKey {
            username: user.username,
            password: user.password,
            access_key: known->0,
        }),
{
}

/// Cleaning up after an AccessKey that is to be retained, or that has no key,
/// asks for nothing, not even for the password.
pub proof fn a_retained_key_takes_no_request(
    obj: AccessKey,
    namespace: Seq<char>,
    operator_namespace: Seq<char>,
    answers: Seq<AnswerView>,
)
    requires
        obj.spec.deletion_policy is Retain || known_key(obj) is None,
    ensures
        standing(cleaning_up(obj, namespace, operator_namespace), answers) == StepView::<
            KeyCleanupStageView,
            Action,
        >::Done(Action::AwaitChange),
    decreases answers.len(),
{
    if answers.len() > 0 {
        a_retained_key_takes_no_request(
            obj,
            namespace,
            operator_namespace,
            answers.drop_last(),
        );
    }
}

/// In every turn of cleaning up after an AccessKey, a request about an access key
/// deletes the known one, as the user that the spec names; and there is one only
/// where the deletion policy says so.
pub proof fn cleaning_up_keeps_to_the_known_key(
    obj: AccessKey,
    namespace: Seq<char>,
    operator_namespace: Seq<char>,
    turn: TurnView<KeyCleanupStageView>,
)
    ensures
        cleanup_step(obj, namespace, operator_namespace, turn) matches StepView::Ask {
            request,
            ..
        } ==> {
            ||| request is GetSecret || request is GetClusterConnection || request is Connect
            ||| {
                &&& request matches RequestView::DeleteAccessKey { username, access_key, .. }
                &&& username == obj.spec.user@
                &&& known_key(obj) == Some(access_key)
                &&& obj.spec.deletion_policy is Delete
            }
        },
{
}

/// Cleaning up after an AccessKey that is to be deleted revokes its key, as the
/// owner, and changes nothing else.
pub proof fn a_key_is_revoked(
    obj: AccessKey,
    namespace: Seq<char>,
    operator_namespace: Seq<char>,
    world: World,
    password: Seq<char>,
    info: ConnectionInfoView,
    access_key: Seq<char>,
)
    requires
        obj.spec.deletion_policy is Delete,
        known_key(obj) == Some(access_key),
        names_text(world, namespace, obj.spec.password_ref, "password"@, password),
        resolves_to(world, namespace, operator_namespace, obj.spec.connection, info),
    ensures
        leads_to(
            cleaning_up(obj, namespace, operator_namespace),
            begun(cleaning_up(obj, namespace, operator_namespace), world),
            (Run {
                world: World { keys: world.keys.remove((obj.spec.user@, access_key)), ..world },
                log: (seq![key_request(namespace, obj.spec.password_ref)] + connect_log(
                    world,
                    namespace,
                    operator_namespace,
                    obj.spec.connection,
                    info,
                )).push(
                    RequestView::DeleteAccessKey {
                        username: obj.spec.user@,
                        password,
                        access_key,
                    },
                ),
                step: StepView::Done(Action::AwaitChange),
            }),
        ),
{
    let whole = cleaning_up(obj, namespace, operator_namespace);
    let conn = obj.spec.connection;
    let start = begun(whole, world);
    let first = seq![key_request(namespace, obj.spec.password_ref)];
    leads_one_further(whole, start);
    assert(advanced(whole, start).log =~= first);

    let part = connecting(namespace, operator_namespace, conn);
    let wrap = |stage: ConnectStageView| KeyCleanupStageView::Connecting { password, stage };
    let lift = |k: nat, step: StepView<ConnectStageView, Seq<char>>|
        cleanup_connecting(obj, password, step);
    let log = connect_log(world, namespace, operator_namespace, conn, info);
    let from = begun(part, world);
    let to = Run { world, log, step: StepView::Done(info.endpoint) };
    a_reference_is_followed(world, namespace, operator_namespace, conn, info);
    a_part_gets_where_it_would_alone(part, whole, first, wrap, lift, from, to);
    assert(embedded(first, lift, from).log =~= first);
    let connected = embedded(first, lift, to);
    leads_to_is_transitive(whole, start, embedded(first, lift, from), connected);
    leads_one_further(whole, connected);
    leads_to_is_transitive(whole, start, connected, advanced(whole, connected));
}

} // verus!
