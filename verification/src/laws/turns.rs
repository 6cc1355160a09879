//! A task never gets stuck: whatever it asks for, any answer of the kind that
//! the request calls for, and any error, lets it take its next turn.

use vstd::prelude::*;

use crate::connection::{connect_fits, connect_step, ConnectStageView};
use crate::crd::{AccessKey, AccessKeySpec, Bucket, BucketSpec, ConnectionRef, User, UserSpec};
use crate::exchange::{answers, AnswerView, ReplyKind, RequestView, StepView, TurnView};
use crate::reconcile::access_key::{Fresh, Identity, KeyCleanupStageView, KeyStageView};
use crate::reconcile::bucket::BucketStage;
use crate::reconcile::user::UserStageView;
use crate::reconcile::{access_key, bucket, cleanup_fits, cleanup_step, user, CleanupStageView};

verus! {

/// Connecting never gets stuck.
pub proof fn connecting_can_go_on(
    namespace: Seq<char>,
    operator_namespace: Seq<char>,
    conn: ConnectionRef,
    turn: TurnView<ConnectStageView>,
    answer: AnswerView,
)
    requires
        turn is Begin || connect_fits(turn),
    ensures
        connect_fits(TurnView::Begin),
        connect_step(namespace, operator_namespace, conn, turn) matches StepView::Ask {
            stage,
            request,
        } ==> (answers(answer, request.reply_kind()) ==> connect_fits(
            TurnView::Resume { stage, answer },
        )),
{
}

/// Cleaning up by a request that has nothing to tell never gets stuck.
pub proof fn cleaning_up_can_go_on(
    namespace: Seq<char>,
    operator_namespace: Seq<char>,
    conn: ConnectionRef,
    removal: Option<RequestView>,
    turn: TurnView<CleanupStageView>,
    answer: AnswerView,
)
    requires
        turn is Begin || cleanup_fits(turn),
        removal matches Some(request) ==> request.reply_kind() == ReplyKind::Done,
    ensures
        cleanup_fits(TurnView::Begin),
        cleanup_step(namespace, operator_namespace, conn, removal, turn) matches StepView::Ask {
            stage,
            request,
        } ==> (answers(answer, request.reply_kind()) ==> cleanup_fits(
            TurnView::Resume { stage, answer },
        )),
{
}

/// Bringing a bucket in line never gets stuck.
pub proof fn ensuring_a_bucket_can_go_on(
    name: Seq<char>,
    spec: BucketSpec,
    turn: TurnView<BucketStage>,
    answer: AnswerView,
)
    requires
        turn is Begin || bucket::ensure_fits(spec, turn),
    ensures
        bucket::ensure_fits(spec, TurnView::Begin),
        bucket::ensure_step(name, spec, turn) matches StepView::Ask { stage, request } ==> (answers(
            answer,
            request.reply_kind(),
        ) ==> bucket::ensure_fits(spec, TurnView::Resume { stage, answer })),
{
}

/// Applying a Bucket never gets stuck.
pub proof fn applying_a_bucket_can_go_on(
    obj: Bucket,
    namespace: Seq<char>,
    operator_namespace: Seq<char>,
    turn: TurnView<bucket::ApplyStageView>,
    answer: AnswerView,
)
    requires
        turn is Begin || bucket::apply_fits(obj, turn),
    ensures
        bucket::apply_fits(obj, TurnView::Begin),
        bucket::apply_step(obj, namespace, operator_namespace, turn) matches StepView::Ask {
            stage,
            request,
        } ==> (answers(answer, request.reply_kind()) ==> bucket::apply_fits(
            obj,
            TurnView::Resume { stage, answer },
        )),
{
}

/// Bringing a user in line never gets stuck.
pub proof fn ensuring_a_user_can_go_on(
    username: Seq<char>,
    password: Seq<char>,
    spec: UserSpec,
    turn: TurnView<UserStageView>,
    answer: AnswerView,
)
    requires
        turn is Begin || user::ensure_fits(turn),
    ensures
        user::ensure_fits(TurnView::Begin),
        user::ensure_step(username, password, spec, turn) matches StepView::Ask {
            stage,
            request,
        } ==> (answers(answer, request.reply_kind()) ==> user::ensure_fits(
            TurnView::Resume { stage, answer },
        )),
{
}

/// Applying a User never gets stuck.
pub proof fn applying_a_user_can_go_on(
    obj: User,
    namespace: Seq<char>,
    operator_namespace: Seq<char>,
    turn: TurnView<user::ApplyStageView>,
    answer: AnswerView,
)
    requires
        turn is Begin || user::apply_fits(turn),
    ensures
        user::apply_fits(TurnView::Begin),
        user::apply_step(obj, namespace, operator_namespace, turn) matches StepView::Ask {
            stage,
            request,
        } ==> (answers(answer, request.reply_kind()) ==> user::apply_fits(
            TurnView::Resume { stage, answer },
        )),
{
}

/// Bringing an access key in line never gets stuck.
pub proof fn ensuring_a_key_can_go_on(
    owner: Identity,
    known: Option<Seq<char>>,
    intact: bool,
    spec: AccessKeySpec,
    fresh: Fresh,
    turn: TurnView<KeyStageView>,
    answer: AnswerView,
)
    requires
        turn is Begin || access_key::ensure_fits(turn),
    ensures
        access_key::ensure_fits(TurnView::Begin),
        access_key::ensure_step(owner, known, intact, spec, fresh, turn) matches StepView::Ask {
            stage,
            request,
        } ==> (answers(answer, request.reply_kind()) ==> access_key::ensure_fits(
            TurnView::Resume { stage, answer },
        )),
{
}

/// Applying an AccessKey never gets stuck.
pub proof fn applying_a_key_can_go_on(
    obj: AccessKey,
    namespace: Seq<char>,
    operator_namespace: Seq<char>,
    fresh: Fresh,
    turn: TurnView<access_key::ApplyStageView>,
    answer: AnswerView,
)
    requires
        turn is Begin || access_key::apply_fits(turn),
    ensures
        access_key::apply_fits(TurnView::Begin),
        access_key::apply_step(obj, namespace, operator_namespace, fresh, turn) matches
            StepView::Ask { stage, request } ==> (answers(answer, request.reply_kind())
            ==> access_key::apply_fits(TurnView::Resume { stage, answer })),
{
}

/// Cleaning up after an AccessKey never gets stuck.
pub proof fn cleaning_up_a_key_can_go_on(
    obj: AccessKey,
    namespace: Seq<char>,
    operator_namespace: Seq<char>,
    turn: TurnView<KeyCleanupStageView>,
    answer: AnswerView,
)
    requires
        turn is Begin || access_key::cleanup_fits(turn),
    ensures
        access_key::cleanup_fits(TurnView::Begin),
        access_key::cleanup_step(obj, namespace, operator_namespace, turn) matches StepView::Ask {
            stage,
            request,
        } ==> (answers(answer, request.reply_kind()) ==> access_key::cleanup_fits(
            TurnView::Resume { stage, answer },
        )),
{
}

} // verus!
