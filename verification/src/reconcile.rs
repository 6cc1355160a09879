//! Reconciliation of the resources.
//!
//! For each kind there are two tasks. Applying brings the server in line with
//! the resource and ends in a [`Report`]; cleaning up runs when the resource is
//! deleted and ends in an [`Action`].

use vstd::prelude::*;

use crate::connection::{
    connect_step, provider_for, ConnectStage, ConnectStageView, ConnectStepView,
};
use crate::crd::{ConnectionRef, ResourceStatus, ResourceStatusView};
use crate::error::{Error, ErrorView};
use crate::exchange::{answers, ReplyKind, Request, RequestView, Step, StepView, Turn, TurnView};

pub mod access_key;
pub mod bucket;
pub mod user;

verus! {

/// Seconds after which a resource that is in line is looked at again.
pub const REQUEUE_OK: u64 = 300;

/// Seconds after which a failed reconciliation is tried again.
pub const REQUEUE_ERROR: u64 = 15;

/// When a resource is to be looked at next.
#[derive(Clone, Copy, Debug, PartialEq, Eq, Structural)]
pub enum Action {
    /// After this many seconds, or when it changes.
    Requeue { seconds: u64 },
    /// When it changes.
    AwaitChange,
}

impl DeepView for Action {
    type V = Action;

    open spec fn deep_view(&self) -> Action {
        *self
    }
}

/// When a resource whose reconciliation failed is to be looked at next.
pub fn error_policy() -> (action: Action)
    ensures
        action == (Action::Requeue { seconds: REQUEUE_ERROR }),
        action matches Action::Requeue { seconds } && seconds == 15,
{
    Action::Requeue { seconds: REQUEUE_ERROR }
}

/// How applying a resource ended: the status to be written to it, and what
/// comes next.
#[derive(Debug)]
pub struct Report<S> {
    pub status: S,
    pub outcome: Result<Action, Error>,
}

/// A [`Report`], seen as a mathematical value.
pub struct ReportView<S> {
    pub status: S,
    pub outcome: Result<Action, ErrorView>,
}

impl<S: DeepView> DeepView for Report<S> {
    type V = ReportView<S::V>;

    open spec fn deep_view(&self) -> ReportView<S::V> {
        ReportView {
            status: self.status.deep_view(),
            outcome: match self.outcome {
                Ok(action) => Ok(action),
                Err(error) => Err(error.deep_view()),
            },
        }
    }
}

/// How applying a resource ends: a success is reported as ready and looked at
/// again after a while; an error is reported with its message and passed on.
pub open spec fn concluded(generation: Option<i64>, result: Result<(), ErrorView>) -> ReportView<
    ResourceStatusView,
> {
    match result {
        Ok(()) => ReportView {
            status: ResourceStatusView::reconciled(generation),
            outcome: Ok(Action::Requeue { seconds: REQUEUE_OK }),
        },
        Err(error) => ReportView {
            status: ResourceStatusView::failed(generation, error.message()),
            outcome: Err(error),
        },
    }
}

/// Reports a success.
pub(crate) fn report_ready(generation: Option<i64>) -> (report: Report<ResourceStatus>)
    ensures
        report.deep_view() == concluded(generation, Ok(())),
{
    Report {
        status: ResourceStatus::ready(generation),
        outcome: Ok(Action::Requeue { seconds: REQUEUE_OK }),
    }
}

/// Reports an error.
pub(crate) fn report_error(generation: Option<i64>, error: Error) -> (report: Report<
    ResourceStatus,
>)
    ensures
        report.deep_view() == concluded(generation, Err(error.deep_view())),
{
    Report { status: ResourceStatus::error(generation, error.message()), outcome: Err(error) }
}

/// How far cleaning up after a deleted resource has come.
#[derive(Clone, Debug, PartialEq, Eq)]
pub enum CleanupStage {
    /// The server is being connected to.
    Connecting(ConnectStage),
    /// The remote resource is being removed.
    Removing,
}

/// A [`CleanupStage`], seen as a mathematical value.
pub enum CleanupStageView {
    Connecting(ConnectStageView),
    Removing,
}

impl DeepView for CleanupStage {
    type V = CleanupStageView;

    open spec fn deep_view(&self) -> CleanupStageView {
        match self {
            CleanupStage::Connecting(stage) => CleanupStageView::Connecting(stage.deep_view()),
            CleanupStage::Removing => CleanupStageView::Removing,
        }
    }
}

impl CleanupStageView {
    /// The kind of reply that the stage waits for.
    pub open spec fn awaits(self) -> ReplyKind {
        match self {
            CleanupStageView::Connecting(stage) => stage.awaits(),
            CleanupStageView::Removing => ReplyKind::Done,
        }
    }
}

/// A step of cleaning up, seen as a mathematical value.
pub type CleanupStepView = StepView<CleanupStageView, Action>;

/// Cleaning up while connecting: the removal follows the connection.
pub open spec fn removal_after(
    step: ConnectStepView,
    removal: Option<RequestView>,
) -> CleanupStepView {
    match step {
        StepView::Ask { stage, request } => StepView::Ask {
            stage: CleanupStageView::Connecting(stage),
            request,
        },
        StepView::Failed(error) => StepView::Failed(error),
        StepView::Done(_) => match removal {
            Some(request) => StepView::Ask { stage: CleanupStageView::Removing, request },
            None => StepView::Done(Action::AwaitChange),
        },
    }
}

/// How cleaning up takes a turn. Where there is nothing to remove, nothing is
/// asked for: not even the connection is needed.
pub open spec fn cleanup_step(
    namespace: Seq<char>,
    operator_namespace: Seq<char>,
    conn: ConnectionRef,
    removal: Option<RequestView>,
    turn: TurnView<CleanupStageView>,
) -> CleanupStepView {
    match turn {
        TurnView::Begin => if removal is None {
            StepView::Done(Action::AwaitChange)
        } else {
            removal_after(
                connect_step(namespace, operator_namespace, conn, TurnView::Begin),
                removal,
            )
        },
        TurnView::Resume {
            stage: CleanupStageView::Connecting(stage),
            answer,
        } => removal_after(
            connect_step(
                namespace,
                operator_namespace,
                conn,
                TurnView::Resume { stage, answer },
            ),
            removal,
        ),
        TurnView::Resume { stage: CleanupStageView::Removing, answer } => match answer {
            Ok(_) => StepView::Done(Action::AwaitChange),
            Err(error) => StepView::Failed(error),
        },
    }
}

/// Whether a turn can be taken: an answer is of the kind that its stage awaits.
pub open spec fn cleanup_fits(turn: TurnView<CleanupStageView>) -> bool {
    turn matches TurnView::Resume { stage, answer } ==> answers(answer, stage.awaits())
}

/// Removes a remote resource by the given request, if there is one.
pub(crate) fn remove(
    namespace: &str,
    operator_namespace: &str,
    conn: &ConnectionRef,
    removal: Option<Request>,
    turn: Turn<CleanupStage>,
) -> (step: Step<CleanupStage, Action>)
    requires
        cleanup_fits(turn.deep_view()),
        removal.deep_view() matches Some(request) ==> request.reply_kind() == ReplyKind::Done,
    ensures
        step.deep_view() == cleanup_step(
            namespace@,
            operator_namespace@,
            *conn,
            removal.deep_view(),
            turn.deep_view(),
        ),
        step.deep_view() matches StepView::Ask { stage, request } ==> request.reply_kind()
            == stage.awaits(),
{
    let connecting = match turn {
        Turn::Begin => {
            if removal.is_none() {
                return Step::Done(Action::AwaitChange);
            }
            Turn::Begin
        },
        Turn::Resume { stage: CleanupStage::Connecting(stage), answer } => Turn::Resume {
            stage,
            answer,
        },
        Turn::Resume { stage: CleanupStage::Removing, answer } => return match answer {
            Ok(_) => Step::Done(Action::AwaitChange),
            Err(error) => Step::Failed(error),
        },
    };
    match provider_for(namespace, operator_namespace, conn, connecting) {
        Step::Ask { stage, request } => Step::Ask {
            stage: CleanupStage::Connecting(stage),
            request,
        },
        Step::Failed(error) => Step::Failed(error),
        Step::Done(_) => match removal {
            Some(request) => Step::Ask { stage: CleanupStage::Removing, request },
            None => Step::Done(Action::AwaitChange),
        },
    }
}

} // verus!
