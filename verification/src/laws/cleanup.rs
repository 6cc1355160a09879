//! What cleaning up after a deleted Bucket or User asks for.

use vstd::prelude::*;

use crate::connection::ConnectStageView;
use crate::crd::ConnectionRef;
use crate::exchange::{AnswerView, ConnectionInfoView, RequestView, StepView, TurnView};
use crate::laws::connection::{a_reference_is_followed, connect_log, connecting, resolves_to};
use crate::model::{
    a_part_gets_where_it_would_alone, a_part_stands_where_it_would_alone, advanced, begun, embedded,
    leads_one_further, leads_to, leads_to_is_transitive, serve, standing, Run, Task, World,
};
use crate::reconcile::{cleanup_step, removal_after, Action, CleanupStageView};

verus! {

/// The task of cleaning up by the given request, if there is one.
pub open spec fn cleaning_up(
    namespace: Seq<char>,
    operator_namespace: Seq<char>,
    conn: ConnectionRef,
    removal: Option<RequestView>,
) -> Task<CleanupStageView, Action> {
    |count: nat, turn: TurnView<CleanupStageView>|
        cleanup_step(namespace, operator_namespace, conn, removal, turn)
}

/// Where there is nothing to remove, nothing is asked for: the task is done, and
/// no answer changes that.
pub proof fn nothing_to_remove_takes_no_request(
    namespace: Seq<char>,
    operator_namespace: Seq<char>,
    conn: ConnectionRef,
    answers: Seq<AnswerView>,
)
    ensures
        standing(cleaning_up(namespace, operator_namespace, conn, None), answers)
            == StepView::<CleanupStageView, Action>::Done(Action::AwaitChange),
    decreases answers.len(),
{
    if answers.len() > 0 {
        nothing_to_remove_takes_no_request(
            namespace,
            operator_namespace,
            conn,
            answers.drop_last(),
        );
    }
}

/// Where there is something to remove, cleaning up connects first, as the
/// reference says, and then performs the request. An error on the way is what it
/// fails with.
pub proof fn cleaning_up_connects_and_removes(
    namespace: Seq<char>,
    operator_namespace: Seq<char>,
    conn: ConnectionRef,
    removal: RequestView,
    answers: Seq<AnswerView>,
    last: AnswerView,
)
    requires
        answers.len() > 0 ==> standing(
            connecting(namespace, operator_namespace, conn),
            answers.drop_last(),
        ) is Ask,
    ensures
        ({
            let task = cleaning_up(namespace, operator_namespace, conn, Some(removal));
            let step = standing(task, answers);
            match standing(connecting(namespace, operator_namespace, conn), answers) {
                StepView::Ask { request: wanted, .. } => step matches StepView::Ask { request, .. }
                    && request == wanted,
                StepView::Failed(error) => step == (StepView::<CleanupStageView, Action>::Failed(
                    error,
                )),
                StepView::Done(_) => {
                    &&& step matches StepView::Ask { request, .. } && request == removal
                    &&& standing(task, answers.push(last)) == match last {
                        Ok(_) => StepView::<CleanupStageView, Action>::Done(Action::AwaitChange),
                        Err(error) => StepView::Failed(error),
                    }
                },
            }
        }),
{
    let whole = cleaning_up(namespace, operator_namespace, conn, Some(removal));
    let part = connecting(namespace, operator_namespace, conn);
    let wrap = |stage: ConnectStageView| CleanupStageView::Connecting(stage);
    let lift = |k: nat, step: StepView<ConnectStageView, Seq<char>>|
        removal_after(step, Some(removal));
    a_part_stands_where_it_would_alone(part, whole, seq![], wrap, lift, answers);
    assert(seq![] + answers =~= answers);
    assert(answers.push(last).drop_last() =~= answers);
}

/// Where there is something to remove and the reference leads to a connection,
/// the request is performed over that connection.
pub proof fn a_removal_follows_the_connection(
    world: World,
    namespace: Seq<char>,
    operator_namespace: Seq<char>,
    conn: ConnectionRef,
    info: ConnectionInfoView,
    request: RequestView,
)
    requires
        resolves_to(world, namespace, operator_namespace, conn, info),
        serve(world, request).1 is Ok,
    ensures
        leads_to(
            cleaning_up(namespace, operator_namespace, conn, Some(request)),
            begun(cleaning_up(namespace, operator_namespace, conn, Some(request)), world),
            (Run {
                world: serve(world, request).0,
                log: connect_log(world, namespace, operator_namespace, conn, info).push(request),
                step: StepView::Done(Action::AwaitChange),
            }),
        ),
{
    let part = connecting(namespace, operator_namespace, conn);
    let whole = cleaning_up(namespace, operator_namespace, conn, Some(request));
    let wrap = |stage: ConnectStageView| CleanupStageView::Connecting(stage);
    let lift = |k: nat, step: StepView<ConnectStageView, Seq<char>>|
        removal_after(step, Some(request));
    let log = connect_log(world, namespace, operator_namespace, conn, info);
    let from = begun(part, world);
    let to = Run { world, log, step: StepView::Done(info.endpoint) };
    a_reference_is_followed(world, namespace, operator_namespace, conn, info);
    a_part_gets_where_it_would_alone(part, whole, seq![], wrap, lift, from, to);
    let start = begun(whole, world);
    let connected = embedded(seq![], lift, to);
    assert(start.log =~= embedded(seq![], lift, from).log);
    assert(connected.log =~= log);
    leads_one_further(whole, connected);
    leads_to_is_transitive(whole, start, connected, advanced(whole, connected));
}

} // verus!
