//! What bringing a bucket in line achieves, and what it leaves alone.

use vstd::prelude::*;

use crate::connection::ConnectStageView;
use crate::crd::{
    Bucket, BucketSpec, ClusterConnectionView, LifecycleRuleSpec, ResourceStatusView,
};
use crate::error::ErrorView;
use crate::exchange::{AnswerView, ConnectionInfoView, ReplyView, RequestView, StepView, TurnView};
use crate::laws::cleanup::{
    a_removal_follows_the_connection, cleaning_up, nothing_to_remove_takes_no_request,
};
use crate::laws::connection::{
    a_reference_is_followed, connect_log, connecting, not_allowed, resolves_to,
};
use crate::laws::values::{is_name, tells_error, tells_success};
use crate::lifecycle::LifecycleRuleView;
use crate::model::{
    a_part_gets_where_it_would_alone, a_part_stands_where_it_would_alone, advanced, begun,
    earlier_answers_stay, embedded, leads_one_further, leads_to, leads_to_is_reflexive,
    leads_to_is_transitive, only_reads, standing, BucketState, Run, Task, World,
};
use crate::reconcile::bucket::{
    apply_connecting, apply_ensuring, apply_step, correction, effective_name, ensure_step, in_line,
    manages, next_managed, observation, removal, turn_to, wire_rule, wire_rules, ApplyStageView,
    Aspect, BucketStage,
};
use crate::reconcile::{cleanup_step, concluded, Action, CleanupStageView, ReportView};

verus! {

/// The task of bringing a bucket in line.
pub open spec fn ensuring(bucket: Seq<char>, spec: BucketSpec) -> Task<BucketStage, ()> {
    |count: nat, turn: TurnView<BucketStage>| ensure_step(bucket, spec, turn)
}

/// The aspect of a bucket that a request reads or writes, if it is about that
/// bucket.
pub open spec fn concerns(request: RequestView, name: Seq<char>, aspect: Aspect) -> bool {
    match request {
        RequestView::BucketExists { bucket } => aspect is Existence && bucket == name,
        RequestView::CreateBucket { bucket } => aspect is Existence && bucket == name,
        RequestView::GetVersioning { bucket } => aspect is Versioning && bucket == name,
        RequestView::SetVersioning { bucket, .. } => aspect is Versioning && bucket == name,
        RequestView::GetBucketQuota { bucket } => aspect is Quota && bucket == name,
        RequestView::SetBucketQuota { bucket, .. } => aspect is Quota && bucket == name,
        RequestView::GetBucketLifecycle { bucket } => aspect is Lifecycle && bucket == name,
        RequestView::SetBucketLifecycle { bucket, .. } => aspect is Lifecycle && bucket == name,
        RequestView::DeleteBucketLifecycle { bucket } => aspect is Lifecycle && bucket == name,
        _ => false,
    }
}

/// The position of an aspect in the order in which they are looked at.
spec fn rank(aspect: Aspect) -> nat {
    match aspect {
        Aspect::Existence => 0,
        Aspect::Versioning => 1,
        Aspect::Quota => 2,
        Aspect::Lifecycle => 3,
    }
}

/// What holds of every step.
spec fn sound(
    name: Seq<char>,
    spec: BucketSpec,
    answers: Seq<AnswerView>,
    step: StepView<BucketStage, ()>,
) -> bool {
    step matches StepView::Ask { stage, request } ==> {
        &&& manages(spec, stage.aspect)
        &&& if stage.correcting {
            &&& request == correction(name, spec, stage.aspect)
            &&& 0 < answers.len() <= 2 * rank(stage.aspect) + 1
            &&& answers.last() matches Ok(reply)
            &&& !in_line(spec, stage.aspect, reply)
        } else {
            &&& request == observation(name, stage.aspect)
            &&& answers.len() <= 2 * rank(stage.aspect)
        }
    }
}

proof fn every_step_is_sound(name: Seq<char>, spec: BucketSpec, answers: Seq<AnswerView>)
    ensures
        sound(name, spec, answers, standing(ensuring(name, spec), answers)),
    decreases answers.len(),
{
    if answers.len() > 0 {
        every_step_is_sound(name, spec, answers.drop_last());
    }
}

/// Whatever the answers are, every request is about the named bucket and about
/// an aspect that the spec manages: what is unset is neither read nor written.
pub proof fn what_is_unset_is_left_alone(
    name: Seq<char>,
    spec: BucketSpec,
    answers: Seq<AnswerView>,
)
    ensures
        standing(ensuring(name, spec), answers) matches StepView::Ask { request, .. } ==> exists|
            aspect: Aspect,
        | #[trigger]
            concerns(request, name, aspect) && manages(spec, aspect),
{
    every_step_is_sound(name, spec, answers);
    if let StepView::Ask { stage, request } = standing(ensuring(name, spec), answers) {
        assert(concerns(request, name, stage.aspect));
    }
}

/// Whatever the answers are, every request is about the named bucket, and serves
/// something that the spec sets. Something is only written after the answer
/// before has shown it to be otherwise than the spec says, and what is written
/// is what the spec says.
pub proof fn every_request_serves_the_spec(
    name: Seq<char>,
    spec: BucketSpec,
    answers: Seq<AnswerView>,
)
    ensures
        standing(ensuring(name, spec), answers) matches StepView::Ask {
            request,
            ..
        } ==> match request {
            RequestView::BucketExists { bucket } => bucket == name && answers.len() == 0,
            RequestView::CreateBucket { bucket } => {
                &&& bucket == name
                &&& answers.len() == 1
                &&& answers[0] matches Ok(reply) && !reply->Exists_0
            },
            RequestView::GetVersioning { bucket } => bucket == name && spec.versioning is Some,
            RequestView::SetVersioning { bucket, enabled } => {
                &&& bucket == name
                &&& spec.versioning == Some(enabled)
                &&& answers.len() > 0
                &&& answers.last() matches Ok(reply)
                &&& enabled != (reply->Versioning_0 == Some(true))
            },
            RequestView::GetBucketQuota { bucket } => bucket == name && spec.quota_bytes is Some,
            RequestView::SetBucketQuota { bucket, bytes } => {
                &&& bucket == name
                &&& spec.quota_bytes == Some(bytes)
                &&& answers.len() > 0
                &&& answers.last() matches Ok(reply)
                &&& reply->Quota_0 != Some(bytes)
            },
            RequestView::GetBucketLifecycle { bucket } => bucket == name && spec.lifecycle is Some,
            RequestView::SetBucketLifecycle { bucket, rules } => {
                &&& bucket == name
                &&& spec.lifecycle matches Some(specs)
                &&& specs@.len() > 0
                &&& say_the_same(rules, specs@)
                &&& answers.len() > 0
                &&& answers.last() matches Ok(reply)
                &&& !say_the_same(reply->Lifecycle_0, specs@)
            },
            RequestView::DeleteBucketLifecycle { bucket } => {
                &&& bucket == name
                &&& spec.lifecycle matches Some(specs)
                &&& specs@.len() == 0
                &&& answers.len() > 0
                &&& answers.last() matches Ok(reply)
                &&& reply->Lifecycle_0.len() > 0
            },
            _ => false,
        },
{
    every_step_is_sound(name, spec, answers);
    if let StepView::Ask { stage, .. } = standing(ensuring(name, spec), answers) {
        if stage.aspect is Lifecycle {
            let specs = spec.lifecycle->0@;
            rules_have_one_form_on_the_wire(wire_rules(specs), specs);
            if stage.correcting {
                let rules = answers.last()->Ok_0->Lifecycle_0;
                rules_have_one_form_on_the_wire(rules, specs);
                assert(rules.len() == 0 && specs.len() == 0 ==> rules =~= wire_rules(specs));
            }
        }
    }
}

/// Whatever the answers are, no empty lifecycle configuration is ever written.
pub proof fn no_empty_lifecycle_is_written(
    name: Seq<char>,
    spec: BucketSpec,
    answers: Seq<AnswerView>,
)
    ensures
        standing(ensuring(name, spec), answers) matches StepView::Ask {
            request: RequestView::SetBucketLifecycle { rules, .. },
            ..
        } ==> rules.len() > 0,
{
    every_step_is_sound(name, spec, answers);
}

/// Whatever the answers are, at most eight requests are made.
pub proof fn few_requests_are_made(name: Seq<char>, spec: BucketSpec, answers: Seq<AnswerView>)
    ensures
        standing(ensuring(name, spec), answers) is Ask ==> answers.len() < 8,
{
    every_step_is_sound(name, spec, answers);
}

/// An error ends the task, and is what it fails with.
pub proof fn an_error_ends_it(
    name: Seq<char>,
    spec: BucketSpec,
    answers: Seq<AnswerView>,
    error: ErrorView,
)
    requires
        standing(ensuring(name, spec), answers) is Ask,
    ensures
        standing(ensuring(name, spec), answers.push(Err(error))) == (StepView::<
            BucketStage,
            (),
        >::Failed(error)),
{
    assert(answers.push(Err(error)).drop_last() =~= answers);
}

/// Whatever the answers are, the task only fails with an error that came back as
/// an answer: nothing about the spec makes it fail.
pub proof fn it_only_fails_with_an_error_that_came_back(
    name: Seq<char>,
    spec: BucketSpec,
    answers: Seq<AnswerView>,
)
    ensures
        standing(ensuring(name, spec), answers) matches StepView::Failed(error)
            ==> answers.contains(Err(error)),
    decreases answers.len(),
{
    if answers.len() > 0 {
        let front = answers.drop_last();
        it_only_fails_with_an_error_that_came_back(name, spec, front);
        earlier_answers_stay(answers);
    }
}

/// Whether a rule on the wire says what a rule of the spec says, and nothing
/// more.
pub open spec fn says_the_same(rule: LifecycleRuleView, spec: LifecycleRuleSpec) -> bool {
    &&& rule.id == spec.id@
    &&& rule.status == spec.status
    &&& match spec.prefix {
        Some(prefix) => rule.prefix == Some(prefix@),
        None => rule.prefix is None,
    }
    &&& match spec.expiration_days {
        Some(days) => {
            &&& rule.expiration matches Some(expiration)
            &&& expiration.days == Some(days)
            &&& expiration.date is None
        },
        None => rule.expiration is None,
    }
    &&& rule.abort_incomplete_multipart_upload_days == spec.abort_incomplete_multipart_upload_days
    &&& rule.tags is None
    &&& rule.transition is None
    &&& rule.noncurrent_version_expiration is None
    &&& rule.noncurrent_version_transition is None
    &&& rule.expired_object_delete_marker is None
}

/// Whether rules on the wire say what the rules of a spec say: as many, in the
/// same order, each the same.
pub open spec fn say_the_same(
    rules: Seq<LifecycleRuleView>,
    specs: Seq<LifecycleRuleSpec>,
) -> bool {
    &&& rules.len() == specs.len()
    &&& forall|i: int| 0 <= i < specs.len() ==> says_the_same(#[trigger] rules[i], specs[i])
}

/// The rules of a spec have one form on the wire: the one that says the same.
pub proof fn rules_have_one_form_on_the_wire(
    rules: Seq<LifecycleRuleView>,
    specs: Seq<LifecycleRuleSpec>,
)
    ensures
        say_the_same(rules, specs) <==> rules == wire_rules(specs),
{
    if say_the_same(rules, specs) {
        assert forall|i: int| 0 <= i < specs.len() implies rules[i] == wire_rule(specs[i]) by {
            assert(says_the_same(rules[i], specs[i]));
            assert(rules[i].expiration == wire_rule(specs[i]).expiration);
        }
        assert(rules =~= wire_rules(specs));
    }
}

/// Whatever the answers are, the rules that are set on a bucket are those of the
/// spec, all of them and in their order; and there is at least one.
pub proof fn all_the_rules_are_set(name: Seq<char>, spec: BucketSpec, answers: Seq<AnswerView>)
    ensures
        standing(ensuring(name, spec), answers) matches StepView::Ask {
            request: RequestView::SetBucketLifecycle { bucket, rules },
            ..
        } ==> {
            &&& bucket == name
            &&& spec.lifecycle matches Some(specs)
            &&& rules.len() == specs@.len()
            &&& rules.len() > 0
            &&& forall|i: int|
                0 <= i < specs@.len() ==> says_the_same(#[trigger] rules[i], specs@[i])
        },
{
    every_step_is_sound(name, spec, answers);
    if let StepView::Ask { request: RequestView::SetBucketLifecycle { rules, .. }, .. } = standing(
        ensuring(name, spec),
        answers,
    ) {
        rules_have_one_form_on_the_wire(rules, spec.lifecycle->0@);
    }
}

/// The rules of a bucket are left as they are exactly if they say what the rules
/// of the spec say, all of them and in their order.
pub proof fn rules_are_compared_one_by_one(
    name: Seq<char>,
    spec: BucketSpec,
    rules: Seq<LifecycleRuleView>,
)
    requires
        spec.lifecycle is Some,
    ensures
        ({
            let specs = spec.lifecycle->0@;
            let step = ensure_step(
                name,
                spec,
                TurnView::Resume {
                    stage: BucketStage { aspect: Aspect::Lifecycle, correcting: false },
                    answer: Ok(ReplyView::Lifecycle(rules)),
                },
            );
            &&& step == (StepView::<BucketStage, ()>::Done(())) <==> {
                &&& rules.len() == specs.len()
                &&& forall|i: int|
                    0 <= i < specs.len() ==> says_the_same(#[trigger] rules[i], specs[i])
            }
            &&& !(step is Done) ==> {
                &&& step matches StepView::Ask { request, .. }
                &&& if specs.len() == 0 {
                    request == (RequestView::DeleteBucketLifecycle { bucket: name })
                } else {
                    &&& request matches RequestView::SetBucketLifecycle { bucket, rules: set }
                    &&& bucket == name
                    &&& say_the_same(set, specs)
                }
            }
        }),
{
    let specs = spec.lifecycle->0@;
    rules_have_one_form_on_the_wire(rules, specs);
    rules_have_one_form_on_the_wire(wire_rules(specs), specs);
}

/// A bucket as the spec asks for it, out of a bucket as it is: aspects that are
/// in line already, and those that are unmanaged, stay as they are.
pub open spec fn settled(spec: BucketSpec, state: BucketState) -> BucketState {
    BucketState {
        versioning: match spec.versioning {
            Some(enabled) if (state.versioning == Some(true)) != enabled => Some(enabled),
            _ => state.versioning,
        },
        quota: match spec.quota_bytes {
            Some(bytes) => Some(bytes),
            None => state.quota,
        },
        lifecycle: match spec.lifecycle {
            Some(rules) => wire_rules(rules@),
            None => state.lifecycle,
        },
    }
}

/// A bucket with one aspect made as the spec asks.
spec fn settled_in(spec: BucketSpec, aspect: Aspect, state: BucketState) -> BucketState {
    match aspect {
        Aspect::Existence => state,
        Aspect::Versioning => BucketState { versioning: settled(spec, state).versioning, ..state },
        Aspect::Quota => BucketState { quota: settled(spec, state).quota, ..state },
        Aspect::Lifecycle => BucketState { lifecycle: settled(spec, state).lifecycle, ..state },
    }
}

/// The bucket that a task finds, once it exists.
pub open spec fn found(world: World, name: Seq<char>) -> BucketState {
    if world.buckets.contains_key(name) {
        world.buckets[name]
    } else {
        world.new_bucket
    }
}

/// Whether an aspect of a bucket is as the spec asks, where it is managed.
pub open spec fn agrees(spec: BucketSpec, aspect: Aspect, state: BucketState) -> bool {
    match aspect {
        Aspect::Existence => true,
        Aspect::Versioning => spec.versioning matches Some(enabled) ==> (state.versioning == Some(
            true,
        )) == enabled,
        Aspect::Quota => spec.quota_bytes is Some ==> state.quota == spec.quota_bytes,
        Aspect::Lifecycle => spec.lifecycle matches Some(specs) ==> say_the_same(
            state.lifecycle,
            specs@,
        ),
    }
}

/// The requests that an aspect takes: one to observe it, and one more to correct
/// it where it is not as the spec asks.
pub open spec fn visit(
    name: Seq<char>,
    spec: BucketSpec,
    aspect: Aspect,
    fine: bool,
) -> Seq<RequestView> {
    if !manages(spec, aspect) {
        seq![]
    } else if fine {
        seq![observation(name, aspect)]
    } else {
        seq![observation(name, aspect), correction(name, spec, aspect)]
    }
}

/// All the requests that a bucket takes.
pub open spec fn visits(name: Seq<char>, spec: BucketSpec, world: World) -> Seq<RequestView> {
    let state = found(world, name);
    visit(name, spec, Aspect::Existence, world.buckets.contains_key(name))
        + visit(name, spec, Aspect::Versioning, agrees(spec, Aspect::Versioning, state))
        + visit(name, spec, Aspect::Quota, agrees(spec, Aspect::Quota, state))
        + visit(name, spec, Aspect::Lifecycle, agrees(spec, Aspect::Lifecycle, state))
}

/// Visiting one aspect of a bucket that exists, where it is managed.
proof fn visiting(
    name: Seq<char>,
    spec: BucketSpec,
    aspect: Aspect,
    run: Run<BucketStage, ()>,
    end: Run<BucketStage, ()>,
)
    requires
        manages(spec, aspect),
        !(aspect is Existence),
        run.world.buckets.contains_key(name),
        run.step == turn_to(name, Some(aspect)),
        end == (Run {
            world: run.world.with_bucket(
                name,
                settled_in(spec, aspect, run.world.buckets[name]),
            ),
            log: run.log + visit(name, spec, aspect, agrees(spec, aspect, run.world.buckets[name])),
            step: turn_to(name, next_managed(spec, aspect)),
        }),
    ensures
        leads_to(ensuring(name, spec), run, end),
{
    let task = ensuring(name, spec);
    let state = run.world.buckets[name];
    let one = advanced(task, run);
    leads_one_further(task, run);
    if aspect is Lifecycle {
        rules_have_one_form_on_the_wire(state.lifecycle, spec.lifecycle->0@);
    }
    if agrees(spec, aspect, state) {
        assert(settled_in(spec, aspect, state) == state);
        assert(run.world.buckets.insert(name, state) =~= run.world.buckets);
        assert(one.log =~= end.log);
    } else {
        let two = advanced(task, one);
        leads_one_further(task, one);
        leads_to_is_transitive(task, run, one, two);
        assert(two.log =~= end.log);
        if aspect is Lifecycle && spec.lifecycle->0@.len() == 0 {
            assert(wire_rules(spec.lifecycle->0@) =~= Seq::empty());
        }
    }
}

/// Coming to one aspect of a bucket that exists, after the one before it.
proof fn coming_to(
    name: Seq<char>,
    spec: BucketSpec,
    before: Aspect,
    aspect: Aspect,
    run: Run<BucketStage, ()>,
    end: Run<BucketStage, ()>,
)
    requires
        rank(before) + 1 == rank(aspect),
        run.world.buckets.contains_key(name),
        run.step == turn_to(name, next_managed(spec, before)),
        end == (Run {
            world: run.world.with_bucket(
                name,
                settled_in(spec, aspect, run.world.buckets[name]),
            ),
            log: run.log + visit(name, spec, aspect, agrees(spec, aspect, run.world.buckets[name])),
            step: turn_to(name, next_managed(spec, aspect)),
        }),
    ensures
        leads_to(ensuring(name, spec), run, end),
{
    if manages(spec, aspect) {
        visiting(name, spec, aspect, run, end);
    } else {
        let state = run.world.buckets[name];
        assert(run.world.buckets.insert(name, state) =~= run.world.buckets);
        assert(end.log =~= run.log);
        leads_to_is_reflexive(ensuring(name, spec), run);
    }
}

/// Finding or creating a bucket.
proof fn visiting_existence(
    name: Seq<char>,
    spec: BucketSpec,
    world: World,
    end: Run<BucketStage, ()>,
)
    requires
        end == (Run {
            world: world.with_bucket(name, found(world, name)),
            log: visit(name, spec, Aspect::Existence, world.buckets.contains_key(name)),
            step: turn_to(name, next_managed(spec, Aspect::Existence)),
        }),
    ensures
        leads_to(ensuring(name, spec), begun(ensuring(name, spec), world), end),
{
    let task = ensuring(name, spec);
    let start = begun(task, world);
    let one = advanced(task, start);
    leads_one_further(task, start);
    if world.buckets.contains_key(name) {
        assert(world.buckets.insert(name, found(world, name)) =~= world.buckets);
        assert(one.log =~= end.log);
    } else {
        let two = advanced(task, one);
        leads_one_further(task, one);
        leads_to_is_transitive(task, start, one, two);
        assert(two.log =~= end.log);
    }
}

/// Against a server that behaves, the task ends well and leaves the bucket as
/// the spec asks: it exists, every managed aspect is in line, and nothing else
/// has changed. It takes one request to observe each managed aspect and one more
/// to correct each that is out of line.
pub proof fn a_bucket_is_brought_in_line(name: Seq<char>, spec: BucketSpec, world: World)
    ensures
        leads_to(
            ensuring(name, spec),
            begun(ensuring(name, spec), world),
            (Run {
                world: world.with_bucket(name, settled(spec, found(world, name))),
                log: visits(name, spec, world),
                step: StepView::Done(()),
            }),
        ),
        forall|aspect: Aspect| agrees(spec, aspect, settled(spec, found(world, name))),
{
    let task = ensuring(name, spec);
    let start = begun(task, world);
    let s0 = found(world, name);
    let s1 = settled_in(spec, Aspect::Versioning, s0);
    let s2 = settled_in(spec, Aspect::Quota, s1);
    let s3 = settled_in(spec, Aspect::Lifecycle, s2);
    let l0 = visit(name, spec, Aspect::Existence, world.buckets.contains_key(name));
    let l1 = l0 + visit(name, spec, Aspect::Versioning, agrees(spec, Aspect::Versioning, s0));
    let l2 = l1 + visit(name, spec, Aspect::Quota, agrees(spec, Aspect::Quota, s0));
    let r0 = Run {
        world: world.with_bucket(name, s0),
        log: l0,
        step: turn_to(name, next_managed(spec, Aspect::Existence)),
    };
    let r1 = Run {
        world: world.with_bucket(name, s1),
        log: l1,
        step: turn_to(name, next_managed(spec, Aspect::Versioning)),
    };
    let r2 = Run {
        world: world.with_bucket(name, s2),
        log: l2,
        step: turn_to(name, next_managed(spec, Aspect::Quota)),
    };
    let r3 = Run {
        world: world.with_bucket(name, s3),
        log: visits(name, spec, world),
        step: turn_to(name, next_managed(spec, Aspect::Lifecycle)),
    };
    assert(world.buckets.insert(name, s0).insert(name, s1) =~= world.buckets.insert(name, s1));
    assert(world.buckets.insert(name, s1).insert(name, s2) =~= world.buckets.insert(name, s2));
    assert(world.buckets.insert(name, s2).insert(name, s3) =~= world.buckets.insert(name, s3));
    visiting_existence(name, spec, world, r0);
    coming_to(name, spec, Aspect::Existence, Aspect::Versioning, r0, r1);
    coming_to(name, spec, Aspect::Versioning, Aspect::Quota, r1, r2);
    coming_to(name, spec, Aspect::Quota, Aspect::Lifecycle, r2, r3);
    leads_to_is_transitive(task, start, r0, r1);
    leads_to_is_transitive(task, start, r1, r2);
    leads_to_is_transitive(task, start, r2, r3);
    if let Some(specs) = spec.lifecycle {
        rules_have_one_form_on_the_wire(s3.lifecycle, specs@);
    }
}

/// A bucket that is in line is left alone: the task ends well, reads only, and
/// nothing changes. So a second run after a first one changes nothing.
pub proof fn a_bucket_in_line_is_left_alone(name: Seq<char>, spec: BucketSpec, world: World)
    requires
        world.buckets.contains_key(name),
        forall|aspect: Aspect| agrees(spec, aspect, world.buckets[name]),
    ensures
        only_reads(visits(name, spec, world)),
        leads_to(
            ensuring(name, spec),
            begun(ensuring(name, spec), world),
            (Run { world, log: visits(name, spec, world), step: StepView::Done(()) }),
        ),
{
    a_bucket_is_brought_in_line(name, spec, world);
    let state = world.buckets[name];
    assert(agrees(spec, Aspect::Versioning, state));
    assert(agrees(spec, Aspect::Quota, state));
    assert(agrees(spec, Aspect::Lifecycle, state));
    if let Some(specs) = spec.lifecycle {
        rules_have_one_form_on_the_wire(state.lifecycle, specs@);
    }
    assert(settled(spec, state) == state);
    assert(world.buckets.insert(name, state) =~= world.buckets);
}

/// The task of applying a Bucket.
pub open spec fn applying(
    obj: Bucket,
    namespace: Seq<char>,
    operator_namespace: Seq<char>,
) -> Task<ApplyStageView, ReportView<ResourceStatusView>> {
    |count: nat, turn: TurnView<ApplyStageView>|
        apply_step(obj, namespace, operator_namespace, turn)
}

/// Whatever the answers are, applying never fails unreported: where it ends, the
/// status tells a success, or the message of the error that is passed on.
pub proof fn the_end_is_reported(
    obj: Bucket,
    namespace: Seq<char>,
    operator_namespace: Seq<char>,
    answers: Seq<AnswerView>,
)
    ensures
        match standing(applying(obj, namespace, operator_namespace), answers) {
            StepView::Ask { .. } => true,
            StepView::Done(report) => exists|result: Result<(), ErrorView>|
                report == #[trigger] concluded(obj.metadata.generation, result),
            StepView::Failed(_) => false,
        },
    decreases answers.len(),
{
    if answers.len() > 0 {
        the_end_is_reported(obj, namespace, operator_namespace, answers.drop_last());
    }
}

/// The bucket that a request is about, if it is about one.
pub open spec fn bucket_of(request: RequestView) -> Option<Seq<char>> {
    match request {
        RequestView::BucketExists { bucket } => Some(bucket),
        RequestView::CreateBucket { bucket } => Some(bucket),
        RequestView::DeleteBucket { bucket } => Some(bucket),
        RequestView::GetVersioning { bucket } => Some(bucket),
        RequestView::SetVersioning { bucket, .. } => Some(bucket),
        RequestView::GetBucketQuota { bucket } => Some(bucket),
        RequestView::SetBucketQuota { bucket, .. } => Some(bucket),
        RequestView::GetBucketLifecycle { bucket } => Some(bucket),
        RequestView::SetBucketLifecycle { bucket, .. } => Some(bucket),
        RequestView::DeleteBucketLifecycle { bucket } => Some(bucket),
        _ => None,
    }
}

/// In every turn of applying a Bucket, a request about a bucket names the one in
/// the spec where that is set, and the resource's name only where it is not.
/// Nothing else is asked for than buckets and the connection.
pub proof fn applying_names_the_bucket_of_the_spec(
    obj: Bucket,
    namespace: Seq<char>,
    operator_namespace: Seq<char>,
    turn: TurnView<ApplyStageView>,
)
    ensures
        apply_step(obj, namespace, operator_namespace, turn) matches StepView::Ask {
            request,
            ..
        } ==> match bucket_of(request) {
            Some(bucket) => {
                &&& obj.spec.bucket_name matches Some(name) ==> bucket == name@
                &&& obj.spec.bucket_name is None ==> (obj.metadata.name matches Some(name) ==> bucket
                    == name@)
                &&& is_name(bucket, obj.spec.bucket_name, obj.metadata.name)
            },
            None => request is GetSecret || request is GetClusterConnection || request is Connect,
        },
{
}

/// In every turn of cleaning up after a Bucket, a request about a bucket deletes
/// the one in the spec where that is set, and the one of the resource's name only
/// where it is not; and there is one only where the deletion policy says so.
pub proof fn cleaning_up_names_the_bucket_of_the_spec(
    obj: Bucket,
    namespace: Seq<char>,
    operator_namespace: Seq<char>,
    turn: TurnView<CleanupStageView>,
)
    ensures
        cleanup_step(
            namespace,
            operator_namespace,
            obj.spec.connection,
            removal(effective_name(obj), obj.spec),
            turn,
        ) matches StepView::Ask { request, .. } ==> {
            ||| request is GetSecret || request is GetClusterConnection || request is Connect
            ||| {
                &&& request matches RequestView::DeleteBucket { bucket }
                &&& is_name(bucket, obj.spec.bucket_name, obj.metadata.name)
                &&& obj.spec.deletion_policy is Delete
            }
        },
        removal(effective_name(obj), obj.spec) is Some <==> obj.spec.deletion_policy is Delete,
{
}

/// Applying a Bucket first connects, as its reference says. An error on the way
/// is reported; once there is a connection, the bucket is looked at.
pub proof fn applying_connects_first(
    obj: Bucket,
    namespace: Seq<char>,
    operator_namespace: Seq<char>,
    answers: Seq<AnswerView>,
)
    requires
        answers.len() > 0 ==> standing(
            connecting(namespace, operator_namespace, obj.spec.connection),
            answers.drop_last(),
        ) is Ask,
    ensures
        ({
            let step = standing(applying(obj, namespace, operator_namespace), answers);
            match standing(
                connecting(namespace, operator_namespace, obj.spec.connection),
                answers,
            ) {
                StepView::Ask { request: wanted, .. } => step matches StepView::Ask { request, .. }
                    && request == wanted,
                StepView::Failed(error) => step matches StepView::Done(report) && tells_error(
                    report,
                    obj.metadata.generation,
                    error,
                ),
                StepView::Done(_) => {
                    &&& step matches StepView::Ask { request, .. }
                    &&& request matches RequestView::BucketExists { bucket }
                    &&& is_name(bucket, obj.spec.bucket_name, obj.metadata.name)
                },
            }
        }),
{
    let whole = applying(obj, namespace, operator_namespace);
    let part = connecting(namespace, operator_namespace, obj.spec.connection);
    let wrap = |stage: ConnectStageView| ApplyStageView::Connecting(stage);
    let lift = |k: nat, step: StepView<ConnectStageView, Seq<char>>| apply_connecting(obj, step);
    a_part_stands_where_it_would_alone(part, whole, seq![], wrap, lift, answers);
    assert(seq![] + answers =~= answers);
}

/// Applying a Bucket then brings the bucket in line, and reports how that ended.
pub proof fn applying_then_brings_in_line(
    obj: Bucket,
    namespace: Seq<char>,
    operator_namespace: Seq<char>,
    before: Seq<AnswerView>,
    answers: Seq<AnswerView>,
    name: Seq<char>,
)
    requires
        before.len() > 0,
        standing(
            connecting(namespace, operator_namespace, obj.spec.connection),
            before.drop_last(),
        ) is Ask,
        standing(connecting(namespace, operator_namespace, obj.spec.connection), before) is Done,
        is_name(name, obj.spec.bucket_name, obj.metadata.name),
        answers.len() > 0 ==> standing(ensuring(name, obj.spec), answers.drop_last()) is Ask,
    ensures
        ({
            let step = standing(
                applying(obj, namespace, operator_namespace),
                before + answers,
            );
            match standing(ensuring(name, obj.spec), answers) {
                StepView::Ask { request: wanted, .. } => step matches StepView::Ask { request, .. }
                    && request == wanted,
                StepView::Failed(error) => step matches StepView::Done(report) && tells_error(
                    report,
                    obj.metadata.generation,
                    error,
                ),
                StepView::Done(()) => step matches StepView::Done(report) && tells_success(
                    report,
                    obj.metadata.generation,
                ),
            }
        }),
{
    let whole = applying(obj, namespace, operator_namespace);
    assert(name =~= effective_name(obj));
    let connect = connecting(namespace, operator_namespace, obj.spec.connection);
    let outer = |stage: ConnectStageView| ApplyStageView::Connecting(stage);
    let raise = |k: nat, step: StepView<ConnectStageView, Seq<char>>| apply_connecting(obj, step);
    a_part_stands_where_it_would_alone(connect, whole, seq![], outer, raise, before);
    assert(seq![] + before =~= before);

    let part = ensuring(name, obj.spec);
    let wrap = |stage: BucketStage| ApplyStageView::Ensuring(stage);
    let lift = |k: nat, step: StepView<BucketStage, ()>| apply_ensuring(obj, step);
    a_part_stands_where_it_would_alone(part, whole, before, wrap, lift, answers);
}

/// Where a ClusterConnection does not allow the namespace of a Bucket, that is
/// reported, and nothing is asked of any server.
pub proof fn a_bucket_that_is_not_allowed_is_reported(
    obj: Bucket,
    namespace: Seq<char>,
    operator_namespace: Seq<char>,
    answers: Seq<AnswerView>,
    cluster: ClusterConnectionView,
)
    requires
        obj.spec.connection.secret_ref is None,
        obj.spec.connection.cluster_ref is Some,
        answers.len() > 0,
        answers[0] == (Ok::<ReplyView, ErrorView>(ReplyView::ClusterConnection(cluster))),
        !cluster.allows(namespace),
    ensures
        standing(applying(obj, namespace, operator_namespace), answers) == (StepView::<
            ApplyStageView,
            ReportView<ResourceStatusView>,
        >::Done(
            concluded(
                obj.metadata.generation,
                Err(not_allowed(namespace, obj.spec.connection.cluster_ref->0@)),
            ),
        )),
    decreases answers.len(),
{
    let task = applying(obj, namespace, operator_namespace);
    if answers.len() == 1 {
        assert(standing(task, answers.drop_last()) == task(0, TurnView::Begin));
    } else {
        a_bucket_that_is_not_allowed_is_reported(
            obj,
            namespace,
            operator_namespace,
            answers.drop_last(),
            cluster,
        );
    }
}

/// In a cluster and on a server that behave, applying a Bucket whose reference
/// leads to a connection brings the bucket in line and reports it as ready.
pub proof fn a_bucket_is_applied(
    obj: Bucket,
    namespace: Seq<char>,
    operator_namespace: Seq<char>,
    world: World,
    info: ConnectionInfoView,
)
    requires
        resolves_to(world, namespace, operator_namespace, obj.spec.connection, info),
    ensures
        leads_to(
            applying(obj, namespace, operator_namespace),
            begun(applying(obj, namespace, operator_namespace), world),
            (Run {
                world: world.with_bucket(
                    effective_name(obj),
                    settled(obj.spec, found(world, effective_name(obj))),
                ),
                log: connect_log(
                    world,
                    namespace,
                    operator_namespace,
                    obj.spec.connection,
                    info,
                ) + visits(effective_name(obj), obj.spec, world),
                step: StepView::Done(concluded(obj.metadata.generation, Ok(()))),
            }),
        ),
{
    let whole = applying(obj, namespace, operator_namespace);
    let conn = obj.spec.connection;
    let name = effective_name(obj);
    let start = begun(whole, world);

    let part = connecting(namespace, operator_namespace, conn);
    let wrap = |stage: ConnectStageView| ApplyStageView::Connecting(stage);
    let lift = |k: nat, step: StepView<ConnectStageView, Seq<char>>| apply_connecting(obj, step);
    let log = connect_log(world, namespace, operator_namespace, conn, info);
    let from = begun(part, world);
    let to = Run { world, log, step: StepView::Done(info.endpoint) };
    a_reference_is_followed(world, namespace, operator_namespace, conn, info);
    a_part_gets_where_it_would_alone(part, whole, seq![], wrap, lift, from, to);
    assert(start.log =~= embedded(seq![], lift, from).log);

    let task = ensuring(name, obj.spec);
    let inner = |stage: BucketStage| ApplyStageView::Ensuring(stage);
    let report = |k: nat, step: StepView<BucketStage, ()>| apply_ensuring(obj, step);
    let begin = begun(task, world);
    let end = Run {
        world: world.with_bucket(name, settled(obj.spec, found(world, name))),
        log: visits(name, obj.spec, world),
        step: StepView::Done(()),
    };
    a_bucket_is_brought_in_line(name, obj.spec, world);
    a_part_gets_where_it_would_alone(task, whole, log, inner, report, begin, end);
    assert(embedded(seq![], lift, to).log =~= embedded(log, report, begin).log);
    leads_to_is_transitive(
        whole,
        start,
        embedded(log, report, begin),
        embedded(log, report, end),
    );
}

/// A bucket is removed exactly where the deletion policy says so.
pub proof fn a_bucket_is_only_removed_where_the_policy_says_so(name: Seq<char>, spec: BucketSpec)
    ensures
        removal(name, spec) is Some <==> spec.deletion_policy is Delete,
        removal(name, spec) matches Some(request) ==> request == (RequestView::DeleteBucket {
            bucket: name,
        }),
{
}

/// Cleaning up after a Bucket that is to be deleted removes the bucket, and
/// changes nothing else.
pub proof fn a_bucket_is_removed(
    obj: Bucket,
    namespace: Seq<char>,
    operator_namespace: Seq<char>,
    world: World,
    info: ConnectionInfoView,
)
    requires
        obj.spec.deletion_policy is Delete,
        resolves_to(world, namespace, operator_namespace, obj.spec.connection, info),
    ensures
        ({
            let task = cleaning_up(
                namespace,
                operator_namespace,
                obj.spec.connection,
                removal(effective_name(obj), obj.spec),
            );
            leads_to(
                task,
                begun(task, world),
                (Run {
                    world: World {
                        buckets: world.buckets.remove(effective_name(obj)),
                        ..world
                    },
                    log: connect_log(
                        world,
                        namespace,
                        operator_namespace,
                        obj.spec.connection,
                        info,
                    ).push(RequestView::DeleteBucket { bucket: effective_name(obj) }),
                    step: StepView::Done(Action::AwaitChange),
                }),
            )
        }),
{
    a_removal_follows_the_connection(
        world,
        namespace,
        operator_namespace,
        obj.spec.connection,
        info,
        RequestView::DeleteBucket { bucket: effective_name(obj) },
    );
}

/// Cleaning up after a Bucket that is to be retained asks for nothing, not even
/// for the connection.
pub proof fn a_retained_bucket_takes_no_request(
    obj: Bucket,
    namespace: Seq<char>,
    operator_namespace: Seq<char>,
    answers: Seq<AnswerView>,
)
    requires
        obj.spec.deletion_policy is Retain,
    ensures
        standing(
            cleaning_up(
                namespace,
                operator_namespace,
                obj.spec.connection,
                removal(effective_name(obj), obj.spec),
            ),
            answers,
        ) == StepView::<CleanupStageView, Action>::Done(Action::AwaitChange),
{
    nothing_to_remove_takes_no_request(
        namespace,
        operator_namespace,
        obj.spec.connection,
        answers,
    );
}

} // verus!
