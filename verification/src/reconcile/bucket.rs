//! Bucket reconciliation.

use vstd::pervasive::unreached;
use vstd::prelude::*;

use crate::connection::{
    connect_step, provider_for, ConnectStage, ConnectStageView, ConnectStepView,
};
use crate::crd::{
    first_set, Bucket, BucketSpec, DeletionPolicy, LifecycleRuleSpec, ResourceStatus,
    ResourceStatusView,
};
use crate::exchange::{
    answer_view, answers, Answer, AnswerView, Reply, ReplyKind, ReplyView, Request, RequestView,
    Step, StepView, Turn, TurnView,
};
use crate::laws::bucket::{
    applying_names_the_bucket_of_the_spec, bucket_of, cleaning_up_names_the_bucket_of_the_spec,
};
use crate::laws::values::is_name;
use crate::lifecycle::{
    lifecycle_eq, LifecycleExpiration, LifecycleExpirationView, LifecycleRule, LifecycleRuleView,
};
use crate::reconcile::{
    cleanup_fits, cleanup_step, concluded, remove, report_error, report_ready, Action, CleanupStage,
    Report, ReportView,
};

verus! {

/// Something about a bucket that a spec can ask for.
#[derive(Clone, Copy, Debug, PartialEq, Eq, Structural)]
pub enum Aspect {
    Existence,
    Versioning,
    Quota,
    Lifecycle,
}

/// How far a bucket has been brought in line. The aspects are looked at in their
/// order.
#[derive(Clone, Copy, Debug, PartialEq, Eq, Structural)]
pub struct BucketStage {
    /// The aspect at hand.
    pub aspect: Aspect,
    /// Whether it is being corrected; else it is being observed.
    pub correcting: bool,
}

impl DeepView for BucketStage {
    type V = BucketStage;

    open spec fn deep_view(&self) -> BucketStage {
        *self
    }
}

impl BucketStage {
    /// The kind of reply that the stage waits for.
    pub open spec fn awaits(self) -> ReplyKind {
        if self.correcting {
            ReplyKind::Done
        } else {
            match self.aspect {
                Aspect::Existence => ReplyKind::Exists,
                Aspect::Versioning => ReplyKind::Versioning,
                Aspect::Quota => ReplyKind::Quota,
                Aspect::Lifecycle => ReplyKind::Lifecycle,
            }
        }
    }
}

/// The wire form of a rule of the spec.
pub open spec fn wire_rule(rule: LifecycleRuleSpec) -> LifecycleRuleView {
    LifecycleRuleView {
        id: rule.id@,
        status: rule.status,
        prefix: rule.prefix.deep_view(),
        tags: None,
        expiration: match rule.expiration_days {
            Some(days) => Some(LifecycleExpirationView { days: Some(days), date: None }),
            None => None,
        },
        transition: None,
        noncurrent_version_expiration: None,
        noncurrent_version_transition: None,
        expired_object_delete_marker: None,
        abort_incomplete_multipart_upload_days: rule.abort_incomplete_multipart_upload_days,
    }
}

/// The wire form of the rules of the spec.
pub open spec fn wire_rules(rules: Seq<LifecycleRuleSpec>) -> Seq<LifecycleRuleView> {
    Seq::new(rules.len(), |i: int| wire_rule(rules[i]))
}

/// Whether the spec manages an aspect. What is unset is unmanaged.
pub open spec fn manages(spec: BucketSpec, aspect: Aspect) -> bool {
    match aspect {
        Aspect::Existence => true,
        Aspect::Versioning => spec.versioning is Some,
        Aspect::Quota => spec.quota_bytes is Some,
        Aspect::Lifecycle => spec.lifecycle is Some,
    }
}

/// The request that observes an aspect of a bucket.
pub open spec fn observation(bucket: Seq<char>, aspect: Aspect) -> RequestView {
    match aspect {
        Aspect::Existence => RequestView::BucketExists { bucket },
        Aspect::Versioning => RequestView::GetVersioning { bucket },
        Aspect::Quota => RequestView::GetBucketQuota { bucket },
        Aspect::Lifecycle => RequestView::GetBucketLifecycle { bucket },
    }
}

/// Whether a managed aspect is as the spec asks, by what was observed.
pub open spec fn in_line(spec: BucketSpec, aspect: Aspect, observed: ReplyView) -> bool {
    match aspect {
        Aspect::Existence => observed->Exists_0,
        Aspect::Versioning => (observed->Versioning_0 == Some(true)) == spec.versioning->0,
        Aspect::Quota => observed->Quota_0 == spec.quota_bytes,
        Aspect::Lifecycle => observed->Lifecycle_0 == wire_rules(spec.lifecycle->0@),
    }
}

/// The request that makes a managed aspect as the spec asks. An empty list of
/// rules is a deletion of the configuration: the server takes no empty one.
pub open spec fn correction(bucket: Seq<char>, spec: BucketSpec, aspect: Aspect) -> RequestView {
    match aspect {
        Aspect::Existence => RequestView::CreateBucket { bucket },
        Aspect::Versioning => RequestView::SetVersioning { bucket, enabled: spec.versioning->0 },
        Aspect::Quota => RequestView::SetBucketQuota { bucket, bytes: spec.quota_bytes->0 },
        Aspect::Lifecycle => if spec.lifecycle->0@.len() == 0 {
            RequestView::DeleteBucketLifecycle { bucket }
        } else {
            RequestView::SetBucketLifecycle { bucket, rules: wire_rules(spec.lifecycle->0@) }
        },
    }
}

/// The managed aspect that comes next after one.
pub open spec fn next_managed(spec: BucketSpec, aspect: Aspect) -> Option<Aspect> {
    if aspect is Existence && manages(spec, Aspect::Versioning) {
        Some(Aspect::Versioning)
    } else if (aspect is Existence || aspect is Versioning) && manages(spec, Aspect::Quota) {
        Some(Aspect::Quota)
    } else if !(aspect is Lifecycle) && manages(spec, Aspect::Lifecycle) {
        Some(Aspect::Lifecycle)
    } else {
        None
    }
}

/// A step on the way to a bucket that is in line, seen as a mathematical value.
pub type BucketStepView = StepView<BucketStage, ()>;

/// Turning to an aspect, or being done where there is none left.
pub open spec fn turn_to(bucket: Seq<char>, aspect: Option<Aspect>) -> BucketStepView {
    match aspect {
        Some(aspect) => StepView::Ask {
            stage: BucketStage { aspect, correcting: false },
            request: observation(bucket, aspect),
        },
        None => StepView::Done(()),
    }
}

/// How bringing a bucket in line begins.
pub open spec fn ensure_first(bucket: Seq<char>) -> BucketStepView {
    turn_to(bucket, Some(Aspect::Existence))
}

/// How bringing a bucket in line goes on from an answer: an error ends it; an
/// aspect that is out of line is corrected; else the next managed one is
/// observed.
pub open spec fn ensure_after(
    bucket: Seq<char>,
    spec: BucketSpec,
    stage: BucketStage,
    answer: AnswerView,
) -> BucketStepView {
    match answer {
        Err(error) => StepView::Failed(error),
        Ok(reply) => if stage.correcting || in_line(spec, stage.aspect, reply) {
            turn_to(bucket, next_managed(spec, stage.aspect))
        } else {
            StepView::Ask {
                stage: BucketStage { aspect: stage.aspect, correcting: true },
                request: correction(bucket, spec, stage.aspect),
            }
        },
    }
}

/// How bringing a bucket in line takes a turn.
pub open spec fn ensure_step(
    bucket: Seq<char>,
    spec: BucketSpec,
    turn: TurnView<BucketStage>,
) -> BucketStepView {
    match turn {
        TurnView::Begin => ensure_first(bucket),
        TurnView::Resume { stage, answer } => ensure_after(bucket, spec, stage, answer),
    }
}

/// Whether a turn can be taken: it is about an aspect that the spec manages, and
/// an answer is of the kind that its stage awaits.
pub open spec fn ensure_fits(spec: BucketSpec, turn: TurnView<BucketStage>) -> bool {
    turn matches TurnView::Resume { stage, answer } ==> manages(spec, stage.aspect) && answers(
        answer,
        stage.awaits(),
    )
}

/// Maps a rule of the spec onto the wire.
pub fn to_rc_rule(spec: &LifecycleRuleSpec) -> (rule: LifecycleRule)
    ensures
        rule.deep_view() == wire_rule(*spec),
{
    LifecycleRule {
        id: spec.id.clone(),
        status: spec.status,
        prefix: spec.prefix.clone(),
        tags: None,
        expiration: match spec.expiration_days {
            Some(days) => Some(LifecycleExpiration { days: Some(days), date: None }),
            None => None,
        },
        transition: None,
        noncurrent_version_expiration: None,
        noncurrent_version_transition: None,
        expired_object_delete_marker: None,
        abort_incomplete_multipart_upload_days: spec.abort_incomplete_multipart_upload_days,
    }
}

/// Maps the rules of the spec onto the wire.
fn to_rc_rules(specs: &Vec<LifecycleRuleSpec>) -> (rules: Vec<LifecycleRule>)
    ensures
        rules.deep_view() == wire_rules(specs@),
{
    let mut rules: Vec<LifecycleRule> = Vec::new();
    for i in 0..specs.len()
        invariant
            rules.deep_view() == wire_rules(specs@.take(i as int)),
    {
        let ghost before = rules.deep_view();
        rules.push(to_rc_rule(&specs[i]));
        assert(rules.deep_view() =~= before.push(wire_rule(specs@[i as int])));
        assert(rules.deep_view() =~= wire_rules(specs@.take(i + 1)));
    }
    assert(specs@.take(specs.len() as int) =~= specs@);
    rules
}

/// Turns to an aspect, or is done where there is none left.
fn observe(bucket: &str, aspect: Option<Aspect>) -> (step: Step<BucketStage, ()>)
    ensures
        step.deep_view() == turn_to(bucket@, aspect),
{
    let bucket = bucket.to_owned();
    match aspect {
        Some(aspect) => Step::Ask {
            stage: BucketStage { aspect, correcting: false },
            request: match aspect {
                Aspect::Existence => Request::BucketExists { bucket },
                Aspect::Versioning => Request::GetVersioning { bucket },
                Aspect::Quota => Request::GetBucketQuota { bucket },
                Aspect::Lifecycle => Request::GetBucketLifecycle { bucket },
            },
        },
        None => Step::Done(()),
    }
}

/// The request that corrects a managed aspect, unless it is in line already.
fn correction_needed(
    bucket: &str,
    spec: &BucketSpec,
    aspect: Aspect,
    observed: Reply,
) -> (request: Option<Request>)
    requires
        manages(*spec, aspect),
        observed.deep_view().kind() == (BucketStage { aspect, correcting: false }).awaits(),
    ensures
        request is None == in_line(*spec, aspect, observed.deep_view()),
        request matches Some(r) ==> r.deep_view() == correction(bucket@, *spec, aspect),
{
    let bucket = bucket.to_owned();
    match (aspect, observed) {
        (Aspect::Existence, Reply::Exists(exists)) => if exists {
            None
        } else {
            Some(Request::CreateBucket { bucket })
        },
        (Aspect::Versioning, Reply::Versioning(state)) => {
            let enabled = spec.versioning.unwrap();
            if state.unwrap_or(false) == enabled {
                None
            } else {
                Some(Request::SetVersioning { bucket, enabled })
            }
        },
        (Aspect::Quota, Reply::Quota(current)) => {
            let bytes = spec.quota_bytes.unwrap();
            let same = match current {
                Some(current) => current == bytes,
                None => false,
            };
            if same {
                None
            } else {
                Some(Request::SetBucketQuota { bucket, bytes })
            }
        },
        (Aspect::Lifecycle, Reply::Lifecycle(current)) => {
            let desired = to_rc_rules(spec.lifecycle.as_ref().unwrap());
            assert(desired.deep_view().len() == desired.len());
            if lifecycle_eq(&current, &desired) {
                None
            } else if desired.is_empty() {
                // "No rules" is a deletion, not an empty configuration: S3
                // rejects the latter.
                Some(Request::DeleteBucketLifecycle { bucket })
            } else {
                Some(Request::SetBucketLifecycle { bucket, rules: desired })
            }
        },
        _ => unreached(),
    }
}

/// The managed aspect that comes next after one.
fn next_aspect(spec: &BucketSpec, aspect: Aspect) -> (next: Option<Aspect>)
    ensures
        next == next_managed(*spec, aspect),
{
    if aspect == Aspect::Existence && spec.versioning.is_some() {
        Some(Aspect::Versioning)
    } else if (aspect == Aspect::Existence || aspect == Aspect::Versioning)
        && spec.quota_bytes.is_some() {
        Some(Aspect::Quota)
    } else if aspect != Aspect::Lifecycle && spec.lifecycle.is_some() {
        Some(Aspect::Lifecycle)
    } else {
        None
    }
}

/// Goes on bringing a bucket in line.
fn resume(
    name: &str,
    spec: &BucketSpec,
    stage: BucketStage,
    answer: Answer,
) -> (step: Step<BucketStage, ()>)
    requires
        answers(answer_view(answer), stage.awaits()),
        manages(*spec, stage.aspect),
    ensures
        step.deep_view() == ensure_after(name@, *spec, stage, answer_view(answer)),
{
    let reply = match answer {
        Ok(reply) => reply,
        Err(error) => return Step::Failed(error),
    };
    if !stage.correcting {
        if let Some(request) = correction_needed(name, spec, stage.aspect, reply) {
            return Step::Ask {
                stage: BucketStage { aspect: stage.aspect, correcting: true },
                request,
            };
        }
    }
    observe(name, next_aspect(spec, stage.aspect))
}

/// Makes the bucket `name` match the spec.
pub fn ensure_bucket(name: &str, spec: &BucketSpec, turn: Turn<BucketStage>) -> (step: Step<
    BucketStage,
    (),
>)
    requires
        ensure_fits(*spec, turn.deep_view()),
    ensures
        step.deep_view() == ensure_step(name@, *spec, turn.deep_view()),
        step.deep_view() matches StepView::Ask { stage, request } ==> manages(*spec, stage.aspect)
            && request.reply_kind() == stage.awaits(),
{
    match turn {
        Turn::Begin => observe(name, Some(Aspect::Existence)),
        Turn::Resume { stage, answer } => resume(name, spec, stage, answer),
    }
}

/// The request that removes the bucket, where the deletion policy asks for it.
pub open spec fn removal(bucket: Seq<char>, spec: BucketSpec) -> Option<RequestView> {
    match spec.deletion_policy {
        DeletionPolicy::Delete => Some(RequestView::DeleteBucket { bucket }),
        DeletionPolicy::Retain => None,
    }
}

/// Asks for the bucket to be removed, if the deletion policy asks for it.
pub fn cleanup_bucket(name: &str, spec: &BucketSpec) -> (request: Option<Request>)
    ensures
        request.deep_view() == removal(name@, *spec),
        request is Some <==> spec.deletion_policy is Delete,
        request matches Some(made) ==> (made matches Request::DeleteBucket { bucket } && bucket@ == name@),
{
    match spec.deletion_policy {
        DeletionPolicy::Delete => Some(Request::DeleteBucket { bucket: name.to_owned() }),
        DeletionPolicy::Retain => None,
    }
}

/// How far applying a Bucket has come.
#[derive(Clone, Debug, PartialEq, Eq)]
pub enum ApplyStage {
    /// The server is being connected to.
    Connecting(ConnectStage),
    /// The bucket is being brought in line.
    Ensuring(BucketStage),
}

/// An [`ApplyStage`], seen as a mathematical value.
pub enum ApplyStageView {
    Connecting(ConnectStageView),
    Ensuring(BucketStage),
}

impl DeepView for ApplyStage {
    type V = ApplyStageView;

    open spec fn deep_view(&self) -> ApplyStageView {
        match self {
            ApplyStage::Connecting(stage) => ApplyStageView::Connecting(stage.deep_view()),
            ApplyStage::Ensuring(stage) => ApplyStageView::Ensuring(*stage),
        }
    }
}

impl ApplyStageView {
    /// The kind of reply that the stage waits for.
    pub open spec fn awaits(self) -> ReplyKind {
        match self {
            ApplyStageView::Connecting(stage) => stage.awaits(),
            ApplyStageView::Ensuring(stage) => stage.awaits(),
        }
    }
}

/// A step of applying a Bucket, seen as a mathematical value.
pub type ApplyStepView = StepView<ApplyStageView, ReportView<ResourceStatusView>>;

/// The name of the bucket in RustFS.
pub open spec fn effective_name(obj: Bucket) -> Seq<char> {
    first_set(obj.spec.bucket_name, obj.metadata.name)
}

/// Applying while the bucket is brought in line: the end of that is reported.
pub open spec fn apply_ensuring(obj: Bucket, step: BucketStepView) -> ApplyStepView {
    match step {
        StepView::Ask { stage, request } => StepView::Ask {
            stage: ApplyStageView::Ensuring(stage),
            request,
        },
        StepView::Done(()) => StepView::Done(concluded(obj.metadata.generation, Ok(()))),
        StepView::Failed(error) => StepView::Done(concluded(obj.metadata.generation, Err(error))),
    }
}

/// Applying while connecting: the bucket is looked at once there is a
/// connection, and a failure is reported.
pub open spec fn apply_connecting(obj: Bucket, step: ConnectStepView) -> ApplyStepView {
    match step {
        StepView::Ask { stage, request } => StepView::Ask {
            stage: ApplyStageView::Connecting(stage),
            request,
        },
        StepView::Done(_) => apply_ensuring(
            obj,
            ensure_step(effective_name(obj), obj.spec, TurnView::Begin),
        ),
        StepView::Failed(error) => StepView::Done(concluded(obj.metadata.generation, Err(error))),
    }
}

/// How applying a Bucket takes a turn.
pub open spec fn apply_step(
    obj: Bucket,
    namespace: Seq<char>,
    operator_namespace: Seq<char>,
    turn: TurnView<ApplyStageView>,
) -> ApplyStepView {
    match turn {
        TurnView::Begin => apply_connecting(
            obj,
            connect_step(namespace, operator_namespace, obj.spec.connection, TurnView::Begin),
        ),
        TurnView::Resume {
            stage: ApplyStageView::Connecting(stage),
            answer,
        } => apply_connecting(
            obj,
            connect_step(
                namespace,
                operator_namespace,
                obj.spec.connection,
                TurnView::Resume { stage, answer },
            ),
        ),
        TurnView::Resume { stage: ApplyStageView::Ensuring(stage), answer } => apply_ensuring(
            obj,
            ensure_step(effective_name(obj), obj.spec, TurnView::Resume { stage, answer }),
        ),
    }
}

/// Whether a turn can be taken: an aspect at hand is one that the spec manages,
/// and an answer is of the kind that its stage awaits.
pub open spec fn apply_fits(obj: Bucket, turn: TurnView<ApplyStageView>) -> bool {
    turn matches TurnView::Resume { stage, answer } ==> {
        &&& stage matches ApplyStageView::Ensuring(inner) ==> manages(obj.spec, inner.aspect)
        &&& answers(answer, stage.awaits())
    }
}

/// Reports how bringing the bucket in line goes.
fn report_ensuring(obj: &Bucket, step: Step<BucketStage, ()>) -> (lifted: Step<
    ApplyStage,
    Report<ResourceStatus>,
>)
    ensures
        lifted.deep_view() == apply_ensuring(*obj, step.deep_view()),
{
    match step {
        Step::Ask { stage, request } => Step::Ask { stage: ApplyStage::Ensuring(stage), request },
        Step::Done(()) => Step::Done(report_ready(obj.metadata.generation)),
        Step::Failed(error) => Step::Done(report_error(obj.metadata.generation, error)),
    }
}

/// Applies a Bucket in `namespace`: connects to the server that it selects,
/// brings the bucket in line, and reports how that went.
pub fn apply(
    obj: &Bucket,
    namespace: &str,
    operator_namespace: &str,
    turn: Turn<ApplyStage>,
) -> (step: Step<ApplyStage, Report<ResourceStatus>>)
    requires
        apply_fits(*obj, turn.deep_view()),
    ensures
        step.deep_view() == apply_step(*obj, namespace@, operator_namespace@, turn.deep_view()),
        step !is Failed,
        step.deep_view() matches StepView::Ask { stage, request } ==> {
            &&& stage matches ApplyStageView::Ensuring(inner) ==> manages(obj.spec, inner.aspect)
            &&& request.reply_kind() == stage.awaits()
        },
        step.deep_view() matches StepView::Ask { request, .. } ==> (bucket_of(request) matches Some(
            bucket,
        ) ==> is_name(bucket, obj.spec.bucket_name, obj.metadata.name)),
{
    proof {
        applying_names_the_bucket_of_the_spec(
            *obj,
            namespace@,
            operator_namespace@,
            turn.deep_view(),
        );
    }
    let connecting = match turn {
        Turn::Begin => Turn::Begin,
        Turn::Resume { stage: ApplyStage::Connecting(stage), answer } => Turn::Resume {
            stage,
            answer,
        },
        Turn::Resume { stage: ApplyStage::Ensuring(stage), answer } => return report_ensuring(
            obj,
            ensure_bucket(obj.bucket_name(), &obj.spec, Turn::Resume { stage, answer }),
        ),
    };
    match provider_for(namespace, operator_namespace, &obj.spec.connection, connecting) {
        Step::Ask { stage, request } => Step::Ask { stage: ApplyStage::Connecting(stage), request },
        Step::Done(_) => report_ensuring(
            obj,
            ensure_bucket(obj.bucket_name(), &obj.spec, Turn::Begin),
        ),
        Step::Failed(error) => Step::Done(report_error(obj.metadata.generation, error)),
    }
}

/// Cleans up after a deleted Bucket in `namespace`.
pub fn cleanup(
    obj: &Bucket,
    namespace: &str,
    operator_namespace: &str,
    turn: Turn<CleanupStage>,
) -> (step: Step<CleanupStage, Action>)
    requires
        cleanup_fits(turn.deep_view()),
    ensures
        step.deep_view() == cleanup_step(
            namespace@,
            operator_namespace@,
            obj.spec.connection,
            removal(effective_name(*obj), obj.spec),
            turn.deep_view(),
        ),
        step.deep_view() matches StepView::Ask { stage, request } ==> request.reply_kind()
            == stage.awaits(),
        step.deep_view() matches StepView::Ask { request, .. } ==> (bucket_of(request) matches Some(
            bucket,
        ) ==> {
            &&& request is DeleteBucket
            &&& is_name(bucket, obj.spec.bucket_name, obj.metadata.name)
            &&& obj.spec.deletion_policy is Delete
        }),
        turn is Begin && obj.spec.deletion_policy is Retain ==> step is Done,
{
    proof {
        cleaning_up_names_the_bucket_of_the_spec(
            *obj,
            namespace@,
            operator_namespace@,
            turn.deep_view(),
        );
    }
    remove(
        namespace,
        operator_namespace,
        &obj.spec.connection,
        cleanup_bucket(obj.bucket_name(), &obj.spec),
        turn,
    )
}

} // verus!
