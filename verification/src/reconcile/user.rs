//! IAM user reconciliation.

use vstd::pervasive::unreached;
use vstd::prelude::*;

use crate::connection::{
    connect_step, key_request, key_text, provider_for, secret_key_request, secret_key_value,
    ConnectStage, ConnectStageView, ConnectStepView,
};
use crate::crd::{first_set, DeletionPolicy, ResourceStatus, ResourceStatusView, User, UserSpec};
use crate::exchange::{
    answers, Reply, ReplyKind, Request, RequestView, Step, StepView, Turn, TurnView, UserStatus,
};
use crate::laws::user::{
    applying_names_the_user_of_the_spec, cleaning_up_names_the_user_of_the_spec, user_of,
};
use crate::laws::values::is_name;
use crate::reconcile::{
    cleanup_fits, cleanup_step, concluded, remove, report_error, report_ready, Action, CleanupStage,
    Report, ReportView,
};
use crate::text::{in_order, ordered_set, same_list};

verus! {

/// The pieces of a text between its commas.
pub open spec fn comma_parts(text: Seq<char>) -> Seq<Seq<char>>
    decreases text.len(),
{
    if text.len() == 0 {
        seq![text]
    } else {
        let parts = comma_parts(text.drop_first());
        if text[0] == ',' {
            seq![Seq::empty()] + parts
        } else {
            parts.update(0, seq![text[0]] + parts[0])
        }
    }
}

/// The characters with the Unicode property `White_Space`.
pub open spec fn is_white_space(c: char) -> bool {
    ||| '\u{9}' <= c <= '\u{d}'
    ||| c == ' ' || c == '\u{85}' || c == '\u{a0}' || c == '\u{1680}'
    ||| '\u{2000}' <= c <= '\u{200a}'
    ||| c == '\u{2028}' || c == '\u{2029}' || c == '\u{202f}' || c == '\u{205f}' || c == '\u{3000}'
}

/// A text without the white space that it starts with.
pub open spec fn trim_start(text: Seq<char>) -> Seq<char>
    decreases text.len(),
{
    if text.len() > 0 && is_white_space(text[0]) {
        trim_start(text.drop_first())
    } else {
        text
    }
}

/// A text without the white space that it ends in.
pub open spec fn trim_end(text: Seq<char>) -> Seq<char>
    decreases text.len(),
{
    if text.len() > 0 && is_white_space(text.last()) {
        trim_end(text.drop_last())
    } else {
        text
    }
}

/// The policies that a user's list of policy names attaches.
pub open spec fn attached(policy_name: Option<Seq<char>>) -> Seq<Seq<char>> {
    match policy_name {
        Some(names) => comma_parts(names).map_values(|part: Seq<char>| trim_end(trim_start(part))),
        None => Seq::empty(),
    }
}

/// Calls `rc_core::admin::User::policies` on a user with the given policy names.
/// It splits them at each comma and trims white space off the pieces; without
/// policy names there is no piece.
#[verifier::external_body]
fn attached_policies(policy_name: &Option<String>) -> (policies: Vec<String>)
    ensures
        policies.deep_view() == attached(policy_name.deep_view()),
{
    let mut user = rc_core::admin::User::new("");
    user.policy_name = policy_name.clone();
    user.policies()
}

/// How far a user has been brought in line.
#[derive(Clone, Debug, PartialEq, Eq)]
pub enum UserStage {
    /// The user is being looked up.
    Observing,
    /// The user is being created.
    Creating,
    /// The user is being enabled or disabled; these policies are attached.
    SettingStatus { attached: Vec<String> },
    /// The attached policies are being replaced.
    SettingPolicies,
}

/// A [`UserStage`], seen as a mathematical value.
pub enum UserStageView {
    Observing,
    Creating,
    SettingStatus { attached: Seq<Seq<char>> },
    SettingPolicies,
}

impl DeepView for UserStage {
    type V = UserStageView;

    open spec fn deep_view(&self) -> UserStageView {
        match self {
            UserStage::Observing => UserStageView::Observing,
            UserStage::Creating => UserStageView::Creating,
            UserStage::SettingStatus { attached } => UserStageView::SettingStatus {
                attached: attached.deep_view(),
            },
            UserStage::SettingPolicies => UserStageView::SettingPolicies,
        }
    }
}

impl UserStageView {
    /// The kind of reply that the stage waits for.
    pub open spec fn awaits(self) -> ReplyKind {
        match self {
            UserStageView::Observing => ReplyKind::User,
            _ => ReplyKind::Done,
        }
    }
}

/// A step on the way to a user that is in line, seen as a mathematical value.
pub type UserStepView = StepView<UserStageView, ()>;

/// The policies that the spec asks for, as a set.
pub open spec fn desired_policies(spec: UserSpec) -> Set<Seq<char>> {
    spec.policies.deep_view().to_set()
}

/// Bringing the attached policies in line: where they are not the desired ones,
/// the whole set is replaced, in ascending order.
pub open spec fn settle_policies(
    username: Seq<char>,
    spec: UserSpec,
    attached: Seq<Seq<char>>,
) -> UserStepView {
    if attached.to_set() == desired_policies(spec) {
        StepView::Done(())
    } else {
        StepView::Ask {
            stage: UserStageView::SettingPolicies,
            request: RequestView::SetUserPolicies {
                username,
                policies: in_order(desired_policies(spec)),
            },
        }
    }
}

/// Bringing an existing user in line: first the status, then the policies.
pub open spec fn settle(
    username: Seq<char>,
    spec: UserSpec,
    enabled: bool,
    attached: Seq<Seq<char>>,
) -> UserStepView {
    if enabled != spec.enabled {
        StepView::Ask {
            stage: UserStageView::SettingStatus { attached },
            request: RequestView::SetUserStatus { username, enabled: spec.enabled },
        }
    } else {
        settle_policies(username, spec, attached)
    }
}

/// How bringing a user in line takes a turn: an error ends it; a user that is
/// not there is created, which leaves it enabled and without policies; one that
/// is there is brought in line as it is.
pub open spec fn ensure_step(
    username: Seq<char>,
    password: Seq<char>,
    spec: UserSpec,
    turn: TurnView<UserStageView>,
) -> UserStepView {
    match turn {
        TurnView::Begin => StepView::Ask {
            stage: UserStageView::Observing,
            request: RequestView::GetUser { username },
        },
        TurnView::Resume { stage, answer } => match answer {
            Err(error) => StepView::Failed(error),
            Ok(reply) => match stage {
                UserStageView::Observing => match reply->User_0 {
                    Some(user) => settle(
                        username,
                        spec,
                        user.status is Enabled,
                        attached(user.policy_name),
                    ),
                    None => StepView::Ask {
                        stage: UserStageView::Creating,
                        request: RequestView::CreateUser { username, password },
                    },
                },
                UserStageView::Creating => settle(username, spec, true, Seq::empty()),
                UserStageView::SettingStatus { attached } => settle_policies(
                    username,
                    spec,
                    attached,
                ),
                UserStageView::SettingPolicies => StepView::Done(()),
            },
        },
    }
}

/// Whether a turn can be taken: an answer is of the kind that its stage awaits.
pub open spec fn ensure_fits(turn: TurnView<UserStageView>) -> bool {
    turn matches TurnView::Resume { stage, answer } ==> answers(answer, stage.awaits())
}

/// Brings the attached policies in line.
fn set_policies(username: &str, spec: &UserSpec, attached: &Vec<String>) -> (step: Step<
    UserStage,
    (),
>)
    ensures
        step.deep_view() == settle_policies(username@, *spec, attached.deep_view()),
{
    let desired = ordered_set(&spec.policies);
    let current = ordered_set(attached);
    if same_list(&desired, &current) {
        Step::Done(())
    } else {
        // The server replaces the whole attachment set.
        Step::Ask {
            stage: UserStage::SettingPolicies,
            request: Request::SetUserPolicies { username: username.to_owned(), policies: desired },
        }
    }
}

/// Brings an existing user in line.
fn set_status(username: &str, spec: &UserSpec, enabled: bool, attached: Vec<String>) -> (step: Step<
    UserStage,
    (),
>)
    ensures
        step.deep_view() == settle(username@, *spec, enabled, attached.deep_view()),
{
    if enabled != spec.enabled {
        Step::Ask {
            stage: UserStage::SettingStatus { attached },
            request: Request::SetUserStatus {
                username: username.to_owned(),
                enabled: spec.enabled,
            },
        }
    } else {
        set_policies(username, spec, &attached)
    }
}

/// Makes the RustFS user match the spec. `password` is only used when the user
/// does not exist yet; RustFS cannot update passwords in place.
pub fn ensure_user(username: &str, password: &str, spec: &UserSpec, turn: Turn<UserStage>) -> (step:
    Step<UserStage, ()>)
    requires
        ensure_fits(turn.deep_view()),
    ensures
        step.deep_view() == ensure_step(username@, password@, *spec, turn.deep_view()),
        step.deep_view() matches StepView::Ask { stage, request } ==> request.reply_kind()
            == stage.awaits(),
{
    let (stage, answer) = match turn {
        Turn::Begin => return Step::Ask {
            stage: UserStage::Observing,
            request: Request::GetUser { username: username.to_owned() },
        },
        Turn::Resume { stage, answer } => (stage, answer),
    };
    let reply = match answer {
        Ok(reply) => reply,
        Err(error) => return Step::Failed(error),
    };
    match stage {
        UserStage::Observing => match reply {
            Reply::User(Some(user)) => {
                let enabled = user.status == UserStatus::Enabled;
                set_status(username, spec, enabled, attached_policies(&user.policy_name))
            },
            Reply::User(None) => Step::Ask {
                stage: UserStage::Creating,
                request: Request::CreateUser {
                    username: username.to_owned(),
                    password: password.to_owned(),
                },
            },
            _ => unreached(),
        },
        UserStage::Creating => {
            let none: Vec<String> = Vec::new();
            assert(none.deep_view() =~= Seq::empty());
            set_status(username, spec, true, none)
        },
        UserStage::SettingStatus { attached } => set_policies(username, spec, &attached),
        UserStage::SettingPolicies => Step::Done(()),
    }
}

/// The request that removes the user, where the deletion policy asks for it.
pub open spec fn removal(username: Seq<char>, spec: UserSpec) -> Option<RequestView> {
    match spec.deletion_policy {
        DeletionPolicy::Delete => Some(RequestView::DeleteUser { username }),
        DeletionPolicy::Retain => None,
    }
}

/// Asks for the user to be removed, if the deletion policy asks for it.
pub fn cleanup_user(username: &str, spec: &UserSpec) -> (request: Option<Request>)
    ensures
        request.deep_view() == removal(username@, *spec),
        request is Some <==> spec.deletion_policy is Delete,
        request matches Some(made) ==> (made matches Request::DeleteUser { username: removed } && removed@ == username@),
{
    match spec.deletion_policy {
        DeletionPolicy::Delete => Some(Request::DeleteUser { username: username.to_owned() }),
        DeletionPolicy::Retain => None,
    }
}

/// How far applying a User has come.
#[derive(Clone, Debug, PartialEq, Eq)]
pub enum ApplyStage {
    /// The Secret with the password is being read.
    ReadingPassword,
    /// The server is being connected to.
    Connecting { password: String, stage: ConnectStage },
    /// The user is being brought in line.
    Ensuring { password: String, stage: UserStage },
}

/// An [`ApplyStage`], seen as a mathematical value.
pub enum ApplyStageView {
    ReadingPassword,
    Connecting { password: Seq<char>, stage: ConnectStageView },
    Ensuring { password: Seq<char>, stage: UserStageView },
}

impl DeepView for ApplyStage {
    type V = ApplyStageView;

    open spec fn deep_view(&self) -> ApplyStageView {
        match self {
            ApplyStage::ReadingPassword => ApplyStageView::ReadingPassword,
            ApplyStage::Connecting { password, stage } => ApplyStageView::Connecting {
                password: password@,
                stage: stage.deep_view(),
            },
            ApplyStage::Ensuring { password, stage } => ApplyStageView::Ensuring {
                password: password@,
                stage: stage.deep_view(),
            },
        }
    }
}

impl ApplyStageView {
    /// The kind of reply that the stage waits for.
    pub open spec fn awaits(self) -> ReplyKind {
        match self {
            ApplyStageView::ReadingPassword => ReplyKind::Secret,
            ApplyStageView::Connecting { stage, .. } => stage.awaits(),
            ApplyStageView::Ensuring { stage, .. } => stage.awaits(),
        }
    }
}

/// A step of applying a User, seen as a mathematical value.
pub type ApplyStepView = StepView<ApplyStageView, ReportView<ResourceStatusView>>;

/// The name of the user in RustFS.
pub open spec fn effective_name(obj: User) -> Seq<char> {
    first_set(obj.spec.username, obj.metadata.name)
}

/// Applying while the user is brought in line: the end of that is reported.
pub open spec fn apply_ensuring(
    obj: User,
    password: Seq<char>,
    step: UserStepView,
) -> ApplyStepView {
    match step {
        StepView::Ask { stage, request } => StepView::Ask {
            stage: ApplyStageView::Ensuring { password, stage },
            request,
        },
        StepView::Done(()) => StepView::Done(concluded(obj.metadata.generation, Ok(()))),
        StepView::Failed(error) => StepView::Done(concluded(obj.metadata.generation, Err(error))),
    }
}

/// Applying while connecting: the user is looked at once there is a connection,
/// and a failure is reported.
pub open spec fn apply_connecting(
    obj: User,
    password: Seq<char>,
    step: ConnectStepView,
) -> ApplyStepView {
    match step {
        StepView::Ask { stage, request } => StepView::Ask {
            stage: ApplyStageView::Connecting { password, stage },
            request,
        },
        StepView::Done(_) => apply_ensuring(
            obj,
            password,
            ensure_step(effective_name(obj), password, obj.spec, TurnView::Begin),
        ),
        StepView::Failed(error) => StepView::Done(concluded(obj.metadata.generation, Err(error))),
    }
}

/// How applying a User takes a turn: the password is read first, then the server
/// is connected to, then the user is brought in line.
pub open spec fn apply_step(
    obj: User,
    namespace: Seq<char>,
    operator_namespace: Seq<char>,
    turn: TurnView<ApplyStageView>,
) -> ApplyStepView {
    let conn = obj.spec.connection;
    match turn {
        TurnView::Begin => StepView::Ask {
            stage: ApplyStageView::ReadingPassword,
            request: key_request(namespace, obj.spec.password_ref),
        },
        TurnView::Resume { stage, answer } => match stage {
            ApplyStageView::ReadingPassword => match key_text(
                namespace,
                obj.spec.password_ref,
                "password"@,
                answer,
            ) {
                Ok(password) => apply_connecting(
                    obj,
                    password,
                    connect_step(namespace, operator_namespace, conn, TurnView::Begin),
                ),
                Err(error) => StepView::Done(concluded(obj.metadata.generation, Err(error))),
            },
            ApplyStageView::Connecting { password, stage } => apply_connecting(
                obj,
                password,
                connect_step(
                    namespace,
                    operator_namespace,
                    conn,
                    TurnView::Resume { stage, answer },
                ),
            ),
            ApplyStageView::Ensuring { password, stage } => apply_ensuring(
                obj,
                password,
                ensure_step(
                    effective_name(obj),
                    password,
                    obj.spec,
                    TurnView::Resume { stage, answer },
                ),
            ),
        },
    }
}

/// Whether a turn can be taken: an answer is of the kind that its stage awaits.
pub open spec fn apply_fits(turn: TurnView<ApplyStageView>) -> bool {
    turn matches TurnView::Resume { stage, answer } ==> answers(answer, stage.awaits())
}

/// Reports how bringing the user in line goes.
fn report_ensuring(obj: &User, password: String, step: Step<UserStage, ()>) -> (lifted: Step<
    ApplyStage,
    Report<ResourceStatus>,
>)
    ensures
        lifted.deep_view() == apply_ensuring(*obj, password@, step.deep_view()),
{
    match step {
        Step::Ask { stage, request } => Step::Ask {
            stage: ApplyStage::Ensuring { password, stage },
            request,
        },
        Step::Done(()) => Step::Done(report_ready(obj.metadata.generation)),
        Step::Failed(error) => Step::Done(report_error(obj.metadata.generation, error)),
    }
}

/// Applies a User in `namespace`: reads the password, connects to the server
/// that the resource selects, brings the user in line, and reports how that
/// went.
pub fn apply(
    obj: &User,
    namespace: &str,
    operator_namespace: &str,
    turn: Turn<ApplyStage>,
) -> (step: Step<ApplyStage, Report<ResourceStatus>>)
    requires
        apply_fits(turn.deep_view()),
    ensures
        step.deep_view() == apply_step(*obj, namespace@, operator_namespace@, turn.deep_view()),
        step !is Failed,
        step.deep_view() matches StepView::Ask { stage, request } ==> request.reply_kind()
            == stage.awaits(),
        step.deep_view() matches StepView::Ask { request, .. } ==> (user_of(request) matches Some(
            username,
        ) ==> is_name(username, obj.spec.username, obj.metadata.name)),
{
    proof {
        applying_names_the_user_of_the_spec(
            *obj,
            namespace@,
            operator_namespace@,
            turn.deep_view(),
        );
    }
    let (stage, answer) = match turn {
        Turn::Begin => return Step::Ask {
            stage: ApplyStage::ReadingPassword,
            request: secret_key_request(namespace, &obj.spec.password_ref),
        },
        Turn::Resume { stage, answer } => (stage, answer),
    };
    let (password, connecting) = match stage {
        ApplyStage::ReadingPassword => match secret_key_value(
            namespace,
            &obj.spec.password_ref,
            "password",
            answer,
        ) {
            Ok(password) => (password, Turn::Begin),
            Err(error) => return Step::Done(report_error(obj.metadata.generation, error)),
        },
        ApplyStage::Connecting { password, stage } => (password, Turn::Resume { stage, answer }),
        ApplyStage::Ensuring { password, stage } => {
            let step = ensure_user(
                obj.username(),
                password.as_str(),
                &obj.spec,
                Turn::Resume { stage, answer },
            );
            return report_ensuring(obj, password, step);
        },
    };
    match provider_for(namespace, operator_namespace, &obj.spec.connection, connecting) {
        Step::Ask { stage, request } => Step::Ask {
            stage: ApplyStage::Connecting { password, stage },
            request,
        },
        Step::Done(_) => {
            let step = ensure_user(obj.username(), password.as_str(), &obj.spec, Turn::Begin);
            report_ensuring(obj, password, step)
        },
        Step::Failed(error) => Step::Done(report_error(obj.metadata.generation, error)),
    }
}

/// Cleans up after a deleted User in `namespace`.
pub fn cleanup(
    obj: &User,
    namespace: &str,
    operator_namespace: &str,
    turn: Turn<CleanupStage>,
) -> (step: Step<CleanupStage, Action>)
    requires
        cleanup_fits(turn.deep_view()),
    ensures
        step.deep_view() == cleanup_step(
            namespace@,
            operator_namespace@,
            obj.spec.connection,
            removal(effective_name(*obj), obj.spec),
            turn.deep_view(),
        ),
        step.deep_view() matches StepView::Ask { stage, request } ==> request.reply_kind()
            == stage.awaits(),
        step.deep_view() matches StepView::Ask { request, .. } ==> (user_of(request) matches Some(
            username,
        ) ==> {
            &&& request is DeleteUser
            &&& is_name(username, obj.spec.username, obj.metadata.name)
            &&& obj.spec.deletion_policy is Delete
        }),
        turn is Begin && obj.spec.deletion_policy is Retain ==> step is Done,
{
    proof {
        cleaning_up_names_the_user_of_the_spec(
            *obj,
            namespace@,
            operator_namespace@,
            turn.deep_view(),
        );
    }
    remove(
        namespace,
        operator_namespace,
        &obj.spec.connection,
        cleanup_user(obj.username(), &obj.spec),
        turn,
    )
}

} // verus!
