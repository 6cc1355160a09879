//! What bringing a user in line achieves, and what it leaves alone.

use vstd::prelude::*;

use crate::connection::{key_request, key_text, ConnectStageView};
use crate::crd::{ClusterConnectionView, ResourceStatusView, User, UserSpec};
use crate::error::ErrorView;
use crate::exchange::{
    AnswerView, ConnectionInfoView, RemoteUserView, ReplyView, RequestView, StepView, TurnView,
    UserStatus,
};
use crate::laws::cleanup::{
    a_removal_follows_the_connection, cleaning_up, nothing_to_remove_takes_no_request,
};
use crate::laws::connection::{
    a_reference_is_followed, connect_log, connecting, names_text, not_allowed, resolves_to,
};
use crate::laws::values::{is_name, tells_error, tells_success};
use crate::model::{
    a_part_gets_where_it_would_alone, a_part_stands_where_it_would_alone, advanced, begun,
    comma_separated, earlier_answers_stay, embedded, leads_one_further, leads_to,
    leads_to_is_reflexive, leads_to_is_transitive, policy_names, standing, Run, Task, UserState,
    World,
};
use crate::reconcile::user::{
    apply_connecting, apply_ensuring, apply_step, attached, comma_parts, desired_policies,
    effective_name, ensure_step, is_white_space, removal, settle, settle_policies, trim_end,
    trim_start, ApplyStageView, UserStageView,
};
use crate::reconcile::{cleanup_step, concluded, Action, CleanupStageView, ReportView};
use crate::text::{any_list_can_be_put_in_order, in_order, precedes};

verus! {

/// The task of bringing a user in line.
pub open spec fn ensuring(
    username: Seq<char>,
    password: Seq<char>,
    spec: UserSpec,
) -> Task<UserStageView, ()> {
    |count: nat, turn: TurnView<UserStageView>| ensure_step(username, password, spec, turn)
}

/// What holds of every step.
spec fn sound(
    name: Seq<char>,
    key: Seq<char>,
    spec: UserSpec,
    answers: Seq<AnswerView>,
    step: StepView<UserStageView, ()>,
) -> bool {
    step matches StepView::Ask { stage, request } ==> match stage {
        UserStageView::Observing => {
            &&& answers.len() == 0
            &&& request == (RequestView::GetUser { username: name })
        },
        UserStageView::Creating => {
            &&& answers.len() == 1
            &&& answers[0] matches Ok(reply) && reply->User_0 is None
            &&& request == (RequestView::CreateUser { username: name, password: key })
        },
        UserStageView::SettingStatus { .. } => {
            &&& 1 <= answers.len() <= 2
            &&& request == (RequestView::SetUserStatus { username: name, enabled: spec.enabled })
        },
        UserStageView::SettingPolicies => {
            &&& 1 <= answers.len() <= 3
            &&& request == (RequestView::SetUserPolicies {
                username: name,
                policies: in_order(desired_policies(spec)),
            })
        },
    }
}

proof fn every_step_is_sound(
    username: Seq<char>,
    password: Seq<char>,
    spec: UserSpec,
    answers: Seq<AnswerView>,
)
    ensures
        sound(
            username,
            password,
            spec,
            answers,
            standing(ensuring(username, password, spec), answers),
        ),
    decreases answers.len(),
{
    if answers.len() > 0 {
        every_step_is_sound(username, password, spec, answers.drop_last());
    }
}

/// Whatever the answers are, the password is only sent to create the user, and
/// the user is only created after it has been found not to exist.
pub proof fn a_password_is_only_set_at_creation(
    username: Seq<char>,
    password: Seq<char>,
    spec: UserSpec,
    answers: Seq<AnswerView>,
)
    ensures
        standing(ensuring(username, password, spec), answers) matches StepView::Ask {
            request,
            ..
        } ==> match request {
            RequestView::CreateUser { username: name, password: key } => {
                &&& name == username && key == password
                &&& answers.len() == 1
                &&& answers[0] matches Ok(reply) && reply->User_0 is None
            },
            RequestView::GetUser { username: name } => name == username,
            RequestView::SetUserStatus { username: name, .. } => name == username,
            RequestView::SetUserPolicies { username: name, .. } => name == username,
            _ => false,
        },
{
    every_step_is_sound(username, password, spec, answers);
}

/// Whether a spec lists a policy.
pub open spec fn lists(spec: UserSpec, policy: Seq<char>) -> bool {
    exists|i: int| 0 <= i < spec.policies@.len() && #[trigger] spec.policies@[i]@ == policy
}

/// The policies that a spec asks for are those that it lists.
pub proof fn the_policies_are_those_listed(spec: UserSpec, policy: Seq<char>)
    ensures
        desired_policies(spec).contains(policy) <==> lists(spec, policy),
{
    let names = spec.policies.deep_view();
    if names.contains(policy) {
        let i = choose|i: int| 0 <= i < names.len() && names[i] == policy;
        assert(spec.policies@[i]@ == policy);
    }
    if lists(spec, policy) {
        let i = choose|i: int|
            0 <= i < spec.policies@.len() && #[trigger] spec.policies@[i]@ == policy;
        assert(names[i] == policy);
    }
}

/// Whatever the answers are, the status that is set is the one of the spec, and
/// the policies that are set are those that the spec lists: all of them, no
/// others, each once, in ascending order.
pub proof fn what_is_set_is_what_the_spec_says(
    username: Seq<char>,
    password: Seq<char>,
    spec: UserSpec,
    answers: Seq<AnswerView>,
)
    ensures
        standing(ensuring(username, password, spec), answers) matches StepView::Ask {
            request,
            ..
        } ==> match request {
            RequestView::SetUserStatus { username: name, enabled } => {
                &&& name == username
                &&& enabled == spec.enabled
            },
            RequestView::SetUserPolicies { username: name, policies } => {
                &&& name == username
                &&& forall|policy: Seq<char>| #[trigger]
                    policies.contains(policy) <==> lists(spec, policy)
                &&& forall|i: int, j: int|
                    0 <= i < j < policies.len() ==> #[trigger] precedes(policies[i], policies[j])
            },
            _ => true,
        },
{
    every_step_is_sound(username, password, spec, answers);
    any_list_can_be_put_in_order(spec.policies.deep_view());
    let ordered = in_order(desired_policies(spec));
    assert forall|policy: Seq<char>| #[trigger] ordered.contains(policy) <==> lists(
        spec,
        policy,
    ) by {
        the_policies_are_those_listed(spec, policy);
        assert(ordered.to_set().contains(policy) <==> ordered.contains(policy));
    }
}

/// What follows the lookup of a user that exists: its status is set where it is
/// not the one of the spec; else its policies are set where they are not those
/// that the spec lists; else there is nothing to do. A user that does not exist
/// is created with the password.
pub proof fn a_user_is_compared_with_the_spec(
    username: Seq<char>,
    password: Seq<char>,
    spec: UserSpec,
    user: RemoteUserView,
)
    ensures
        ({
            let task = ensuring(username, password, spec);
            let step = standing(task, seq![Ok(ReplyView::User(Some(user)))]);
            let missing = standing(task, seq![Ok(ReplyView::User(None))]);
            let same = forall|policy: Seq<char>| #[trigger]
                attached(user.policy_name).contains(policy) <==> lists(spec, policy);
            &&& standing(task, seq![]) matches StepView::Ask { request, .. } && request == (
            RequestView::GetUser { username })
            &&& missing matches StepView::Ask { request, .. } && request == (
            RequestView::CreateUser { username, password })
            &&& spec.enabled != (user.status is Enabled) ==> {
                &&& step matches StepView::Ask { request, .. }
                &&& request == (RequestView::SetUserStatus { username, enabled: spec.enabled })
            }
            &&& spec.enabled == (user.status is Enabled) && same ==> step == (StepView::<
                UserStageView,
                (),
            >::Done(()))
            &&& spec.enabled == (user.status is Enabled) && !same ==> {
                &&& step matches StepView::Ask { request, .. }
                &&& request is SetUserPolicies
            }
        }),
{
    let task = ensuring(username, password, spec);
    let some: AnswerView = Ok(ReplyView::User(Some(user)));
    let none: AnswerView = Ok(ReplyView::User(None));
    assert(seq![some].drop_last() =~= seq![]);
    assert(seq![none].drop_last() =~= seq![]);
    assert(standing(task, seq![]) == task(0, TurnView::Begin));
    lemma_same_policies(spec, attached(user.policy_name));
}

/// A list has the desired policies exactly if it has those that the spec lists.
proof fn lemma_same_policies(spec: UserSpec, policies: Seq<Seq<char>>)
    ensures
        policies.to_set() == desired_policies(spec) <==> forall|policy: Seq<char>| #[trigger]
            policies.contains(policy) <==> lists(spec, policy),
{
    assert forall|policy: Seq<char>| #[trigger]
        desired_policies(spec).contains(policy) <==> lists(spec, policy) by {
        the_policies_are_those_listed(spec, policy);
    }
    if policies.to_set() == desired_policies(spec) {
        assert forall|policy: Seq<char>| #[trigger]
            policies.contains(policy) <==> lists(spec, policy) by {
            assert(policies.to_set().contains(policy) <==> policies.contains(policy));
            assert(desired_policies(spec).contains(policy) <==> lists(spec, policy));
        }
    }
    if forall|policy: Seq<char>| #[trigger]
        policies.contains(policy) <==> lists(spec, policy) {
        assert forall|policy: Seq<char>| #[trigger]
            policies.to_set().contains(policy) <==> desired_policies(spec).contains(policy) by {
            assert(policies.contains(policy) <==> lists(spec, policy));
        }
        assert(policies.to_set() =~= desired_policies(spec));
    }
}

/// A user has the policies that the spec asks for exactly if those attached are
/// those that the spec lists.
pub proof fn having_policies_is_having_those_listed(spec: UserSpec, state: UserState)
    ensures
        has_policies(spec, state) <==> forall|policy: Seq<char>| #[trigger]
            attached(state.remote.policy_name).contains(policy) <==> lists(spec, policy),
{
    lemma_same_policies(spec, attached(state.remote.policy_name));
}

/// Whatever the answers are, at most four requests are made.
pub proof fn few_requests_are_made(
    username: Seq<char>,
    password: Seq<char>,
    spec: UserSpec,
    answers: Seq<AnswerView>,
)
    ensures
        standing(ensuring(username, password, spec), answers) is Ask ==> answers.len() < 4,
{
    every_step_is_sound(username, password, spec, answers);
}

/// An error ends the task, and is what it fails with.
pub proof fn an_error_ends_it(
    username: Seq<char>,
    password: Seq<char>,
    spec: UserSpec,
    answers: Seq<AnswerView>,
    error: ErrorView,
)
    requires
        standing(ensuring(username, password, spec), answers) is Ask,
    ensures
        standing(ensuring(username, password, spec), answers.push(Err(error))) == (StepView::<
            UserStageView,
            (),
        >::Failed(error)),
{
    assert(answers.push(Err(error)).drop_last() =~= answers);
}

/// Whatever the answers are, the task only fails with an error that came back as
/// an answer: nothing about the spec makes it fail.
pub proof fn it_only_fails_with_an_error_that_came_back(
    username: Seq<char>,
    password: Seq<char>,
    spec: UserSpec,
    answers: Seq<AnswerView>,
)
    ensures
        standing(ensuring(username, password, spec), answers) matches StepView::Failed(error)
            ==> answers.contains(Err(error)),
    decreases answers.len(),
{
    if answers.len() > 0 {
        let front = answers.drop_last();
        it_only_fails_with_an_error_that_came_back(username, password, spec, front);
        earlier_answers_stay(answers);
    }
}

/// The policies of a spec count as a set: their order and repetitions make no
/// difference to any step.
pub proof fn policies_count_as_a_set(
    username: Seq<char>,
    password: Seq<char>,
    a: UserSpec,
    b: UserSpec,
    turn: TurnView<UserStageView>,
)
    requires
        a.policies.deep_view().to_set() == b.policies.deep_view().to_set(),
        a.enabled == b.enabled,
    ensures
        ensure_step(username, password, a, turn) == ensure_step(username, password, b, turn),
{
}

/// A status that goes with being enabled or not.
pub open spec fn status_of(enabled: bool) -> UserStatus {
    if enabled {
        UserStatus::Enabled
    } else {
        UserStatus::Disabled
    }
}

/// Whether a user has the policies that the spec asks for, and no others.
pub open spec fn has_policies(spec: UserSpec, state: UserState) -> bool {
    attached(state.remote.policy_name).to_set() == desired_policies(spec)
}

/// A user as the spec asks for it, out of a user as it is. The password stays.
pub open spec fn settled(spec: UserSpec, state: UserState) -> UserState {
    UserState {
        password: state.password,
        remote: RemoteUserView {
            status: status_of(spec.enabled),
            policy_name: if has_policies(spec, state) {
                state.remote.policy_name
            } else {
                policy_names(in_order(desired_policies(spec)))
            },
        },
    }
}

/// The user that a task finds, once it exists.
pub open spec fn found(world: World, username: Seq<char>, password: Seq<char>) -> UserState {
    if world.users.contains_key(username) {
        world.users[username]
    } else {
        UserState {
            password,
            remote: RemoteUserView { status: UserStatus::Enabled, policy_name: None },
        }
    }
}

/// The requests that the status of a user takes.
pub open spec fn status_visit(
    username: Seq<char>,
    spec: UserSpec,
    state: UserState,
) -> Seq<RequestView> {
    if state.remote.status == status_of(spec.enabled) {
        seq![]
    } else {
        seq![RequestView::SetUserStatus { username, enabled: spec.enabled }]
    }
}

/// The requests that the policies of a user take.
pub open spec fn policies_visit(
    username: Seq<char>,
    spec: UserSpec,
    state: UserState,
) -> Seq<RequestView> {
    if has_policies(spec, state) {
        seq![]
    } else {
        seq![
            RequestView::SetUserPolicies { username, policies: in_order(desired_policies(spec)) },
        ]
    }
}

/// All the requests that a user takes.
pub open spec fn visits(
    username: Seq<char>,
    password: Seq<char>,
    spec: UserSpec,
    world: World,
) -> Seq<RequestView> {
    let state = found(world, username, password);
    let look = RequestView::GetUser { username };
    let lookup = if world.users.contains_key(username) {
        seq![look]
    } else {
        seq![look, RequestView::CreateUser { username, password }]
    };
    lookup + status_visit(username, spec, state) + policies_visit(username, spec, state)
}

/// Settling the policies of a user that exists.
proof fn settling_policies(
    username: Seq<char>,
    password: Seq<char>,
    spec: UserSpec,
    run: Run<UserStageView, ()>,
    end: Run<UserStageView, ()>,
)
    requires
        run.world.users.contains_key(username),
        run.world.users[username].remote.status == status_of(spec.enabled),
        run.step == settle_policies(
            username,
            spec,
            attached(run.world.users[username].remote.policy_name),
        ),
        end.world == run.world.with_user(username, settled(spec, run.world.users[username])),
        end.log == run.log + policies_visit(username, spec, run.world.users[username]),
        end.step == StepView::<UserStageView, ()>::Done(()),
    ensures
        leads_to(ensuring(username, password, spec), run, end),
{
    let task = ensuring(username, password, spec);
    let state = run.world.users[username];
    if has_policies(spec, state) {
        assert(run.world.users.insert(username, state) =~= run.world.users);
        assert(run.log =~= end.log);
        leads_to_is_reflexive(task, run);
    } else {
        leads_one_further(task, run);
        assert(advanced(task, run).log =~= end.log);
    }
}

/// Settling a user that exists.
proof fn settling(
    username: Seq<char>,
    password: Seq<char>,
    spec: UserSpec,
    run: Run<UserStageView, ()>,
    end: Run<UserStageView, ()>,
)
    requires
        run.world.users.contains_key(username),
        run.step == settle(
            username,
            spec,
            run.world.users[username].remote.status is Enabled,
            attached(run.world.users[username].remote.policy_name),
        ),
        end.world == run.world.with_user(username, settled(spec, run.world.users[username])),
        end.log == run.log + status_visit(username, spec, run.world.users[username])
            + policies_visit(username, spec, run.world.users[username]),
        end.step == StepView::<UserStageView, ()>::Done(()),
    ensures
        leads_to(ensuring(username, password, spec), run, end),
{
    let task = ensuring(username, password, spec);
    let state = run.world.users[username];
    if state.remote.status == status_of(spec.enabled) {
        assert(run.log + status_visit(username, spec, state) =~= run.log);
        settling_policies(username, password, spec, run, end);
    } else {
        let next = advanced(task, run);
        let users = run.world.users;
        leads_one_further(task, run);
        assert(next.log =~= run.log + status_visit(username, spec, state));
        assert(users.insert(username, next.world.users[username]).insert(
            username,
            settled(spec, state),
        ) =~= users.insert(username, settled(spec, state)));
        settling_policies(username, password, spec, next, end);
        leads_to_is_transitive(task, run, next, end);
    }
}

/// Against a server that behaves, the task ends well and leaves the user as the
/// spec asks: it exists, its status is the one asked for, and where its policies
/// were not, they have been replaced. Its password is only set where it had to
/// be created. Nothing else has changed.
pub proof fn a_user_is_brought_in_line(
    username: Seq<char>,
    password: Seq<char>,
    spec: UserSpec,
    world: World,
)
    ensures
        leads_to(
            ensuring(username, password, spec),
            begun(ensuring(username, password, spec), world),
            (Run {
                world: world.with_user(
                    username,
                    settled(spec, found(world, username, password)),
                ),
                log: visits(username, password, spec, world),
                step: StepView::Done(()),
            }),
        ),
{
    let task = ensuring(username, password, spec);
    let start = begun(task, world);
    let one = advanced(task, start);
    let end = Run {
        world: world.with_user(username, settled(spec, found(world, username, password))),
        log: visits(username, password, spec, world),
        step: StepView::Done(()),
    };
    leads_one_further(task, start);
    if world.users.contains_key(username) {
        assert(one.log =~= seq![RequestView::GetUser { username }]);
        settling(username, password, spec, one, end);
        leads_to_is_transitive(task, start, one, end);
    } else {
        let two = advanced(task, one);
        let state = found(world, username, password);
        leads_one_further(task, one);
        assert(two.log =~= seq![
            RequestView::GetUser { username },
            RequestView::CreateUser { username, password },
        ]);
        assert(world.users.insert(username, state).insert(username, settled(spec, state))
            =~= world.users.insert(username, settled(spec, state)));
        settling(username, password, spec, two, end);
        leads_to_is_transitive(task, start, one, two);
        leads_to_is_transitive(task, start, two, end);
    }
}

/// A user that is in line is left alone: the task ends well after it has looked
/// the user up, and nothing changes.
pub proof fn a_user_in_line_is_left_alone(
    username: Seq<char>,
    password: Seq<char>,
    spec: UserSpec,
    world: World,
)
    requires
        world.users.contains_key(username),
        world.users[username].remote.status == status_of(spec.enabled),
        has_policies(spec, world.users[username]),
    ensures
        leads_to(
            ensuring(username, password, spec),
            begun(ensuring(username, password, spec), world),
            (Run {
                world,
                log: seq![RequestView::GetUser { username }],
                step: StepView::Done(()),
            }),
        ),
{
    a_user_is_brought_in_line(username, password, spec, world);
    let state = world.users[username];
    assert(settled(spec, state) == state);
    assert(world.users.insert(username, state) =~= world.users);
    assert(visits(username, password, spec, world) =~= seq![RequestView::GetUser { username }]);
}

/// Whether a policy name comes back as it is from a list of policy names: it has
/// no comma in it, and no white space at its ends.
pub open spec fn is_plain(name: Seq<char>) -> bool {
    &&& !name.contains(',')
    &&& trim_end(trim_start(name)) == name
}

/// A text without commas is in one piece.
proof fn lemma_one_piece(text: Seq<char>)
    requires
        !text.contains(','),
    ensures
        comma_parts(text) == seq![text],
    decreases text.len(),
{
    if text.len() > 0 {
        let rest = text.drop_first();
        assert forall|i: int| 0 <= i < rest.len() implies rest[i] != ',' by {
            assert(text[i + 1] == rest[i]);
        }
        lemma_one_piece(rest);
        assert(text[0] != ',');
        assert(seq![text[0]] + rest =~= text);
        assert(comma_parts(text) =~= seq![text]);
    } else {
        assert(comma_parts(text) =~= seq![text]);
    }
}

/// The pieces around a comma.
proof fn lemma_first_piece(first: Seq<char>, rest: Seq<char>)
    requires
        !first.contains(','),
    ensures
        comma_parts(first + seq![','] + rest) == seq![first] + comma_parts(rest),
    decreases first.len(),
{
    let text = first + seq![','] + rest;
    if first.len() == 0 {
        assert(text.drop_first() =~= rest);
        assert(first =~= Seq::empty());
    } else {
        let tail = first.drop_first();
        assert forall|i: int| 0 <= i < tail.len() implies tail[i] != ',' by {
            assert(first[i + 1] == tail[i]);
        }
        lemma_first_piece(tail, rest);
        assert(text.drop_first() =~= tail + seq![','] + rest);
        assert(first[0] != ',');
        assert(seq![first[0]] + tail =~= first);
        assert(comma_parts(text) =~= seq![first] + comma_parts(rest));
    }
}

/// Names without commas come back from one text as they went in.
proof fn lemma_names_come_back(names: Seq<Seq<char>>)
    requires
        names.len() > 0,
        forall|i: int| 0 <= i < names.len() ==> !(#[trigger] names[i]).contains(','),
    ensures
        comma_parts(comma_separated(names)) == names,
    decreases names.len(),
{
    if names.len() == 1 {
        lemma_one_piece(names[0]);
        assert(seq![names[0]] =~= names);
    } else {
        let rest = names.drop_first();
        assert forall|i: int| 0 <= i < rest.len() implies !(#[trigger] rest[i]).contains(',') by {
            assert(names[i + 1] == rest[i]);
        }
        lemma_names_come_back(rest);
        lemma_first_piece(names[0], comma_separated(rest));
        assert(seq![names[0]] + rest =~= names);
    }
}

/// The pieces of a text have no commas in them, and make up the text when commas
/// are put between them.
pub proof fn the_pieces_make_up_the_text(text: Seq<char>)
    ensures
        comma_parts(text).len() > 0,
        forall|i: int|
            0 <= i < comma_parts(text).len() ==> !(#[trigger] comma_parts(text)[i]).contains(','),
        comma_separated(comma_parts(text)) == text,
    decreases text.len(),
{
    let parts = comma_parts(text);
    if text.len() == 0 {
        assert(comma_separated(parts) =~= text);
    } else {
        let rest = comma_parts(text.drop_first());
        the_pieces_make_up_the_text(text.drop_first());
        if text[0] == ',' {
            assert(parts.drop_first() =~= rest);
            assert(parts[0] =~= Seq::empty());
            assert forall|i: int| 0 <= i < parts.len() implies !(#[trigger] parts[i]).contains(
                ',',
            ) by {
                if i > 0 {
                    assert(parts[i] == rest[i - 1]);
                }
            }
            assert(comma_separated(parts) =~= text);
        } else {
            let head = seq![text[0]] + rest[0];
            assert(parts[0] == head);
            assert forall|i: int| 0 <= i < parts.len() implies !(#[trigger] parts[i]).contains(
                ',',
            ) by {
                if i > 0 {
                    assert(parts[i] == rest[i]);
                } else {
                    assert(!rest[0].contains(','));
                    if head.contains(',') {
                        let j = choose|j: int| 0 <= j < head.len() && head[j] == ',';
                        assert(rest[0][j - 1] == ',');
                    }
                }
            }
            assert(parts.drop_first() =~= rest.drop_first());
            assert(comma_separated(parts) =~= seq![text[0]] + comma_separated(rest));
            assert(comma_separated(parts) =~= text);
        }
    }
}

/// White space is tab, line feed, vertical tab, form feed and carriage return,
/// the space, the next-line and the no-break space, and beyond Latin-1 the
/// separators of Unicode; no other character is.
pub proof fn white_space_is_what_separates(c: char)
    ensures
        is_white_space(c) <==> {
            ||| 9 <= c as u32 <= 13
            ||| c as u32 == 32
            ||| c as u32 == 133
            ||| c as u32 == 160
            ||| c as u32 == 5760
            ||| 8192 <= c as u32 <= 8202
            ||| c as u32 == 8232
            ||| c as u32 == 8233
            ||| c as u32 == 8239
            ||| c as u32 == 8287
            ||| c as u32 == 12288
        },
{
}

/// Trimming takes white space off both ends and nothing else, and leaves none
/// there.
pub proof fn trimming_takes_outer_white_space_off(text: Seq<char>)
    ensures
        exists|i: int, j: int|
            {
                &&& 0 <= i <= j <= text.len()
                &&& trim_end(trim_start(text)) == #[trigger] text.subrange(i, j)
                &&& forall|k: int|
                    0 <= k < i || j <= k < text.len() ==> is_white_space(#[trigger] text[k])
            },
        trim_end(trim_start(text)).len() > 0 ==> !is_white_space(trim_end(trim_start(text))[0])
            && !is_white_space(trim_end(trim_start(text)).last()),
{
    let i = lemma_trim_start(text);
    let rest = text.skip(i);
    let j = lemma_trim_end(rest);
    assert(trim_end(trim_start(text)) =~= text.subrange(i, i + j));
    assert forall|k: int| 0 <= k < i || i + j <= k < text.len() implies is_white_space(
        #[trigger] text[k],
    ) by {
        if k >= i {
            assert(rest[k - i] == text[k]);
        }
    }
    if j > 0 {
        assert(rest[0] == text[i]);
    }
}

/// Where a text starts once the white space that it starts with is off.
proof fn lemma_trim_start(text: Seq<char>) -> (i: int)
    ensures
        0 <= i <= text.len(),
        trim_start(text) == text.skip(i),
        forall|k: int| 0 <= k < i ==> is_white_space(#[trigger] text[k]),
        i < text.len() ==> !is_white_space(text[i]),
    decreases text.len(),
{
    if text.len() > 0 && is_white_space(text[0]) {
        let rest = text.drop_first();
        let i = lemma_trim_start(rest);
        assert(rest.skip(i) =~= text.skip(i + 1));
        assert forall|k: int| 0 <= k < i + 1 implies is_white_space(#[trigger] text[k]) by {
            if k > 0 {
                assert(rest[k - 1] == text[k]);
            }
        }
        i + 1
    } else {
        assert(text.skip(0) =~= text);
        0
    }
}

/// Where a text ends once the white space that it ends in is off.
proof fn lemma_trim_end(text: Seq<char>) -> (j: int)
    ensures
        0 <= j <= text.len(),
        trim_end(text) == text.take(j),
        forall|k: int| j <= k < text.len() ==> is_white_space(#[trigger] text[k]),
        j > 0 ==> !is_white_space(text[j - 1]),
    decreases text.len(),
{
    if text.len() > 0 && is_white_space(text.last()) {
        let rest = text.drop_last();
        let j = lemma_trim_end(rest);
        assert(rest.take(j) =~= text.take(j));
        assert forall|k: int| j <= k < text.len() implies is_white_space(#[trigger] text[k]) by {
            if k < rest.len() {
                assert(rest[k] == text[k]);
            }
        }
        j
    } else {
        assert(text.take(text.len() as int) =~= text);
        text.len() as int
    }
}

/// The policies attached to a user are the pieces of its list of names, each
/// trimmed; without a list there is none.
pub proof fn attached_policies_are_the_trimmed_pieces(names: Seq<char>)
    ensures
        attached(None).len() == 0,
        attached(Some(names)).len() == comma_parts(names).len(),
        forall|i: int|
            0 <= i < comma_parts(names).len() ==> #[trigger] attached(Some(names))[i] == trim_end(
                trim_start(comma_parts(names)[i]),
            ),
{
}

/// Plain policy names come back from a user as they were attached.
pub proof fn attached_policies_come_back(names: Seq<Seq<char>>)
    requires
        forall|i: int| 0 <= i < names.len() ==> is_plain(#[trigger] names[i]),
    ensures
        attached(policy_names(names)) == names,
{
    if names.len() == 0 {
        assert(names =~= Seq::empty());
    } else {
        lemma_names_come_back(names);
        assert(attached(policy_names(names)) =~= names);
    }
}

/// Once a user has been brought in line, it has the policies that the spec asks
/// for, and no others, where their names are plain. So a second run finds it in
/// line.
pub proof fn a_settled_user_is_in_line(spec: UserSpec, state: UserState)
    requires
        forall|i: int|
            0 <= i < spec.policies.deep_view().len() ==> is_plain(
                #[trigger] spec.policies.deep_view()[i],
            ),
    ensures
        settled(spec, state).remote.status == status_of(spec.enabled),
        has_policies(spec, settled(spec, state)),
        settled(spec, settled(spec, state)) == settled(spec, state),
{
    let names = spec.policies.deep_view();
    let ordered = in_order(desired_policies(spec));
    any_list_can_be_put_in_order(names);
    assert forall|i: int| 0 <= i < ordered.len() implies is_plain(#[trigger] ordered[i]) by {
        assert(ordered.to_set().contains(ordered[i]));
        assert(names.contains(ordered[i]));
    }
    attached_policies_come_back(ordered);
}

/// The task of applying a User.
pub open spec fn applying(
    obj: User,
    namespace: Seq<char>,
    operator_namespace: Seq<char>,
) -> Task<ApplyStageView, ReportView<ResourceStatusView>> {
    |count: nat, turn: TurnView<ApplyStageView>|
        apply_step(obj, namespace, operator_namespace, turn)
}

/// Whatever the answers are, applying never fails unreported: where it ends, the
/// status tells a success, or the message of the error that is passed on.
pub proof fn the_end_is_reported(
    obj: User,
    namespace: Seq<char>,
    operator_namespace: Seq<char>,
    answers: Seq<AnswerView>,
)
    ensures
        match standing(applying(obj, namespace, operator_namespace), answers) {
            StepView::Ask { .. } => true,
            StepView::Done(report) => exists|result: Result<(), ErrorView>|
                report == #[trigger] concluded(obj.metadata.generation, result),
            StepView::Failed(_) => false,
        },
    decreases answers.len(),
{
    if answers.len() > 0 {
        the_end_is_reported(obj, namespace, operator_namespace, answers.drop_last());
    }
}

/// The user that a request is about, if it is about one.
pub open spec fn user_of(request: RequestView) -> Option<Seq<char>> {
    match request {
        RequestView::GetUser { username } => Some(username),
        RequestView::CreateUser { username, .. } => Some(username),
        RequestView::DeleteUser { username } => Some(username),
        RequestView::SetUserStatus { username, .. } => Some(username),
        RequestView::SetUserPolicies { username, .. } => Some(username),
        _ => None,
    }
}

/// In every turn of applying a User, a request about a user names the one in the
/// spec where that is set, and the resource's name only where it is not. Nothing
/// else is asked for than users, the password and the connection.
pub proof fn applying_names_the_user_of_the_spec(
    obj: User,
    namespace: Seq<char>,
    operator_namespace: Seq<char>,
    turn: TurnView<ApplyStageView>,
)
    ensures
        apply_step(obj, namespace, operator_namespace, turn) matches StepView::Ask {
            request,
            ..
        } ==> match user_of(request) {
            Some(username) => {
                &&& obj.spec.username matches Some(name) ==> username == name@
                &&& obj.spec.username is None ==> (obj.metadata.name matches Some(name) ==> username
                    == name@)
                &&& is_name(username, obj.spec.username, obj.metadata.name)
            },
            None => request is GetSecret || request is GetClusterConnection || request is Connect,
        },
{
}

/// In every turn of cleaning up after a User, a request about a user deletes the
/// one in the spec where that is set, and the one of the resource's name only
/// where it is not; and there is one only where the deletion policy says so.
pub proof fn cleaning_up_names_the_user_of_the_spec(
    obj: User,
    namespace: Seq<char>,
    operator_namespace: Seq<char>,
    turn: TurnView<CleanupStageView>,
)
    ensures
        cleanup_step(
            namespace,
            operator_namespace,
            obj.spec.connection,
            removal(effective_name(obj), obj.spec),
            turn,
        ) matches StepView::Ask { request, .. } ==> {
            ||| request is GetSecret || request is GetClusterConnection || request is Connect
            ||| {
                &&& request matches RequestView::DeleteUser { username }
                &&& is_name(username, obj.spec.username, obj.metadata.name)
                &&& obj.spec.deletion_policy is Delete
            }
        },
        removal(effective_name(obj), obj.spec) is Some <==> obj.spec.deletion_policy is Delete,
{
}

/// Applying a User first reads the password, and reports it where that fails.
pub proof fn applying_reads_the_password_first(
    obj: User,
    namespace: Seq<char>,
    operator_namespace: Seq<char>,
    first: AnswerView,
)
    ensures
        ({
            let task = applying(obj, namespace, operator_namespace);
            &&& standing(task, seq![]) matches StepView::Ask { request, .. } && request == (
            RequestView::GetSecret { namespace, name: obj.spec.password_ref.name@ })
            &&& key_text(namespace, obj.spec.password_ref, "password"@, first) matches Err(error)
                ==> (standing(task, seq![first]) matches StepView::Done(report) && tells_error(
                report,
                obj.metadata.generation,
                error,
            ))
        }),
{
    let task = applying(obj, namespace, operator_namespace);
    assert(seq![first].drop_last() =~= seq![]);
    assert(standing(task, seq![]) == task(0, TurnView::Begin));
}

/// Applying a User then connects, as its reference says. An error on the way is
/// reported; once there is a connection, the user is looked up.
pub proof fn applying_connects_next(
    obj: User,
    namespace: Seq<char>,
    operator_namespace: Seq<char>,
    first: AnswerView,
    answers: Seq<AnswerView>,
)
    requires
        key_text(namespace, obj.spec.password_ref, "password"@, first) is Ok,
        answers.len() > 0 ==> standing(
            connecting(namespace, operator_namespace, obj.spec.connection),
            answers.drop_last(),
        ) is Ask,
    ensures
        ({
            let step = standing(
                applying(obj, namespace, operator_namespace),
                seq![first] + answers,
            );
            match standing(
                connecting(namespace, operator_namespace, obj.spec.connection),
                answers,
            ) {
                StepView::Ask { request: wanted, .. } => step matches StepView::Ask { request, .. }
                    && request == wanted,
                StepView::Failed(error) => step matches StepView::Done(report) && tells_error(
                    report,
                    obj.metadata.generation,
                    error,
                ),
                StepView::Done(_) => {
                    &&& step matches StepView::Ask { request, .. }
                    &&& request matches RequestView::GetUser { username }
                    &&& is_name(username, obj.spec.username, obj.metadata.name)
                },
            }
        }),
{
    connecting_after_the_password(obj, namespace, operator_namespace, first, answers);
}

proof fn connecting_after_the_password(
    obj: User,
    namespace: Seq<char>,
    operator_namespace: Seq<char>,
    first: AnswerView,
    answers: Seq<AnswerView>,
)
    requires
        key_text(namespace, obj.spec.password_ref, "password"@, first) is Ok,
        answers.len() > 0 ==> standing(
            connecting(namespace, operator_namespace, obj.spec.connection),
            answers.drop_last(),
        ) is Ask,
    ensures
        standing(applying(obj, namespace, operator_namespace), seq![first] + answers)
            == apply_connecting(
            obj,
            key_text(namespace, obj.spec.password_ref, "password"@, first)->Ok_0,
            standing(connecting(namespace, operator_namespace, obj.spec.connection), answers),
        ),
{
    let whole = applying(obj, namespace, operator_namespace);
    let password = key_text(namespace, obj.spec.password_ref, "password"@, first)->Ok_0;
    let part = connecting(namespace, operator_namespace, obj.spec.connection);
    let wrap = |stage: ConnectStageView| ApplyStageView::Connecting { password, stage };
    let lift = |k: nat, step: StepView<ConnectStageView, Seq<char>>|
        apply_connecting(obj, password, step);
    assert(seq![first].drop_last() =~= seq![]);
    assert(standing(whole, seq![]) == whole(0, TurnView::Begin));
    a_part_stands_where_it_would_alone(part, whole, seq![first], wrap, lift, answers);
}

/// Applying a User then brings the user in line with the password that was read,
/// and reports how that ended.
pub proof fn applying_then_brings_in_line(
    obj: User,
    namespace: Seq<char>,
    operator_namespace: Seq<char>,
    first: AnswerView,
    before: Seq<AnswerView>,
    answers: Seq<AnswerView>,
    username: Seq<char>,
    password: Seq<char>,
)
    requires
        key_text(namespace, obj.spec.password_ref, "password"@, first) == (Ok::<
            Seq<char>,
            ErrorView,
        >(password)),
        before.len() > 0,
        standing(
            connecting(namespace, operator_namespace, obj.spec.connection),
            before.drop_last(),
        ) is Ask,
        standing(connecting(namespace, operator_namespace, obj.spec.connection), before) is Done,
        is_name(username, obj.spec.username, obj.metadata.name),
        answers.len() > 0 ==> standing(
            ensuring(username, password, obj.spec),
            answers.drop_last(),
        ) is Ask,
    ensures
        ({
            let step = standing(
                applying(obj, namespace, operator_namespace),
                seq![first] + before + answers,
            );
            match standing(ensuring(username, password, obj.spec), answers) {
                StepView::Ask { request: wanted, .. } => step matches StepView::Ask { request, .. }
                    && request == wanted,
                StepView::Failed(error) => step matches StepView::Done(report) && tells_error(
                    report,
                    obj.metadata.generation,
                    error,
                ),
                StepView::Done(()) => step matches StepView::Done(report) && tells_success(
                    report,
                    obj.metadata.generation,
                ),
            }
        }),
{
    let whole = applying(obj, namespace, operator_namespace);
    assert(username =~= effective_name(obj));
    connecting_after_the_password(obj, namespace, operator_namespace, first, before);
    let part = ensuring(username, password, obj.spec);
    let wrap = |stage: UserStageView| ApplyStageView::Ensuring { password, stage };
    let lift = |k: nat, step: StepView<UserStageView, ()>| apply_ensuring(obj, password, step);
    a_part_stands_where_it_would_alone(part, whole, seq![first] + before, wrap, lift, answers);
}

/// Where a ClusterConnection does not allow the namespace of a User, that is
/// reported, and nothing is asked of any server.
pub proof fn a_user_that_is_not_allowed_is_reported(
    obj: User,
    namespace: Seq<char>,
    operator_namespace: Seq<char>,
    answers: Seq<AnswerView>,
    cluster: ClusterConnectionView,
)
    requires
        obj.spec.connection.secret_ref is None,
        obj.spec.connection.cluster_ref is Some,
        answers.len() > 1,
        key_text(namespace, obj.spec.password_ref, "password"@, answers[0]) is Ok,
        answers[1] == (Ok::<ReplyView, ErrorView>(ReplyView::ClusterConnection(cluster))),
        !cluster.allows(namespace),
    ensures
        standing(applying(obj, namespace, operator_namespace), answers) == (StepView::<
            ApplyStageView,
            ReportView<ResourceStatusView>,
        >::Done(
            concluded(
                obj.metadata.generation,
                Err(not_allowed(namespace, obj.spec.connection.cluster_ref->0@)),
            ),
        )),
    decreases answers.len(),
{
    let task = applying(obj, namespace, operator_namespace);
    if answers.len() == 2 {
        let first = answers.drop_last();
        assert(standing(task, first.drop_last()) == task(0, TurnView::Begin));
        assert(standing(task, first) is Ask);
    } else {
        a_user_that_is_not_allowed_is_reported(
            obj,
            namespace,
            operator_namespace,
            answers.drop_last(),
            cluster,
        );
    }
}

/// In a cluster and on a server that behave, applying a User whose password is
/// there and whose reference leads to a connection brings the user in line and
/// reports it as ready.
pub proof fn a_user_is_applied(
    obj: User,
    namespace: Seq<char>,
    operator_namespace: Seq<char>,
    world: World,
    password: Seq<char>,
    info: ConnectionInfoView,
)
    requires
        names_text(world, namespace, obj.spec.password_ref, "password"@, password),
        resolves_to(world, namespace, operator_namespace, obj.spec.connection, info),
    ensures
        leads_to(
            applying(obj, namespace, operator_namespace),
            begun(applying(obj, namespace, operator_namespace), world),
            (Run {
                world: world.with_user(
                    effective_name(obj),
                    settled(obj.spec, found(world, effective_name(obj), password)),
                ),
                log: seq![key_request(namespace, obj.spec.password_ref)] + connect_log(
                    world,
                    namespace,
                    operator_namespace,
                    obj.spec.connection,
                    info,
                ) + visits(effective_name(obj), password, obj.spec, world),
                step: StepView::Done(concluded(obj.metadata.generation, Ok(()))),
            }),
        ),
{
    let whole = applying(obj, namespace, operator_namespace);
    let conn = obj.spec.connection;
    let name = effective_name(obj);
    let start = begun(whole, world);
    let first = seq![key_request(namespace, obj.spec.password_ref)];
    leads_one_further(whole, start);
    assert(advanced(whole, start).log =~= first);

    let part = connecting(namespace, operator_namespace, conn);
    let wrap = |stage: ConnectStageView| ApplyStageView::Connecting { password, stage };
    let lift = |k: nat, step: StepView<ConnectStageView, Seq<char>>|
        apply_connecting(obj, password, step);
    let log = connect_log(world, namespace, operator_namespace, conn, info);
    let from = begun(part, world);
    let to = Run { world, log, step: StepView::Done(info.endpoint) };
    a_reference_is_followed(world, namespace, operator_namespace, conn, info);
    a_part_gets_where_it_would_alone(part, whole, first, wrap, lift, from, to);
    assert(embedded(first, lift, from).log =~= first);
    leads_to_is_transitive(whole, start, embedded(first, lift, from), embedded(first, lift, to));

    let task = ensuring(name, password, obj.spec);
    let inner = |stage: UserStageView| ApplyStageView::Ensuring { password, stage };
    let report = |k: nat, step: StepView<UserStageView, ()>| apply_ensuring(obj, password, step);
    let begin = begun(task, world);
    let end = Run {
        world: world.with_user(name, settled(obj.spec, found(world, name, password))),
        log: visits(name, password, obj.spec, world),
        step: StepView::Done(()),
    };
    a_user_is_brought_in_line(name, password, obj.spec, world);
    a_part_gets_where_it_would_alone(task, whole, first + log, inner, report, begin, end);
    assert(embedded(first + log, report, begin).log =~= first + log);
    leads_to_is_transitive(
        whole,
        start,
        embedded(first + log, report, begin),
        embedded(first + log, report, end),
    );
}

/// A user is removed exactly where the deletion policy says so.
pub proof fn a_user_is_only_removed_where_the_policy_says_so(name: Seq<char>, spec: UserSpec)
    ensures
        removal(name, spec) is Some <==> spec.deletion_policy is Delete,
        removal(name, spec) matches Some(request) ==> request == (RequestView::DeleteUser {
            username: name,
        }),
{
}

/// Cleaning up after a User that is to be deleted removes the user, and changes
/// nothing else.
pub proof fn a_user_is_removed(
    obj: User,
    namespace: Seq<char>,
    operator_namespace: Seq<char>,
    world: World,
    info: ConnectionInfoView,
)
    requires
        obj.spec.deletion_policy is Delete,
        resolves_to(world, namespace, operator_namespace, obj.spec.connection, info),
    ensures
        ({
            let task = cleaning_up(
                namespace,
                operator_namespace,
                obj.spec.connection,
                removal(effective_name(obj), obj.spec),
            );
            leads_to(
                task,
                begun(task, world),
                (Run {
                    world: World { users: world.users.remove(effective_name(obj)), ..world },
                    log: connect_log(
                        world,
                        namespace,
                        operator_namespace,
                        obj.spec.connection,
                        info,
                    ).push(RequestView::DeleteUser { username: effective_name(obj) }),
                    step: StepView::Done(Action::AwaitChange),
                }),
            )
        }),
{
    a_removal_follows_the_connection(
        world,
        namespace,
        operator_namespace,
        obj.spec.connection,
        info,
        RequestView::DeleteUser { username: effective_name(obj) },
    );
}

/// Cleaning up after a User that is to be retained asks for nothing, not even
/// for the connection.
pub proof fn a_retained_user_takes_no_request(
    obj: User,
    namespace: Seq<char>,
    operator_namespace: Seq<char>,
    answers: Seq<AnswerView>,
)
    requires
        obj.spec.deletion_policy is Retain,
    ensures
        standing(
            cleaning_up(
                namespace,
                operator_namespace,
                obj.spec.connection,
                removal(effective_name(obj), obj.spec),
            ),
            answers,
        ) == StepView::<CleanupStageView, Action>::Done(Action::AwaitChange),
{
    nothing_to_remove_takes_no_request(
        namespace,
        operator_namespace,
        obj.spec.connection,
        answers,
    );
}

} // verus!
