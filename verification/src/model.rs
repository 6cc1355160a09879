//! A cluster and a server as they ought to behave, and the running of tasks
//! against them. All of this is for stating and proving what tasks achieve.

use vstd::prelude::*;
use vstd::utf8::encode_utf8;

use crate::crd::ClusterConnectionView;
use crate::error::ErrorView;
use crate::exchange::{
    AnswerView, RemoteUserView, ReplyView, RequestView, StepView, TurnView, UserStatus,
};
use crate::lifecycle::LifecycleRuleView;

verus! {

/// A bucket on the server.
pub struct BucketState {
    pub versioning: Option<bool>,
    pub quota: Option<u64>,
    pub lifecycle: Seq<LifecycleRuleView>,
}

/// A user on the server.
pub struct UserState {
    pub password: Seq<char>,
    pub remote: RemoteUserView,
}

/// A cluster with a RustFS server.
pub struct World {
    /// The data of the Secrets, by namespace and name.
    pub secrets: Map<(Seq<char>, Seq<char>), Map<Seq<char>, Seq<u8>>>,
    /// The ClusterConnections, by name.
    pub connections: Map<Seq<char>, ClusterConnectionView>,
    pub buckets: Map<Seq<char>, BucketState>,
    /// How a bucket is when it has just been created.
    pub new_bucket: BucketState,
    pub users: Map<Seq<char>, UserState>,
    /// The secret keys of the access keys, by user and access key.
    pub keys: Map<(Seq<char>, Seq<char>), Seq<char>>,
}

/// The answer to a request about something that is not there.
pub open spec fn not_found() -> AnswerView {
    Err(ErrorView::RustFs("not found"@))
}

/// Policy names in one text, with commas between them.
pub open spec fn comma_separated(names: Seq<Seq<char>>) -> Seq<char>
    decreases names.len(),
{
    if names.len() == 0 {
        Seq::empty()
    } else if names.len() == 1 {
        names[0]
    } else {
        names[0] + seq![','] + comma_separated(names.drop_first())
    }
}

/// The policy names of a user with the given policies.
pub open spec fn policy_names(policies: Seq<Seq<char>>) -> Option<Seq<char>> {
    if policies.len() == 0 {
        None
    } else {
        Some(comma_separated(policies))
    }
}

/// The data of a Secret after text has been written to it: the values are stored
/// as UTF-8, other keys stay as they are.
pub open spec fn with_text(
    data: Map<Seq<char>, Seq<u8>>,
    text: Seq<(Seq<char>, Seq<char>)>,
) -> Map<Seq<char>, Seq<u8>>
    decreases text.len(),
{
    if text.len() == 0 {
        data
    } else {
        with_text(data, text.drop_last()).insert(text.last().0, encode_utf8(text.last().1))
    }
}

impl World {
    /// The world with one Secret changed.
    pub open spec fn with_secret(
        self,
        namespace: Seq<char>,
        name: Seq<char>,
        data: Map<Seq<char>, Seq<u8>>,
    ) -> World {
        World { secrets: self.secrets.insert((namespace, name), data), ..self }
    }

    /// The data of a Secret, empty where there is no such Secret.
    pub open spec fn secret_data(self, namespace: Seq<char>, name: Seq<char>) -> Map<
        Seq<char>,
        Seq<u8>,
    > {
        if self.secrets.contains_key((namespace, name)) {
            self.secrets[(namespace, name)]
        } else {
            Map::empty()
        }
    }

    /// The world with one bucket changed.
    pub open spec fn with_bucket(self, name: Seq<char>, bucket: BucketState) -> World {
        World { buckets: self.buckets.insert(name, bucket), ..self }
    }

    /// The world with one user changed.
    pub open spec fn with_user(self, name: Seq<char>, user: UserState) -> World {
        World { users: self.users.insert(name, user), ..self }
    }

    /// The world with one access key changed.
    pub open spec fn with_key(
        self,
        username: Seq<char>,
        access_key: Seq<char>,
        secret_key: Seq<char>,
    ) -> World {
        World { keys: self.keys.insert((username, access_key), secret_key), ..self }
    }
}

/// Whether a request only reads.
pub open spec fn is_read(request: RequestView) -> bool {
    match request {
        RequestView::GetSecret { .. } => true,
        RequestView::GetClusterConnection { .. } => true,
        RequestView::Connect { .. } => true,
        RequestView::BucketExists { .. } => true,
        RequestView::GetVersioning { .. } => true,
        RequestView::GetBucketQuota { .. } => true,
        RequestView::GetBucketLifecycle { .. } => true,
        RequestView::GetUser { .. } => true,
        RequestView::GetAccessKey { .. } => true,
        _ => false,
    }
}

/// Whether there are only reads among some requests.
pub open spec fn only_reads(log: Seq<RequestView>) -> bool {
    forall|i: int| 0 <= i < log.len() ==> is_read(#[trigger] log[i])
}

/// A request that only reads changes nothing.
pub proof fn reading_changes_nothing(world: World, request: RequestView)
    requires
        is_read(request),
    ensures
        serve(world, request).0 == world,
{
}

/// What becomes of the world when a request about a bucket is performed, and how
/// it is answered.
pub open spec fn serve_bucket(world: World, request: RequestView) -> (World, AnswerView) {
    match request {
        RequestView::BucketExists { bucket } => (
            world,
            Ok(ReplyView::Exists(world.buckets.contains_key(bucket))),
        ),
        RequestView::CreateBucket { bucket } => (
            world.with_bucket(bucket, world.new_bucket),
            Ok(ReplyView::Done),
        ),
        RequestView::DeleteBucket { bucket } => (
            World { buckets: world.buckets.remove(bucket), ..world },
            Ok(ReplyView::Done),
        ),
        RequestView::GetVersioning { bucket } => if world.buckets.contains_key(bucket) {
            (world, Ok(ReplyView::Versioning(world.buckets[bucket].versioning)))
        } else {
            (world, not_found())
        },
        RequestView::SetVersioning { bucket, enabled } => if world.buckets.contains_key(bucket) {
            (
                world.with_bucket(
                    bucket,
                    BucketState { versioning: Some(enabled), ..world.buckets[bucket] },
                ),
                Ok(ReplyView::Done),
            )
        } else {
            (world, not_found())
        },
        RequestView::GetBucketQuota { bucket } => if world.buckets.contains_key(bucket) {
            (world, Ok(ReplyView::Quota(world.buckets[bucket].quota)))
        } else {
            (world, not_found())
        },
        RequestView::SetBucketQuota { bucket, bytes } => if world.buckets.contains_key(bucket) {
            (
                world.with_bucket(
                    bucket,
                    BucketState { quota: Some(bytes), ..world.buckets[bucket] },
                ),
                Ok(ReplyView::Done),
            )
        } else {
            (world, not_found())
        },
        RequestView::GetBucketLifecycle { bucket } => if world.buckets.contains_key(bucket) {
            (world, Ok(ReplyView::Lifecycle(world.buckets[bucket].lifecycle)))
        } else {
            (world, not_found())
        },
        RequestView::SetBucketLifecycle { bucket, rules } => if world.buckets.contains_key(
            bucket,
        ) {
            (
                world.with_bucket(bucket, BucketState { lifecycle: rules, ..world.buckets[bucket] }),
                Ok(ReplyView::Done),
            )
        } else {
            (world, not_found())
        },
        RequestView::DeleteBucketLifecycle { bucket } => if world.buckets.contains_key(bucket) {
            (
                world.with_bucket(
                    bucket,
                    BucketState { lifecycle: Seq::empty(), ..world.buckets[bucket] },
                ),
                Ok(ReplyView::Done),
            )
        } else {
            (world, not_found())
        },
        _ => (world, not_found()),
    }
}

/// What becomes of the world when a request about a user is performed, and how
/// it is answered.
pub open spec fn serve_user(world: World, request: RequestView) -> (World, AnswerView) {
    match request {
        RequestView::GetUser { username } => (
            world,
            Ok(
                ReplyView::User(
                    if world.users.contains_key(username) {
                        Some(world.users[username].remote)
                    } else {
                        None
                    },
                ),
            ),
        ),
        RequestView::CreateUser { username, password } => (
            world.with_user(
                username,
                UserState {
                    password,
                    remote: RemoteUserView { status: UserStatus::Enabled, policy_name: None },
                },
            ),
            Ok(ReplyView::Done),
        ),
        RequestView::DeleteUser { username } => (
            World { users: world.users.remove(username), ..world },
            Ok(ReplyView::Done),
        ),
        RequestView::SetUserStatus { username, enabled } => if world.users.contains_key(username) {
            let user = world.users[username];
            let status = if enabled {
                UserStatus::Enabled
            } else {
                UserStatus::Disabled
            };
            (
                world.with_user(
                    username,
                    UserState { remote: RemoteUserView { status, ..user.remote }, ..user },
                ),
                Ok(ReplyView::Done),
            )
        } else {
            (world, not_found())
        },
        RequestView::SetUserPolicies { username, policies } => if world.users.contains_key(
            username,
        ) {
            let user = world.users[username];
            (
                world.with_user(
                    username,
                    UserState {
                        remote: RemoteUserView {
                            policy_name: policy_names(policies),
                            ..user.remote
                        },
                        ..user
                    },
                ),
                Ok(ReplyView::Done),
            )
        } else {
            (world, not_found())
        },
        _ => (world, not_found()),
    }
}

/// What becomes of the world when a request about an access key is performed,
/// and how it is answered.
pub open spec fn serve_key(world: World, request: RequestView) -> (World, AnswerView) {
    match request {
        RequestView::GetAccessKey { username, access_key, .. } => (
            world,
            Ok(ReplyView::Exists(world.keys.contains_key((username, access_key)))),
        ),
        RequestView::CreateAccessKey { username, access_key, secret_key, .. } => (
            world.with_key(username, access_key, secret_key),
            Ok(ReplyView::Done),
        ),
        RequestView::DeleteAccessKey { username, access_key, .. } => (
            World { keys: world.keys.remove((username, access_key)), ..world },
            Ok(ReplyView::Done),
        ),
        _ => (world, not_found()),
    }
}

/// What becomes of the world when a request is performed, and how it is
/// answered.
pub open spec fn serve(world: World, request: RequestView) -> (World, AnswerView) {
    match request {
        RequestView::GetSecret { namespace, name } => if world.secrets.contains_key(
            (namespace, name),
        ) {
            (world, Ok(ReplyView::Secret(Some(world.secrets[(namespace, name)]))))
        } else {
            (world, Err(ErrorView::Kube("not found"@)))
        },
        RequestView::GetClusterConnection { name } => if world.connections.contains_key(name) {
            (world, Ok(ReplyView::ClusterConnection(world.connections[name])))
        } else {
            (world, Err(ErrorView::Kube("not found"@)))
        },
        RequestView::ApplySecret { namespace, manifest } => (
            world.with_secret(
                namespace,
                manifest.name,
                with_text(world.secret_data(namespace, manifest.name), manifest.string_data),
            ),
            Ok(ReplyView::Done),
        ),
        RequestView::Connect { info } => (
            world,
            Ok(ReplyView::Connected { endpoint: info.endpoint }),
        ),
        RequestView::GetUser { .. } => serve_user(world, request),
        RequestView::CreateUser { .. } => serve_user(world, request),
        RequestView::DeleteUser { .. } => serve_user(world, request),
        RequestView::SetUserStatus { .. } => serve_user(world, request),
        RequestView::SetUserPolicies { .. } => serve_user(world, request),
        RequestView::GetAccessKey { .. } => serve_key(world, request),
        RequestView::CreateAccessKey { .. } => serve_key(world, request),
        RequestView::DeleteAccessKey { .. } => serve_key(world, request),
        _ => serve_bucket(world, request),
    }
}

/// A task: the step that follows a turn. The number counts the turns, for tasks
/// that draw something at random in each.
pub type Task<S, T> = spec_fn(nat, TurnView<S>) -> StepView<S, T>;

/// Where a task stands once its first requests have been answered like this,
/// whatever the answers are.
pub open spec fn standing<S, T>(task: Task<S, T>, answers: Seq<AnswerView>) -> StepView<S, T>
    decreases answers.len(),
{
    if answers.len() == 0 {
        task(0, TurnView::Begin)
    } else {
        match standing(task, answers.drop_last()) {
            StepView::Ask { stage, .. } => task(
                answers.len(),
                TurnView::Resume { stage, answer: answers.last() },
            ),
            end => end,
        }
    }
}

/// One more answer takes none of the earlier ones away.
pub proof fn earlier_answers_stay(answers: Seq<AnswerView>)
    requires
        answers.len() > 0,
    ensures
        forall|answer: AnswerView|
            answers.drop_last().contains(answer) ==> #[trigger] answers.contains(answer),
        answers.contains(answers.last()),
{
    let front = answers.drop_last();
    assert forall|answer: AnswerView| front.contains(answer) implies #[trigger] answers.contains(
        answer,
    ) by {
        let i = choose|i: int| 0 <= i < front.len() && front[i] == answer;
        assert(answers[i] == answer);
    }
    assert(answers[answers.len() - 1] == answers.last());
}

/// A task being run: the world as it is, the requests performed so far, and
/// where the task stands.
pub struct Run<S, T> {
    pub world: World,
    pub log: Seq<RequestView>,
    pub step: StepView<S, T>,
}

/// A task that begins.
pub open spec fn begun<S, T>(task: Task<S, T>, world: World) -> Run<S, T> {
    Run { world, log: Seq::empty(), step: task(0, TurnView::Begin) }
}

/// The run after one more request has been performed, if one is asked for.
pub open spec fn advanced<S, T>(task: Task<S, T>, run: Run<S, T>) -> Run<S, T> {
    match run.step {
        StepView::Ask { stage, request } => {
            let (world, answer) = serve(run.world, request);
            Run {
                world,
                log: run.log.push(request),
                step: task(run.log.len() + 1, TurnView::Resume { stage, answer }),
            }
        },
        _ => run,
    }
}

/// The run after up to `n` more requests.
pub open spec fn after<S, T>(task: Task<S, T>, run: Run<S, T>, n: nat) -> Run<S, T>
    decreases n,
{
    if n == 0 {
        run
    } else {
        after(task, advanced(task, run), (n - 1) as nat)
    }
}

/// Whether a run gets to where another one is.
pub open spec fn leads_to<S, T>(task: Task<S, T>, from: Run<S, T>, to: Run<S, T>) -> bool {
    exists|n: nat| #[trigger] after(task, from, n) == to
}

/// Running on is running on from where one got.
pub proof fn after_adds_up<S, T>(task: Task<S, T>, run: Run<S, T>, m: nat, n: nat)
    ensures
        after(task, after(task, run, m), n) == after(task, run, m + n),
    decreases m,
{
    if m > 0 {
        after_adds_up(task, advanced(task, run), (m - 1) as nat, n);
        assert((m + n - 1) as nat == (m - 1) as nat + n);
    }
}

/// A run gets to where it is.
pub proof fn leads_to_is_reflexive<S, T>(task: Task<S, T>, run: Run<S, T>)
    ensures
        leads_to(task, run, run),
{
    assert(after(task, run, 0) == run);
}

/// A run gets to where it gets from where it got.
pub proof fn leads_to_is_transitive<S, T>(
    task: Task<S, T>,
    a: Run<S, T>,
    b: Run<S, T>,
    c: Run<S, T>,
)
    requires
        leads_to(task, a, b),
        leads_to(task, b, c),
    ensures
        leads_to(task, a, c),
{
    let m = choose|m: nat| #[trigger] after(task, a, m) == b;
    let n = choose|n: nat| #[trigger] after(task, b, n) == c;
    after_adds_up(task, a, m, n);
}

/// A run gets to where one more request takes it.
pub proof fn leads_one_further<S, T>(task: Task<S, T>, run: Run<S, T>)
    ensures
        leads_to(task, run, advanced(task, run)),
{
    assert(after(task, advanced(task, run), 0) == advanced(task, run));
    assert(after(task, run, 1) == advanced(task, run));
}

/// A run that asks for nothing stays where it is, so there is one end that it
/// can get to.
pub proof fn an_end_is_final<S, T>(task: Task<S, T>, from: Run<S, T>, a: Run<S, T>, b: Run<S, T>)
    requires
        leads_to(task, from, a),
        leads_to(task, from, b),
        !(a.step is Ask),
        !(b.step is Ask),
    ensures
        a == b,
{
    let m = choose|m: nat| #[trigger] after(task, from, m) == a;
    let n = choose|n: nat| #[trigger] after(task, from, n) == b;
    if m <= n {
        after_adds_up(task, from, m, (n - m) as nat);
        stays(task, a, (n - m) as nat);
    } else {
        after_adds_up(task, from, n, (m - n) as nat);
        stays(task, b, (m - n) as nat);
    }
}

/// A run that asks for nothing stays where it is.
proof fn stays<S, T>(task: Task<S, T>, run: Run<S, T>, n: nat)
    requires
        !(run.step is Ask),
    ensures
        after(task, run, n) == run,
    decreases n,
{
    if n > 0 {
        stays(task, run, (n - 1) as nat);
    }
}

/// The run of a task as part of a larger one: `before` are the requests that the
/// larger one had made when the part began, and `lift` says where the larger one
/// stands, by the number of its requests and by where the part stands.
pub open spec fn embedded<S, T, U, V>(
    before: Seq<RequestView>,
    lift: spec_fn(nat, StepView<S, T>) -> StepView<U, V>,
    run: Run<S, T>,
) -> Run<U, V> {
    Run {
        world: run.world,
        log: before + run.log,
        step: lift(before.len() + run.log.len(), run.step),
    }
}

/// Whether a larger task follows a part of it: it passes the requests of the part
/// on, and takes the turns of the part by it.
pub open spec fn follows<S, T, U, V>(
    part: Task<S, T>,
    whole: Task<U, V>,
    count: nat,
    wrap: spec_fn(S) -> U,
    lift: spec_fn(nat, StepView<S, T>) -> StepView<U, V>,
) -> bool {
    &&& forall|k: nat, stage: S, request: RequestView|
        #![trigger lift(k, StepView::Ask { stage, request })]
        lift(k, StepView::Ask { stage, request }) == (StepView::<U, V>::Ask {
            stage: wrap(stage),
            request,
        })
    &&& forall|k: nat, stage: S, answer: AnswerView|
        #![trigger part(k, TurnView::Resume { stage, answer })]
        whole(count + k, TurnView::Resume { stage: wrap(stage), answer }) == lift(
            count + k,
            part(k, TurnView::Resume { stage, answer }),
        )
}

/// Where a task stands on its own, it stands as part of a larger one that follows
/// it, up to its end.
pub proof fn a_part_stands_where_it_would_alone<S, T, U, V>(
    part: Task<S, T>,
    whole: Task<U, V>,
    before: Seq<AnswerView>,
    wrap: spec_fn(S) -> U,
    lift: spec_fn(nat, StepView<S, T>) -> StepView<U, V>,
    answers: Seq<AnswerView>,
)
    requires
        follows(part, whole, before.len(), wrap, lift),
        standing(whole, before) == lift(before.len(), part(0, TurnView::Begin)),
        answers.len() > 0 ==> standing(part, answers.drop_last()) is Ask,
    ensures
        standing(whole, before + answers) == lift(
            before.len() + answers.len(),
            standing(part, answers),
        ),
    decreases answers.len(),
{
    if answers.len() == 0 {
        assert(before + answers =~= before);
    } else {
        let front = answers.drop_last();
        a_part_stands_where_it_would_alone(part, whole, before, wrap, lift, front);
        assert((before + answers).drop_last() =~= before + front);
        assert((before + answers).last() == answers.last());
        let stage = standing(part, front)->stage;
        let answer = answers.last();
        assert(standing(part, front) == (StepView::<S, T>::Ask {
            stage,
            request: standing(part, front)->request,
        }));
        assert(standing(part, answers) == part(answers.len(), TurnView::Resume { stage, answer }));
    }
}

/// Where a task gets on its own, it gets as part of a larger one that follows it.
pub proof fn a_part_gets_where_it_would_alone<S, T, U, V>(
    part: Task<S, T>,
    whole: Task<U, V>,
    before: Seq<RequestView>,
    wrap: spec_fn(S) -> U,
    lift: spec_fn(nat, StepView<S, T>) -> StepView<U, V>,
    from: Run<S, T>,
    to: Run<S, T>,
)
    requires
        follows(part, whole, before.len(), wrap, lift),
        leads_to(part, from, to),
    ensures
        leads_to(whole, embedded(before, lift, from), embedded(before, lift, to)),
{
    let n = choose|n: nat| #[trigger] after(part, from, n) == to;
    embedding(part, whole, before, wrap, lift, from, n);
}

proof fn embedding<S, T, U, V>(
    part: Task<S, T>,
    whole: Task<U, V>,
    before: Seq<RequestView>,
    wrap: spec_fn(S) -> U,
    lift: spec_fn(nat, StepView<S, T>) -> StepView<U, V>,
    from: Run<S, T>,
    n: nat,
)
    requires
        follows(part, whole, before.len(), wrap, lift),
    ensures
        leads_to(
            whole,
            embedded(before, lift, from),
            embedded(before, lift, after(part, from, n)),
        ),
    decreases n,
{
    let outer = embedded(before, lift, from);
    if n == 0 {
        leads_to_is_reflexive(whole, outer);
    } else if !(from.step is Ask) {
        stays(part, from, n);
        leads_to_is_reflexive(whole, outer);
    } else {
        let next = advanced(part, from);
        embedding(part, whole, before, wrap, lift, next, (n - 1) as nat);
        leads_one_further(whole, outer);
        assert(before + next.log =~= (before + from.log).push(from.step->request));
        assert(advanced(whole, outer) == embedded(before, lift, next));
        leads_to_is_transitive(
            whole,
            outer,
            embedded(before, lift, next),
            embedded(before, lift, after(part, from, n)),
        );
    }
}

} // verus!
