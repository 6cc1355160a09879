//! Which server a resource gets, and what is read on the way.

use vstd::prelude::*;

use crate::connection::{
    cluster_connection, connect_first, connect_step, local_connection, required_text,
    ConnectStageView,
};
use crate::crd::{ClusterConnectionView, ConnectionRef, SecretKeyRef};
use crate::error::ErrorView;
use crate::exchange::{AnswerView, ConnectionInfoView, ReplyView, RequestView, StepView, TurnView};
use crate::laws::values::has_text;
use crate::model::{
    advanced, begun, leads_one_further, leads_to, leads_to_is_transitive, only_reads, standing, Run,
    Task, World,
};
use crate::secret::text_at;

verus! {

/// The task of connecting to the server that a reference selects.
pub open spec fn connecting(
    namespace: Seq<char>,
    operator_namespace: Seq<char>,
    conn: ConnectionRef,
) -> Task<ConnectStageView, Seq<char>> {
    |count: nat, turn: TurnView<ConnectStageView>|
        connect_step(namespace, operator_namespace, conn, turn)
}

/// A reference is only followed where exactly one of its forms is set; else the
/// spec is at fault.
pub proof fn exactly_one_form_must_be_set(namespace: Seq<char>, conn: ConnectionRef)
    ensures
        connect_first(namespace, conn) is Ask <==> (conn.secret_ref is Some) != (
        conn.cluster_ref is Some),
        !(connect_first(namespace, conn) is Ask) ==> connect_first(namespace, conn) matches
            StepView::Failed(ErrorView::Spec(_)),
{
}

/// The error for a namespace that may not use a connection.
pub open spec fn not_allowed(namespace: Seq<char>, name: Seq<char>) -> ErrorView {
    ErrorView::Connection(
        "namespace '"@ + namespace + "' is not allowed to use ClusterConnection '"@ + name + "'"@,
    )
}

/// What holds wherever the task of connecting stands.
spec fn sound(
    namespace: Seq<char>,
    operator_namespace: Seq<char>,
    conn: ConnectionRef,
    answers: Seq<AnswerView>,
    step: StepView<ConnectStageView, Seq<char>>,
) -> bool {
    &&& step matches StepView::Ask { stage, request } ==> match stage {
        ConnectStageView::LocalSecret { name } => {
            &&& answers.len() == 0
            &&& conn.secret_ref matches Some(secret) && secret@ == name
            &&& conn.cluster_ref is None
            &&& request == (RequestView::GetSecret { namespace, name })
        },
        ConnectStageView::ClusterConnection { name } => {
            &&& answers.len() == 0
            &&& conn.cluster_ref matches Some(cluster) && cluster@ == name
            &&& conn.secret_ref is None
            &&& request == (RequestView::GetClusterConnection { name })
        },
        ConnectStageView::ClusterSecret { conn: cluster } => {
            &&& answers.len() == 1
            &&& conn.secret_ref is None
            &&& answers[0] matches Ok(reply) && reply->ClusterConnection_0 == cluster
            &&& cluster.allows(namespace)
            &&& request == (RequestView::GetSecret {
                namespace: operator_namespace,
                name: cluster.credentials_secret_ref,
            })
        },
        ConnectStageView::Connecting => {
            &&& answers.len() == if conn.secret_ref is Some {
                1nat
            } else {
                2nat
            }
            &&& request is Connect
        },
    }
}

proof fn every_step_is_sound(
    namespace: Seq<char>,
    operator_namespace: Seq<char>,
    conn: ConnectionRef,
    answers: Seq<AnswerView>,
)
    ensures
        sound(
            namespace,
            operator_namespace,
            conn,
            answers,
            standing(connecting(namespace, operator_namespace, conn), answers),
        ),
    decreases answers.len(),
{
    if answers.len() > 0 {
        every_step_is_sound(namespace, operator_namespace, conn, answers.drop_last());
    }
}

/// Whatever the answers are, a Secret is only read in one of two places: the one
/// that the resource names, in its own namespace; or the credentials of its
/// ClusterConnection, in the operator's namespace, once that connection has been
/// found to allow the resource's namespace.
pub proof fn secrets_are_read_where_they_belong(
    namespace: Seq<char>,
    operator_namespace: Seq<char>,
    conn: ConnectionRef,
    answers: Seq<AnswerView>,
)
    ensures
        standing(connecting(namespace, operator_namespace, conn), answers) matches StepView::Ask {
            request: RequestView::GetSecret { namespace: place, name },
            ..
        } ==> {
            ||| {
                &&& conn.secret_ref matches Some(secret) && name == secret@
                &&& place == namespace
            }
            ||| {
                &&& conn.secret_ref is None
                &&& answers.len() > 0
                &&& answers[0] matches Ok(reply)
                &&& reply->ClusterConnection_0.allows(namespace)
                &&& name == reply->ClusterConnection_0.credentials_secret_ref
                &&& place == operator_namespace
            }
        },
{
    every_step_is_sound(namespace, operator_namespace, conn, answers);
}

/// Whatever follows, a resource in a namespace that its ClusterConnection does
/// not allow is refused, and nothing more is asked for.
pub proof fn a_namespace_that_is_not_allowed_is_refused(
    namespace: Seq<char>,
    operator_namespace: Seq<char>,
    conn: ConnectionRef,
    answers: Seq<AnswerView>,
    cluster: ClusterConnectionView,
)
    requires
        conn.secret_ref is None,
        conn.cluster_ref is Some,
        answers.len() > 0,
        answers[0] == (Ok::<ReplyView, ErrorView>(ReplyView::ClusterConnection(cluster))),
        !cluster.allows(namespace),
    ensures
        standing(connecting(namespace, operator_namespace, conn), answers) == (StepView::<
            ConnectStageView,
            Seq<char>,
        >::Failed(not_allowed(namespace, conn.cluster_ref->0@))),
    decreases answers.len(),
{
    let task = connecting(namespace, operator_namespace, conn);
    if answers.len() == 1 {
        assert(standing(task, answers.drop_last()) == connect_first(namespace, conn));
    } else {
        a_namespace_that_is_not_allowed_is_refused(
            namespace,
            operator_namespace,
            conn,
            answers.drop_last(),
            cluster,
        );
    }
}

/// What connecting begins with: the Secret that the reference names, in the
/// resource's own namespace, or the ClusterConnection that it names. With both or
/// neither named, it ends at once.
pub proof fn connecting_begins_with_what_is_named(
    namespace: Seq<char>,
    operator_namespace: Seq<char>,
    conn: ConnectionRef,
)
    ensures
        ({
            let step = standing(connecting(namespace, operator_namespace, conn), seq![]);
            match (conn.secret_ref, conn.cluster_ref) {
                (Some(secret), None) => step matches StepView::Ask { request, .. } && request == (
                RequestView::GetSecret { namespace, name: secret@ }),
                (None, Some(cluster)) => step matches StepView::Ask { request, .. } && request == (
                RequestView::GetClusterConnection { name: cluster@ }),
                (Some(_), Some(_)) => step == (StepView::<ConnectStageView, Seq<char>>::Failed(
                    ErrorView::Spec(
                        "connection.secretRef and connection.clusterRef are mutually exclusive"@,
                    ),
                )),
                (None, None) => step == (StepView::<ConnectStageView, Seq<char>>::Failed(
                    ErrorView::Spec("connection must set either secretRef or clusterRef"@),
                )),
            }
        }),
{
}

/// Whether a key holds a text that is not empty.
pub open spec fn is_there(secret: Option<Map<Seq<char>, Seq<u8>>>, key: Seq<char>) -> bool {
    exists|text: Seq<char>| #[trigger] has_text(secret, key, text) && text.len() > 0
}

/// Whether a step is the failure over a key that a Secret lacks.
pub open spec fn lacks(
    step: StepView<ConnectStageView, Seq<char>>,
    name: Seq<char>,
    key: Seq<char>,
) -> bool {
    step == (StepView::<ConnectStageView, Seq<char>>::Failed(
        ErrorView::Connection("secret '"@ + name + "' is missing key '"@ + key + "'"@),
    ))
}

/// What follows once the Secret that a resource names has been read: the first
/// key that is missing is named, else the server is connected to with the texts
/// under its keys. The region is the text under `region` whenever there is one,
/// whatever the other keys hold, and `us-east-1` only where there is none; TLS
/// verification is skipped exactly where `insecure` is `true`.
pub proof fn a_local_secret_says_how_to_connect(
    namespace: Seq<char>,
    operator_namespace: Seq<char>,
    conn: ConnectionRef,
    secret: Option<Map<Seq<char>, Seq<u8>>>,
)
    requires
        conn.secret_ref is Some,
        conn.cluster_ref is None,
    ensures
        ({
            let step = standing(
                connecting(namespace, operator_namespace, conn),
                seq![Ok(ReplyView::Secret(secret))],
            );
            let name = conn.secret_ref->0@;
            &&& !is_there(secret, "endpoint"@) ==> lacks(step, name, "endpoint"@)
            &&& is_there(secret, "endpoint"@) && !is_there(secret, "accessKey"@) ==> lacks(
                step,
                name,
                "accessKey"@,
            )
            &&& is_there(secret, "endpoint"@) && is_there(secret, "accessKey"@) && !is_there(
                secret,
                "secretKey"@,
            ) ==> lacks(step, name, "secretKey"@)
            &&& is_there(secret, "endpoint"@) && is_there(secret, "accessKey"@) && is_there(
                secret,
                "secretKey"@,
            ) ==> {
                &&& step matches StepView::Ask { request: RequestView::Connect { info }, .. }
                &&& has_text(secret, "endpoint"@, info.endpoint)
                &&& has_text(secret, "accessKey"@, info.access_key)
                &&& has_text(secret, "secretKey"@, info.secret_key)
                &&& (exists|region: Seq<char>| has_text(secret, "region"@, region)) ==> has_text(
                    secret,
                    "region"@,
                    info.region,
                )
                &&& !(exists|region: Seq<char>| has_text(secret, "region"@, region)) ==> info.region
                    == "us-east-1"@
                &&& info.insecure <==> has_text(secret, "insecure"@, "true"@)
            }
        }),
{
    let task = connecting(namespace, operator_namespace, conn);
    let answers: Seq<AnswerView> = seq![Ok(ReplyView::Secret(secret))];
    assert(answers.drop_last() =~= seq![]);
    assert(standing(task, answers.drop_last()) == connect_first(namespace, conn));
    lemma_is_there(secret, "endpoint"@);
    lemma_is_there(secret, "accessKey"@);
    lemma_is_there(secret, "secretKey"@);
    if let Some(region) = text_at(secret, "region"@) {
        assert(has_text(secret, "region"@, region));
    }
}

/// A key holds a text that is not empty exactly if that text can be read.
proof fn lemma_is_there(secret: Option<Map<Seq<char>, Seq<u8>>>, key: Seq<char>)
    ensures
        is_there(secret, key) <==> (text_at(secret, key) matches Some(text) && text.len() > 0),
{
    if let Some(text) = text_at(secret, key) {
        assert(has_text(secret, key, text));
    }
}

/// What follows once a ClusterConnection that allows the namespace has been read:
/// its credentials are read from the operator's namespace. Then the first key
/// that is missing is named, else the server is connected to with the endpoint,
/// the region and the TLS setting of the ClusterConnection and with the
/// credentials of the Secret.
pub proof fn a_cluster_connection_says_how_to_connect(
    namespace: Seq<char>,
    operator_namespace: Seq<char>,
    conn: ConnectionRef,
    cluster: ClusterConnectionView,
    secret: Option<Map<Seq<char>, Seq<u8>>>,
)
    requires
        conn.secret_ref is None,
        conn.cluster_ref is Some,
        cluster.allows(namespace),
    ensures
        ({
            let task = connecting(namespace, operator_namespace, conn);
            let read: AnswerView = Ok(ReplyView::ClusterConnection(cluster));
            let first = standing(task, seq![read]);
            let step = standing(task, seq![read, Ok(ReplyView::Secret(secret))]);
            let name = cluster.credentials_secret_ref;
            &&& first matches StepView::Ask { request, .. } && request == (RequestView::GetSecret {
                namespace: operator_namespace,
                name,
            })
            &&& !is_there(secret, "accessKey"@) ==> lacks(step, name, "accessKey"@)
            &&& is_there(secret, "accessKey"@) && !is_there(secret, "secretKey"@) ==> lacks(
                step,
                name,
                "secretKey"@,
            )
            &&& is_there(secret, "accessKey"@) && is_there(secret, "secretKey"@) ==> {
                &&& step matches StepView::Ask { request: RequestView::Connect { info }, .. }
                &&& info.endpoint == cluster.endpoint
                &&& has_text(secret, "accessKey"@, info.access_key)
                &&& has_text(secret, "secretKey"@, info.secret_key)
                &&& cluster.region matches Some(region) ==> info.region == region
                &&& cluster.region is None ==> info.region == "us-east-1"@
                &&& info.insecure == cluster.insecure
            }
        }),
{
    let task = connecting(namespace, operator_namespace, conn);
    let read: AnswerView = Ok(ReplyView::ClusterConnection(cluster));
    let one = seq![read];
    let two = seq![read, Ok(ReplyView::Secret(secret))];
    assert(one.drop_last() =~= seq![]);
    assert(standing(task, one.drop_last()) == connect_first(namespace, conn));
    assert(two.drop_last() =~= one);
    lemma_is_there(secret, "accessKey"@);
    lemma_is_there(secret, "secretKey"@);
}

/// What cannot be read is named, with the reason.
pub proof fn what_cannot_be_read_is_named(
    namespace: Seq<char>,
    operator_namespace: Seq<char>,
    conn: ConnectionRef,
    cluster: ClusterConnectionView,
    error: ErrorView,
)
    ensures
        ({
            let task = connecting(namespace, operator_namespace, conn);
            let read: AnswerView = Ok(ReplyView::ClusterConnection(cluster));
            let first = standing(task, seq![Err(error)]);
            let second = standing(task, seq![read, Err(error)]);
            &&& conn.secret_ref is Some && conn.cluster_ref is None ==> first == (StepView::<
                ConnectStageView,
                Seq<char>,
            >::Failed(
                ErrorView::Connection(
                    "cannot read secret '"@ + namespace + "/"@ + conn.secret_ref->0@ + "': "@
                        + error.message(),
                ),
            ))
            &&& conn.secret_ref is None && conn.cluster_ref is Some ==> first == (StepView::<
                ConnectStageView,
                Seq<char>,
            >::Failed(
                ErrorView::Connection(
                    "cannot read ClusterConnection '"@ + conn.cluster_ref->0@ + "': "@
                        + error.message(),
                ),
            ))
            &&& conn.secret_ref is None && conn.cluster_ref is Some && cluster.allows(namespace)
                ==> second == (StepView::<ConnectStageView, Seq<char>>::Failed(
                ErrorView::Connection(
                    "cannot read secret '"@ + operator_namespace + "/"@
                        + cluster.credentials_secret_ref + "': "@ + error.message(),
                ),
            ))
        }),
{
    let task = connecting(namespace, operator_namespace, conn);
    let read: AnswerView = Ok(ReplyView::ClusterConnection(cluster));
    let fail: AnswerView = Err(error);
    assert(seq![fail].drop_last() =~= seq![]);
    assert(seq![read].drop_last() =~= seq![]);
    assert(seq![read, fail].drop_last() =~= seq![read]);
    assert(standing(task, seq![]) == connect_first(namespace, conn));
    if let StepView::Ask { stage, .. } = connect_first(namespace, conn) {
        assert(standing(task, seq![read]) == task(1, TurnView::Resume { stage, answer: read }));
    }
}

/// What follows a request to connect: the endpoint that the server answered
/// with, or the error that it failed with.
pub proof fn a_connection_ends_with_its_endpoint(
    namespace: Seq<char>,
    operator_namespace: Seq<char>,
    conn: ConnectionRef,
    answers: Seq<AnswerView>,
    endpoint: Seq<char>,
    error: ErrorView,
)
    requires
        standing(connecting(namespace, operator_namespace, conn), answers) matches StepView::Ask {
            request: RequestView::Connect { .. },
            ..
        },
    ensures
        ({
            let task = connecting(namespace, operator_namespace, conn);
            &&& standing(task, answers.push(Ok(ReplyView::Connected { endpoint }))) == (StepView::<
                ConnectStageView,
                Seq<char>,
            >::Done(endpoint))
            &&& standing(task, answers.push(Err(error))) == (StepView::<
                ConnectStageView,
                Seq<char>,
            >::Failed(error))
        }),
{
    every_step_is_sound(namespace, operator_namespace, conn, answers);
    assert(answers.push(Ok(ReplyView::Connected { endpoint })).drop_last() =~= answers);
    assert(answers.push(Err(error)).drop_last() =~= answers);
}

/// The connection that a Secret describes is made of the texts under its keys;
/// the region is the text under `region` whenever there is one, whatever the
/// other keys hold.
pub proof fn a_local_connection_is_what_its_secret_holds(
    secret: Option<Map<Seq<char>, Seq<u8>>>,
    name: Seq<char>,
    region: Seq<char>,
)
    ensures
        local_connection(secret, name) is Ok <==> is_there(secret, "endpoint"@) && is_there(
            secret,
            "accessKey"@,
        ) && is_there(secret, "secretKey"@),
        local_connection(secret, name) matches Ok(info) ==> {
            &&& has_text(secret, "endpoint"@, info.endpoint)
            &&& has_text(secret, "accessKey"@, info.access_key)
            &&& has_text(secret, "secretKey"@, info.secret_key)
            &&& has_text(secret, "region"@, region) ==> info.region == region
            &&& !(exists|text: Seq<char>| has_text(secret, "region"@, text)) ==> info.region
                == "us-east-1"@
            &&& info.insecure <==> has_text(secret, "insecure"@, "true"@)
        },
{
    lemma_is_there(secret, "endpoint"@);
    lemma_is_there(secret, "accessKey"@);
    lemma_is_there(secret, "secretKey"@);
    if let Some(text) = text_at(secret, "region"@) {
        assert(has_text(secret, "region"@, text));
    }
}

/// The connection that a ClusterConnection describes has its endpoint, region and
/// TLS setting from there, and its credentials from the Secret.
pub proof fn a_cluster_connection_is_what_it_says(
    cluster: ClusterConnectionView,
    secret: Option<Map<Seq<char>, Seq<u8>>>,
)
    ensures
        cluster_connection(cluster, secret) is Ok <==> is_there(secret, "accessKey"@) && is_there(
            secret,
            "secretKey"@,
        ),
        cluster_connection(cluster, secret) matches Ok(info) ==> {
            &&& info.endpoint == cluster.endpoint
            &&& has_text(secret, "accessKey"@, info.access_key)
            &&& has_text(secret, "secretKey"@, info.secret_key)
            &&& cluster.region matches Some(region) ==> info.region == region
            &&& cluster.region is None ==> info.region == "us-east-1"@
            &&& info.insecure == cluster.insecure
        },
{
    lemma_is_there(secret, "accessKey"@);
    lemma_is_there(secret, "secretKey"@);
}

/// Whether a reference leads to a connection: what it names is there, allows the
/// namespace, and holds what is needed.
pub open spec fn resolves_to(
    world: World,
    namespace: Seq<char>,
    operator_namespace: Seq<char>,
    conn: ConnectionRef,
    info: ConnectionInfoView,
) -> bool {
    match (conn.secret_ref, conn.cluster_ref) {
        (Some(secret), None) => {
            &&& world.secrets.contains_key((namespace, secret@))
            &&& local_connection(Some(world.secrets[(namespace, secret@)]), secret@) == (Ok::<
                ConnectionInfoView,
                ErrorView,
            >(info))
        },
        (None, Some(name)) => {
            let cluster = world.connections[name@];
            let place = (operator_namespace, cluster.credentials_secret_ref);
            &&& world.connections.contains_key(name@)
            &&& cluster.allows(namespace)
            &&& world.secrets.contains_key(place)
            &&& cluster_connection(cluster, Some(world.secrets[place])) == (Ok::<
                ConnectionInfoView,
                ErrorView,
            >(info))
        },
        _ => false,
    }
}

/// The requests that connecting takes, where the reference leads to a connection.
pub open spec fn connect_log(
    world: World,
    namespace: Seq<char>,
    operator_namespace: Seq<char>,
    conn: ConnectionRef,
    info: ConnectionInfoView,
) -> Seq<RequestView> {
    match (conn.secret_ref, conn.cluster_ref) {
        (Some(secret), _) => seq![
            RequestView::GetSecret { namespace, name: secret@ },
            RequestView::Connect { info },
        ],
        (None, Some(name)) => seq![
            RequestView::GetClusterConnection { name: name@ },
            RequestView::GetSecret {
                namespace: operator_namespace,
                name: world.connections[name@].credentials_secret_ref,
            },
            RequestView::Connect { info },
        ],
        (None, None) => seq![],
    }
}

/// In a cluster that behaves, a reference that leads to a connection is followed
/// to it. That only reads.
pub proof fn a_reference_is_followed(
    world: World,
    namespace: Seq<char>,
    operator_namespace: Seq<char>,
    conn: ConnectionRef,
    info: ConnectionInfoView,
)
    requires
        resolves_to(world, namespace, operator_namespace, conn, info),
    ensures
        leads_to(
            connecting(namespace, operator_namespace, conn),
            begun(connecting(namespace, operator_namespace, conn), world),
            (Run {
                world,
                log: connect_log(world, namespace, operator_namespace, conn, info),
                step: StepView::Done(info.endpoint),
            }),
        ),
        only_reads(connect_log(world, namespace, operator_namespace, conn, info)),
{
    let task = connecting(namespace, operator_namespace, conn);
    let r0 = begun(task, world);
    let r1 = advanced(task, r0);
    let r2 = advanced(task, r1);
    let log = connect_log(world, namespace, operator_namespace, conn, info);
    leads_one_further(task, r0);
    leads_one_further(task, r1);
    leads_to_is_transitive(task, r0, r1, r2);
    if conn.secret_ref is Some {
        assert(r2.log =~= log);
    } else {
        let r3 = advanced(task, r2);
        leads_one_further(task, r2);
        leads_to_is_transitive(task, r0, r2, r3);
        assert(r3.log =~= log);
    }
}

/// Whether a key reference names a text that is there, under the key that it
/// names or else the default one.
pub open spec fn names_text(
    world: World,
    namespace: Seq<char>,
    sref: SecretKeyRef,
    default_key: Seq<char>,
    text: Seq<char>,
) -> bool {
    let place = (namespace, sref.name@);
    &&& world.secrets.contains_key(place)
    &&& required_text(
        Some(world.secrets[place]),
        sref.effective_key(default_key),
        sref.name@,
    ) == (Ok::<Seq<char>, ErrorView>(text))
}

} // verus!
