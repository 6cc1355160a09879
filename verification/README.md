# rustfs_operator

A Kubernetes operator for RustFS: it keeps buckets, IAM users and access keys of
a RustFS server in line with custom resources.

What the operator decides about these resources is in `src/`, and is verified
with Verus. `src/` performs no I/O. Each task is a function from a turn to a step: a step
asks for a request to be performed, and the next turn hands the answer back.

| Where | What |
|-------|------|
| `src/crd.rs` | the custom resources, as far as decisions read them |
| `src/exchange.rs` | requests, replies, turns and steps |
| `src/connection.rs` | from a connection reference to a server |
| `src/provider.rs` | what a server's responses count as |
| `src/reconcile/` | bringing buckets, users and access keys in line; applying and cleaning up after their resources |
| `src/lifecycle.rs`, `src/json.rs`, `src/secret.rs`, `src/text.rs`, `src/error.rs` | the values that this takes |
| `src/model.rs` | a cluster and a server as they ought to behave, for proofs only |
| `src/laws/` | what the tasks achieve and what they leave alone |
| `app/` | the program: command line, controllers, Kubernetes and S3 clients |

The program declares a Policy resource too, but nothing reconciles it.

The laws come in two sorts. Some hold whatever the answers are: a spec field that
is unset is neither read nor written, a password is only sent to create a user,
credentials are only read where they belong. The others hold where cluster and
server behave: a task ends, what the resource asks for is there, nothing else has
changed, and doing it again only reads.
