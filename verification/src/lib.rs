//! Decision core of a Kubernetes operator for RustFS.
//!
//! The operator keeps buckets, IAM users and access keys of a RustFS server in
//! line with custom resources. This crate holds everything that is decided on
//! the way: which server a resource selects, which request comes next, what a
//! reply means, what ends up in the status. It performs no I/O. Each task is a
//! sequence of [`exchange::Step`]s: the caller performs the request of a step
//! and hands the reply back.

pub mod connection;
pub mod crd;
pub mod error;
pub mod exchange;
pub mod json;
pub mod laws;
pub mod lifecycle;
pub mod model;
pub mod provider;
pub mod reconcile;
pub mod secret;
pub mod text;
