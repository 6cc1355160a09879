//! What holds of the tasks as a whole: against any answers, and against a
//! cluster and a server that behave as they ought to.

pub mod access_key;
pub mod bucket;
pub mod cleanup;
pub mod connection;
pub mod turns;
pub mod user;
pub mod values;
pub mod views;
