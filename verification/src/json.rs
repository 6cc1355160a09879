//! JSON values, as `serde_json` holds, compares and writes them.

use serde_json::Error as JsonError;
use vstd::prelude::*;

verus! {

/// `serde_json::Value`: any JSON value. It is carried through, compared and
/// written out here, never looked into.
#[verifier::external_type_specification]
#[verifier::external_body]
pub struct ExValue(serde_json::Value);

/// `serde_json::Error`: why a value could not be turned into JSON.
#[verifier::external_type_specification]
#[verifier::external_body]
pub struct ExJsonError(JsonError);

/// The text that `serde_json::to_string` writes for a JSON value.
pub uninterp spec fn document_text(document: serde_json::Value) -> Seq<char>;

/// What the `==` of `serde_json::Value` returns.
pub uninterp spec fn json_equal(a: serde_json::Value, b: serde_json::Value) -> bool;

/// Calls `serde_json::to_string` on a JSON value.
///
/// The contract says that the call succeeds: the keys of an object are strings,
/// every number is finite, and the text is written to memory. It gives the text
/// a name; it does not say what the text looks like.
#[verifier::external_body]
pub(crate) fn document_json(document: &serde_json::Value) -> (written: Result<
    String,
    JsonError,
>)
    ensures
        written is Ok,
        written->Ok_0@ == document_text(*document),
{
    serde_json::to_string(document)
}

/// Compares two `serde_json::Value`s with their own `==`. The contract gives the
/// answer a name, and says that a value equals itself: a `serde_json` number is
/// never a NaN.
#[verifier::external_body]
pub(crate) fn same_json(a: &serde_json::Value, b: &serde_json::Value) -> (same: bool)
    ensures
        same == json_equal(*a, *b),
        *a == *b ==> same,
{
    a == b
}

} // verus!
