//! Bucket lifecycle rules as they travel to and from the server.
//!
//! [`LifecycleRule`] has the fields of `rc_core::lifecycle::LifecycleRule`, the
//! wire type. The parts that no custom resource describes are carried as the
//! wire library's own values.

use std::collections::HashMap;

use rc_core::lifecycle as wire;
use serde_json::Error as JsonError;
use vstd::prelude::*;

use crate::crd::LifecycleStatus;
use crate::json::{json_equal, same_json};

verus! {

/// `rc_core::lifecycle::LifecycleTransition`: moving objects to another tier.
#[verifier::external_type_specification]
#[verifier::external_body]
pub struct ExTransition(rc_core::lifecycle::LifecycleTransition);

/// `rc_core::lifecycle::NoncurrentVersionExpiration`.
#[verifier::external_type_specification]
#[verifier::external_body]
pub struct ExNoncurrentVersionExpiration(rc_core::lifecycle::NoncurrentVersionExpiration);

/// `rc_core::lifecycle::NoncurrentVersionTransition`.
#[verifier::external_type_specification]
#[verifier::external_body]
pub struct ExNoncurrentVersionTransition(rc_core::lifecycle::NoncurrentVersionTransition);

/// When current object versions expire.
#[derive(Clone, Debug, PartialEq, Eq)]
pub struct LifecycleExpiration {
    /// Days after creation.
    pub days: Option<i32>,
    /// A date, in ISO 8601.
    pub date: Option<String>,
}

/// A lifecycle rule of a bucket.
#[derive(Debug)]
pub struct LifecycleRule {
    pub id: String,
    pub status: LifecycleStatus,
    /// Object-key prefix the rule applies to.
    pub prefix: Option<String>,
    /// Object tags the rule applies to.
    pub tags: Option<HashMap<String, String>>,
    pub expiration: Option<LifecycleExpiration>,
    pub transition: Option<wire::LifecycleTransition>,
    pub noncurrent_version_expiration: Option<wire::NoncurrentVersionExpiration>,
    pub noncurrent_version_transition: Option<wire::NoncurrentVersionTransition>,
    pub expired_object_delete_marker: Option<bool>,
    pub abort_incomplete_multipart_upload_days: Option<i32>,
}

/// A [`LifecycleExpiration`], seen as a mathematical value.
pub struct LifecycleExpirationView {
    pub days: Option<i32>,
    pub date: Option<Seq<char>>,
}

/// A [`LifecycleRule`], seen as a mathematical value.
pub struct LifecycleRuleView {
    pub id: Seq<char>,
    pub status: LifecycleStatus,
    pub prefix: Option<Seq<char>>,
    pub tags: Option<Map<Seq<char>, Seq<char>>>,
    pub expiration: Option<LifecycleExpirationView>,
    pub transition: Option<wire::LifecycleTransition>,
    pub noncurrent_version_expiration: Option<wire::NoncurrentVersionExpiration>,
    pub noncurrent_version_transition: Option<wire::NoncurrentVersionTransition>,
    pub expired_object_delete_marker: Option<bool>,
    pub abort_incomplete_multipart_upload_days: Option<i32>,
}

impl DeepView for LifecycleExpiration {
    type V = LifecycleExpirationView;

    open spec fn deep_view(&self) -> LifecycleExpirationView {
        LifecycleExpirationView { days: self.days, date: self.date.deep_view() }
    }
}

impl DeepView for LifecycleRule {
    type V = LifecycleRuleView;

    open spec fn deep_view(&self) -> LifecycleRuleView {
        LifecycleRuleView {
            id: self.id@,
            status: self.status,
            prefix: self.prefix.deep_view(),
            tags: self.tags.deep_view(),
            expiration: self.expiration.deep_view(),
            transition: self.transition,
            noncurrent_version_expiration: self.noncurrent_version_expiration,
            noncurrent_version_transition: self.noncurrent_version_transition,
            expired_object_delete_marker: self.expired_object_delete_marker,
            abort_incomplete_multipart_upload_days: self.abort_incomplete_multipart_upload_days,
        }
    }
}

/// What `serde_json::to_value` returns for lifecycle rules in their wire type.
pub uninterp spec fn lifecycle_value(rules: Seq<LifecycleRuleView>) -> serde_json::Value;

/// Calls `serde_json::to_value` on the rules, each as an
/// `rc_core::lifecycle::LifecycleRule`.
///
/// The contract says three things. The call succeeds: that type's `Serialize` is
/// derived, and its one map has strings for keys. The result depends on the
/// rules alone. And it shows them all: every field that is set is written under
/// a name of its own, so rules that differ have JSON forms that differ.
#[verifier::external_body]
fn lifecycle_json(rules: &Vec<LifecycleRule>) -> (value: Result<serde_json::Value, JsonError>)
    ensures
        value is Ok,
        value->Ok_0 == lifecycle_value(rules.deep_view()),
        forall|other: Seq<LifecycleRuleView>|
            json_equal(value->Ok_0, #[trigger] lifecycle_value(other)) ==> other
                == rules.deep_view(),
{
    let rule = |r: &LifecycleRule| wire::LifecycleRule {
        id: r.id.clone(),
        status: match r.status { LifecycleStatus::Enabled => wire::LifecycleRuleStatus::Enabled, LifecycleStatus::Disabled => wire::LifecycleRuleStatus::Disabled },
        prefix: r.prefix.clone(),
        tags: r.tags.clone(),
        expiration: r.expiration.clone().map(|e| wire::LifecycleExpiration { days: e.days, date: e.date }),
        transition: r.transition.clone(),
        noncurrent_version_expiration: r.noncurrent_version_expiration.clone(),
        noncurrent_version_transition: r.noncurrent_version_transition.clone(),
        expired_object_delete_marker: r.expired_object_delete_marker,
        abort_incomplete_multipart_upload_days: r.abort_incomplete_multipart_upload_days,
    };
    serde_json::to_value(rules.iter().map(rule).collect::<Vec<_>>())
}

/// Whether two lists of rules agree in every field. They are compared in their
/// JSON form, which covers everything on the wire.
pub fn lifecycle_eq(current: &Vec<LifecycleRule>, desired: &Vec<LifecycleRule>) -> (same: bool)
    ensures
        same == (current.deep_view() == desired.deep_view()),
{
    match (lifecycle_json(current), lifecycle_json(desired)) {
        (Ok(a), Ok(b)) => same_json(&a, &b),
        // What cannot be written out cannot be shown to match: rewrite rather
        // than silently leave a bucket unmanaged.
        _ => false,
    }
}

} // verus!
