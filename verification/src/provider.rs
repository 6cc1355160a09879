//! What a RustFS server's responses count as.
//!
//! A server tells "not found" as an error. To a deletion and to a lookup it is
//! none: what is not there need not be deleted, and its absence is an answer.

use vstd::prelude::*;

use crate::error::{Error, ErrorView};
use crate::exchange::{answer_view, Answer, AnswerView, RemoteUser, Reply, ReplyView};
use crate::text::list_holds;

verus! {

/// An error response of a server, with its message.
#[derive(Clone, Debug, PartialEq, Eq)]
pub enum Refusal {
    /// What the request is about is not there.
    NotFound(String),
    /// Anything else.
    Other(String),
}

impl Refusal {
    /// The error that a refusal is to those who do not expect it.
    pub open spec fn as_error(self) -> ErrorView {
        match self {
            Refusal::NotFound(text) => ErrorView::RustFs(text@),
            Refusal::Other(text) => ErrorView::RustFs(text@),
        }
    }

    /// Makes a refusal an error.
    fn into_error(self) -> (error: Error)
        ensures
            error.deep_view() == self.as_error(),
    {
        match self {
            Refusal::NotFound(text) => Error::RustFs(text),
            Refusal::Other(text) => Error::RustFs(text),
        }
    }
}

/// What a response counts as, where `reply` is what it tells and `absence` is
/// what "not found" tells, if that is no error.
pub open spec fn counted<T>(
    response: Result<T, Refusal>,
    reply: spec_fn(T) -> ReplyView,
    absence: Option<ReplyView>,
) -> AnswerView {
    match (response, absence) {
        (Ok(value), _) => Ok(reply(value)),
        (Err(Refusal::NotFound(_)), Some(absence)) => Ok(absence),
        (Err(refusal), _) => Err(refusal.as_error()),
    }
}

/// Whether an answer is an error of the server with a message.
pub open spec fn tells(answer: Answer, message: Seq<char>) -> bool {
    answer matches Err(Error::RustFs(text)) && text@ == message
}

/// Takes the response to a write.
pub fn written(response: Result<(), Refusal>) -> (answer: Answer)
    ensures
        answer_view(answer) == counted(response, |value: ()| ReplyView::Done, None),
        response is Ok ==> answer is Ok && answer->Ok_0 is Done,
        response matches Err(Refusal::NotFound(text)) ==> tells(answer, text@),
        response matches Err(Refusal::Other(text)) ==> tells(answer, text@),
{
    match response {
        Ok(()) => Ok(Reply::Done),
        Err(refusal) => Err(refusal.into_error()),
    }
}

/// Takes the response to a deletion. It is no error that there is nothing to
/// delete.
pub fn deleted(response: Result<(), Refusal>) -> (answer: Answer)
    ensures
        answer_view(answer) == counted(
            response,
            |value: ()| ReplyView::Done,
            Some(ReplyView::Done),
        ),
        response is Ok ==> answer is Ok && answer->Ok_0 is Done,
        response matches Err(Refusal::NotFound(_)) ==> answer is Ok && answer->Ok_0 is Done,
        response matches Err(Refusal::Other(text)) ==> tells(answer, text@),
{
    match response {
        Ok(()) => Ok(Reply::Done),
        Err(Refusal::NotFound(_)) => Ok(Reply::Done),
        Err(refusal) => Err(refusal.into_error()),
    }
}

/// Takes the response to looking up a user, who need not be there.
pub fn user_found(response: Result<RemoteUser, Refusal>) -> (answer: Answer)
    ensures
        answer_view(answer) == counted(
            response,
            |user: RemoteUser| ReplyView::User(Some(user.deep_view())),
            Some(ReplyView::User(None)),
        ),
        response matches Ok(user) ==> answer is Ok && (answer->Ok_0 matches Reply::User(Some(found))
            && found == user),
        response matches Err(Refusal::NotFound(_)) ==> answer is Ok && (answer->Ok_0 matches
            Reply::User(None)),
        response matches Err(Refusal::Other(text)) ==> tells(answer, text@),
{
    match response {
        Ok(user) => Ok(Reply::User(Some(user))),
        Err(Refusal::NotFound(_)) => Ok(Reply::User(None)),
        Err(refusal) => Err(refusal.into_error()),
    }
}

/// Takes the response to reading the quota of a bucket, which need not have one.
pub fn quota_found(response: Result<Option<u64>, Refusal>) -> (answer: Answer)
    ensures
        answer_view(answer) == counted(
            response,
            |bytes: Option<u64>| ReplyView::Quota(bytes),
            Some(ReplyView::Quota(None)),
        ),
        response matches Ok(bytes) ==> answer is Ok && (answer->Ok_0 matches Reply::Quota(found)
            && found == bytes),
        response matches Err(Refusal::NotFound(_)) ==> answer is Ok && (answer->Ok_0 matches
            Reply::Quota(None)),
        response matches Err(Refusal::Other(text)) ==> tells(answer, text@),
{
    match response {
        Ok(bytes) => Ok(Reply::Quota(bytes)),
        Err(Refusal::NotFound(_)) => Ok(Reply::Quota(None)),
        Err(refusal) => Err(refusal.into_error()),
    }
}

/// Takes the response to listing the access keys of a user: whether one of them
/// is there.
pub fn key_listed(response: Result<Vec<String>, Refusal>, access_key: &str) -> (answer: Answer)
    ensures
        answer_view(answer) == counted(
            response,
            |keys: Vec<String>| ReplyView::Exists(keys.deep_view().contains(access_key@)),
            None,
        ),
        response matches Ok(keys) ==> answer is Ok && (answer->Ok_0 matches Reply::Exists(listed)
            && (listed <==> exists|i: int|
            0 <= i < keys@.len() && (#[trigger] keys@[i])@ == access_key@)),
        response matches Err(Refusal::NotFound(text)) ==> tells(answer, text@),
        response matches Err(Refusal::Other(text)) ==> tells(answer, text@),
{
    match response {
        Ok(keys) => {
            let listed = list_holds(&keys, access_key);
            proof {
                let names = keys.deep_view();
                if listed {
                    let i = choose|i: int| 0 <= i < names.len() && names[i] == access_key@;
                    assert(keys@[i]@ == access_key@);
                }
                assert forall|i: int|
                    0 <= i < keys@.len() && (#[trigger] keys@[i])@ == access_key@ implies listed by {
                    assert(names[i] == access_key@);
                }
            }
            Ok(Reply::Exists(listed))
        },
        Err(refusal) => Err(refusal.into_error()),
    }
}

} // verus!
