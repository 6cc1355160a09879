//! What can go wrong while a resource is reconciled.

use vstd::prelude::*;

verus! {

/// A failure, with its message.
#[derive(Clone, Debug, PartialEq, Eq)]
pub enum Error {
    /// The RustFS server that the resource selects cannot be used.
    Connection(String),
    /// The resource's own spec is not usable.
    Spec(String),
    /// The finalizer of the resource failed.
    Finalizer(String),
    /// The Kubernetes API refused a request.
    Kube(String),
    /// The RustFS server refused a request.
    RustFs(String),
}

/// An [`Error`], seen as a mathematical value.
pub enum ErrorView {
    Connection(Seq<char>),
    Spec(Seq<char>),
    Finalizer(Seq<char>),
    Kube(Seq<char>),
    RustFs(Seq<char>),
}

impl DeepView for Error {
    type V = ErrorView;

    open spec fn deep_view(&self) -> ErrorView {
        match self {
            Error::Connection(text) => ErrorView::Connection(text@),
            Error::Spec(text) => ErrorView::Spec(text@),
            Error::Finalizer(text) => ErrorView::Finalizer(text@),
            Error::Kube(text) => ErrorView::Kube(text@),
            Error::RustFs(text) => ErrorView::RustFs(text@),
        }
    }
}

impl ErrorView {
    /// The message that the error carries.
    pub open spec fn message(self) -> Seq<char> {
        match self {
            ErrorView::Connection(text) => text,
            ErrorView::Spec(text) => text,
            ErrorView::Finalizer(text) => text,
            ErrorView::Kube(text) => text,
            ErrorView::RustFs(text) => text,
        }
    }
}

impl Error {
    /// The message that the error carries.
    pub fn message(&self) -> (text: &str)
        ensures
            text@ == self.deep_view().message(),
    {
        match self {
            Error::Connection(text) => text.as_str(),
            Error::Spec(text) => text.as_str(),
            Error::Finalizer(text) => text.as_str(),
            Error::Kube(text) => text.as_str(),
            Error::RustFs(text) => text.as_str(),
        }
    }
}

} // verus!
