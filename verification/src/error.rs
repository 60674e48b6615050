//! What can go wrong when metadata is read from, or written to, the wire.

use vstd::prelude::*;

verus! {

/// Why metadata could not be read or written.
#[derive(Debug)]
pub enum MetaError {
    /// Routing information lacks a part that it must have.
    RouteInfoCorrupted { err_msg: String },
    /// A value could not be written as JSON.
    SerdeJson { source: serde_json::Error },
    /// The server answered with an error.
    IllegalServerState { code: i32, err_msg: String },
}

/// What a [`MetaError`] says.
pub enum ErrorView {
    RouteInfoCorrupted { err_msg: Seq<char> },
    SerdeJson { source: serde_json::Error },
    IllegalServerState { code: i32, err_msg: Seq<char> },
}

impl View for MetaError {
    type V = ErrorView;

    open spec fn view(&self) -> ErrorView {
        match *self {
            MetaError::RouteInfoCorrupted { err_msg } => ErrorView::RouteInfoCorrupted {
                err_msg: err_msg@,
            },
            MetaError::SerdeJson { source } => ErrorView::SerdeJson { source },
            MetaError::IllegalServerState { code, err_msg } => ErrorView::IllegalServerState {
                code,
                err_msg: err_msg@,
            },
        }
    }
}

/// The error for routing information that lacks a part, told by `err_msg`.
pub open spec fn corrupted(err_msg: Seq<char>) -> ErrorView {
    ErrorView::RouteInfoCorrupted { err_msg }
}

/// What a fallible function returned, with the value and the error taken by
/// their views.
pub open spec fn outcome<T: DeepView>(res: Result<T, MetaError>) -> Result<T::V, ErrorView> {
    match res {
        Ok(value) => Ok(value.deep_view()),
        Err(error) => Err(error@),
    }
}

/// The error for routing information that lacks a part.
pub(crate) fn route_info_corrupted(err_msg: &str) -> (res: MetaError)
    ensures
        res@ == corrupted(err_msg@),
{
    MetaError::RouteInfoCorrupted { err_msg: err_msg.to_owned() }
}

} // verus!
