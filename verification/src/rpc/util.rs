//! What all responses have in common.

use vstd::prelude::*;

use crate::error::{ErrorView, MetaError};
use crate::pb;

verus! {

/// The error that a response's header reports, if it reports one.
pub open spec fn header_error(header: Option<pb::ResponseHeaderView>) -> Option<ErrorView> {
    match header {
        Some(pb::ResponseHeaderView { error: Some(error), .. }) => Some(
            ErrorView::IllegalServerState { code: error.code, err_msg: error.err_msg },
        ),
        _ => None,
    }
}

/// Fails with the error that a response's header reports, if it reports one.
pub fn check_response_header(header: Option<&pb::ResponseHeader>) -> (res: Result<(), MetaError>)
    ensures
        match res {
            Ok(()) => header_error(header.deep_view()) is None,
            Err(error) => header_error(header.deep_view()) == Some(error@),
        },
{
    if let Some(header) = header {
        if let Some(error) = &header.error {
            return Err(
                MetaError::IllegalServerState { code: error.code, err_msg: error.err_msg.clone() },
            );
        }
    }
    Ok(())
}

} // verus!
