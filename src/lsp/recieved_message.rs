//! Any message that the server receives.

use crate::lsp::notification::ClientServerNotification;
use crate::lsp::request::Request;
use vstd::prelude::*;

verus! {

/// A request or a notification.
#[derive(Debug)]
pub enum RecievedMessage<'a> {
    Request(Request),
    Notification(ClientServerNotification<'a>),
}

/// What becomes of one decoded message.
#[derive(Debug, Clone, Copy, PartialEq, Eq, Structural)]
pub enum Disposition {
    /// Hand it to the session.
    Dispatch,
    /// Answer with an invalid-parameters error: a request always gets a
    /// response.
    RejectParams,
    /// Drop it: a notification never gets a response.
    Ignore,
}

/// A message whose parameters have the expected shape is dispatched; one that
/// does not is answered when it is a request and dropped otherwise.
pub fn dispose(is_request: bool, parsed: bool) -> (r: Disposition)
    ensures
        parsed ==> r == Disposition::Dispatch,
        !parsed && is_request ==> r == Disposition::RejectParams,
        !parsed && !is_request ==> r == Disposition::Ignore,
{
    if parsed {
        Disposition::Dispatch
    } else if is_request {
        Disposition::RejectParams
    } else {
        Disposition::Ignore
    }
}

} // verus!
