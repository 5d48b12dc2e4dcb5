//! Notifications: messages that get no response.
//!
//! [`ClientServerNotification`] travels from the client to the server,
//! [`ServerClientNotification`] the other way.

pub mod did_change;
pub mod did_close;
pub mod did_open;
pub mod trace;

use crate::lsp::notification::did_change::DidChangeTextDocumentParams;
use crate::lsp::notification::did_open::DidOpenTextDocumentParams;
use crate::lsp::notification::trace::{LogTraceParams, SetTraceParams};
use vstd::prelude::*;

verus! {

/// A notification from the client, with its JSON-RPC version.
#[derive(Debug)]
pub struct ClientServerNotification<'a> {
    pub variant: ClientServerNotificationVariant<'a>,
    pub _jsonrpc: &'a str,
}

impl<'a> ClientServerNotification<'a> {
    pub fn into_variant(self) -> (r: ClientServerNotificationVariant<'a>)
        ensures
            r == self.variant,
    {
        self.variant
    }
}

/// The notifications that the client sends, by method.
#[derive(Debug)]
pub enum ClientServerNotificationVariant<'a> {
    /// `initialized`: the client has received the response to `initialize`.
    Initialized(InitializedParams),
    /// `$/setTrace`: the verbosity of the server's log notifications.
    SetTrace(SetTraceParams),
    /// `textDocument/didOpen`: the client opened a document.
    DidOpen(DidOpenTextDocumentParams<'a>),
    /// `textDocument/didChange`: the client changed an open document.
    DidChange(DidChangeTextDocumentParams<'a>),
    /// `exit`: the server process should end.
    Exit,
}

/// The parameters of the `initialized` notification.
#[derive(Debug, Clone, Copy, PartialEq, Eq, Structural)]
pub struct InitializedParams {}

/// The notifications that the server sends.
#[derive(Debug, Clone)]
pub enum ServerClientNotification {
    /// `$/logTrace`: a log line for the client.
    LogTrace(LogTraceParams),
}

impl From<LogTraceParams> for ServerClientNotification {
    fn from(v: LogTraceParams) -> (r: Self) {
        Self::LogTrace(v)
    }
}

impl vstd::std_specs::convert::FromSpecImpl<LogTraceParams> for ServerClientNotification {
    open spec fn obeys_from_spec() -> bool {
        true
    }

    open spec fn from_spec(v: LogTraceParams) -> Self {
        ServerClientNotification::LogTrace(v)
    }
}

} // verus!
