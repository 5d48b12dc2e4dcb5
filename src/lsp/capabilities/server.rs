//! What the server supports.

use vstd::prelude::*;

verus! {

#[derive(Debug, Clone, Copy, PartialEq, Eq, Structural)]
pub struct ServerCapabilities {
    pub text_document_sync: TextDocumentSyncOptions,
}

impl Default for ServerCapabilities {
    /// Open and close notifications, and incremental changes.
    fn default() -> (r: Self)
        ensures
            r.text_document_sync.open_close,
            r.text_document_sync.change == TextDocumentSyncKind::Incremental,
    {
        Self {
            text_document_sync: TextDocumentSyncOptions {
                open_close: true,
                change: TextDocumentSyncKind::Incremental,
            },
        }
    }
}

#[derive(Debug, Clone, Copy, PartialEq, Eq, Structural)]
pub struct TextDocumentSyncOptions {
    /// The server wants open and close notifications.
    pub open_close: bool,
    /// How the client sends changes.
    pub change: TextDocumentSyncKind,
}

/// How document changes travel; on the wire 0, 1 and 2.
#[derive(Debug, Clone, Copy, PartialEq, Eq, Structural)]
pub enum TextDocumentSyncKind {
    /// Documents are not synchronised.
    NoSync,
    /// Each change sends the whole text.
    Full,
    /// Each change sends the edited ranges.
    Incremental,
}

} // verus!
