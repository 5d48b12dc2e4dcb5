//! What the client supports.

use vstd::prelude::*;

verus! {

#[derive(Debug, Clone, Copy, PartialEq, Eq, Structural)]
pub struct ClientCapabilities {
    pub text_document: Option<TextDocumentClientCapabilities>,
}

impl ClientCapabilities {
    pub fn text_document(&self) -> (r: Option<&TextDocumentClientCapabilities>)
        ensures
            r is Some == self.text_document is Some,
            r matches Some(t) ==> self.text_document == Some(*t),
    {
        self.text_document.as_ref()
    }
}

impl Default for ClientCapabilities {
    fn default() -> (r: Self)
        ensures
            r.text_document is None,
    {
        ClientCapabilities { text_document: None }
    }
}

/// Text document specific client capabilities.
#[derive(Debug, Clone, Copy, PartialEq, Eq, Structural)]
pub struct TextDocumentClientCapabilities {
    pub synchronization: Option<TextDocumentSyncClientCapabilities>,
}

/// The synchronisation features that the client supports.
#[derive(Debug, Clone, Copy, PartialEq, Eq, Structural)]
pub struct TextDocumentSyncClientCapabilities {
    /// Whether text document synchronisation supports dynamic registration.
    pub dynamic_registration: bool,
    /// The client sends will-save notifications.
    pub will_save: bool,
    /// The client sends will-save-wait-until requests.
    pub will_save_wait_until: bool,
    /// The client sends did-save notifications.
    pub did_save: bool,
}

} // verus!
