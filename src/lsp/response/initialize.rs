//! The result of the `initialize` request.

use crate::lsp::capabilities::ServerCapabilities;
use crate::lsp::properties::ServerInfo;
use vstd::prelude::*;

verus! {

#[derive(Debug, Clone, Copy)]
pub struct InitializeResult {
    pub capabilities: ServerCapabilities,
    pub server_info: ServerInfo,
}

impl Default for InitializeResult {
    fn default() -> (r: Self)
        ensures
            r.capabilities.text_document_sync.open_close,
            r.capabilities.text_document_sync.change
                == crate::lsp::capabilities::TextDocumentSyncKind::Incremental,
            r.server_info.name@ == "huml-lsp"@,
            r.server_info.version@ == "0.1.0"@,
    {
        Self { capabilities: ServerCapabilities::default(), server_info: ServerInfo::default() }
    }
}

} // verus!
