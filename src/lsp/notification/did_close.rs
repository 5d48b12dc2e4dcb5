//! The parameters of `textDocument/didClose`.

use crate::lsp::common::text_document::TextDocumentIdentifier;
use vstd::prelude::*;

verus! {

#[derive(Debug)]
pub struct DidCloseTextDocumentParams<'a> {
    pub text_document: TextDocumentIdentifier<'a>,
}

impl<'a> DidCloseTextDocumentParams<'a> {
    pub fn text_document(&self) -> (r: &TextDocumentIdentifier<'a>)
        ensures
            *r == self.text_document,
    {
        &self.text_document
    }
}

} // verus!
