//! The parameters of `textDocument/didOpen`.

use crate::lsp::common::text_document::{TextDocumentItem, TextDocumentItemOwned};
use vstd::prelude::*;

verus! {

#[derive(Debug)]
pub struct DidOpenTextDocumentParams<'a> {
    pub text_document: TextDocumentItem<'a>,
}

impl<'a> DidOpenTextDocumentParams<'a> {
    pub fn text_document(&self) -> (r: &TextDocumentItem<'a>)
        ensures
            *r == self.text_document,
    {
        &self.text_document
    }

    /// An owned copy of the opened document.
    pub fn into_text_document(self) -> (r: TextDocumentItemOwned)
        ensures
            r@ == (
                self.text_document.uri@,
                self.text_document.language_id@,
                self.text_document.version,
                self.text_document.text@,
            ),
    {
        TextDocumentItemOwned::from_item(&self.text_document)
    }
}

} // verus!
