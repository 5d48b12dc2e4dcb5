//! The parameters of `textDocument/didChange`.

use crate::lsp::common::text_document::{Range, VersionedTextDocumentIdentifier};
use vstd::prelude::*;

verus! {

#[derive(Debug)]
pub struct DidChangeTextDocumentParams<'a> {
    /// The document and the version it has after the changes.
    pub text_document: VersionedTextDocumentIdentifier<'a>,
    /// The changes, in the order in which they apply.
    pub content_changes: Vec<TextDocumentContentChangeEvent<'a>>,
}

impl<'a> DidChangeTextDocumentParams<'a> {
    pub fn text_document(&self) -> (r: &VersionedTextDocumentIdentifier<'a>)
        ensures
            *r == self.text_document,
    {
        &self.text_document
    }

    pub fn content_changes(&self) -> (r: &Vec<TextDocumentContentChangeEvent<'a>>)
        ensures
            *r == self.content_changes,
    {
        &self.content_changes
    }
}

/// A change to a document: `text` replaces the range, or, without a range,
/// the whole document.
#[derive(Debug, Clone, Copy)]
pub struct TextDocumentContentChangeEvent<'a> {
    pub range: Option<Range>,
    pub text: &'a str,
}

impl<'a> TextDocumentContentChangeEvent<'a> {
    pub fn range(&self) -> (r: Option<Range>)
        ensures
            r == self.range,
    {
        self.range
    }

    pub fn text(&self) -> (r: &str)
        ensures
            r@ == self.text@,
    {
        self.text
    }
}

} // verus!
