//! Text documents, positions and ranges.

use crate::rpc::types::{Integer, UInteger};
use vstd::prelude::*;
use vstd::utf8::encode_utf8;

verus! {

/// An item to transfer a text document from the client to the server,
/// borrowed from the message that carried it.
#[derive(Debug)]
pub struct TextDocumentItem<'a> {
    /// The text document's URI.
    pub uri: &'a str,
    /// The text document's language identifier.
    pub language_id: &'a str,
    /// The version number of this document; it increases after each change.
    pub version: Integer,
    /// The content of the opened text document.
    pub text: &'a str,
}

impl<'a> TextDocumentItem<'a> {
    pub fn uri(&self) -> (r: &str)
        ensures
            r@ == self.uri@,
    {
        self.uri
    }

    pub fn language_id(&self) -> (r: &str)
        ensures
            r@ == self.language_id@,
    {
        self.language_id
    }

    pub fn version(&self) -> (r: i32)
        ensures
            r == self.version,
    {
        self.version
    }

    pub fn text(&self) -> (r: &str)
        ensures
            r@ == self.text@,
    {
        self.text
    }
}

/// A text document held by the server: URI, language, version and text.
#[derive(Debug, Clone)]
pub struct TextDocumentItemOwned {
    pub uri: String,
    pub language_id: String,
    pub version: Integer,
    pub text: String,
}

impl View for TextDocumentItemOwned {
    /// URI, language identifier, version and text.
    type V = (Seq<char>, Seq<char>, Integer, Seq<char>);

    open spec fn view(&self) -> (Seq<char>, Seq<char>, Integer, Seq<char>) {
        (self.uri@, self.language_id@, self.version, self.text@)
    }
}

impl TextDocumentItemOwned {
    pub fn new(uri: String, language_id: String, version: Integer, text: String) -> (r: Self)
        ensures
            r@ == (uri@, language_id@, version, text@),
    {
        Self { uri, language_id, version, text }
    }

    pub fn uri(&self) -> (r: &str)
        ensures
            r@ == self.uri@,
    {
        self.uri.as_str()
    }

    pub fn language_id(&self) -> (r: &str)
        ensures
            r@ == self.language_id@,
    {
        self.language_id.as_str()
    }

    pub fn version(&self) -> (r: i32)
        ensures
            r == self.version,
    {
        self.version
    }

    pub fn text(&self) -> (r: &str)
        ensures
            r@ == self.text@,
    {
        self.text.as_str()
    }

    pub fn as_parts(&self) -> (r: (&str, &str, i32, &str))
        ensures
            (r.0@, r.1@, r.2, r.3@) == self@,
    {
        (self.uri(), self.language_id(), self.version(), self.text())
    }

    pub fn into_parts(self) -> (r: (String, String, i32, String))
        ensures
            (r.0@, r.1@, r.2, r.3@) == self@,
    {
        (self.uri, self.language_id, self.version, self.text)
    }

    /// An owned copy of a borrowed item.
    pub fn from_item(value: &TextDocumentItem<'_>) -> (r: Self)
        ensures
            r@ == (value.uri@, value.language_id@, value.version, value.text@),
    {
        Self {
            uri: value.uri.to_owned(),
            language_id: value.language_id.to_owned(),
            version: value.version,
            text: value.text.to_owned(),
        }
    }
}

/// Text documents are identified by a URI.
#[derive(Debug)]
pub struct TextDocumentIdentifier<'a> {
    pub uri: &'a str,
}

impl<'a> TextDocumentIdentifier<'a> {
    pub fn uri(&self) -> (r: &str)
        ensures
            r@ == self.uri@,
    {
        self.uri
    }
}

/// Names one version of a text document.
#[derive(Debug)]
pub struct VersionedTextDocumentIdentifier<'a> {
    pub identifier: TextDocumentIdentifier<'a>,
    pub version: Integer,
}

impl<'a> VersionedTextDocumentIdentifier<'a> {
    pub fn version(&self) -> (r: i32)
        ensures
            r == self.version,
    {
        self.version
    }

    pub fn uri(&self) -> (r: &str)
        ensures
            r@ == self.identifier.uri@,
    {
        self.identifier.uri()
    }
}

/// A position in a document: a zero-based line, and a zero-based offset
/// within that line counted in characters (Unicode scalar values).
#[derive(Debug, Clone, Copy, PartialEq, Eq, Structural)]
pub struct Position {
    pub line: UInteger,
    pub character: UInteger,
}

impl Position {
    pub fn new(line: UInteger, character: UInteger) -> (r: Self)
        ensures
            r.line == line,
            r.character == character,
    {
        Self { line, character }
    }

    pub fn line(&self) -> (r: usize)
        ensures
            r == self.line,
    {
        self.line
    }

    pub fn character(&self) -> (r: usize)
        ensures
            r == self.character,
    {
        self.character
    }
}

/// A range of text in a document, from `start` up to, not including, `end`.
#[derive(Debug, Clone, Copy, PartialEq, Eq, Structural)]
pub struct Range {
    pub start: Position,
    pub end: Position,
}

impl Range {
    pub fn new(start: Position, end: Position) -> (r: Self)
        ensures
            r.start == start,
            r.end == end,
    {
        Self { start, end }
    }

    pub fn start(&self) -> (r: Position)
        ensures
            r == self.start,
    {
        self.start
    }

    pub fn end(&self) -> (r: Position)
        ensures
            r == self.end,
    {
        self.end
    }
}

/// A text has no more characters than UTF-8 bytes.
pub proof fn lemma_chars_within_bytes(s: Seq<char>)
    ensures
        s.len() <= encode_utf8(s).len(),
    decreases s.len(),
{
    if s.len() > 0 {
        lemma_chars_within_bytes(s.drop_first());
    }
}

} // verus!
