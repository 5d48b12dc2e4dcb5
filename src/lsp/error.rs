//! Errors of the session and of document synchronisation.

use vstd::prelude::*;

verus! {

/// Why a request or notification could not be handled.
#[derive(Debug, PartialEq, Eq, Structural)]
pub enum ServerError {
    Initialize(InitializeError),
    /// A notification that needs an initialized session came while none was.
    NotInitialized,
    /// An edit does not fit the server's copy of the document: client and
    /// server disagree on its contents.
    DocumentOutOfSync(EditError),
}

#[derive(Debug, PartialEq, Eq, Structural)]
pub enum InitializeError {
    AlreadyInitialized,
}

/// Why an edit cannot be applied to a document.
#[derive(Debug, Clone, Copy, PartialEq, Eq, Structural)]
pub enum EditError {
    /// A position names a line the document does not have, or a character
    /// past the end of its line.
    PositionOutOfRange,
    /// The range ends before it starts.
    ReversedRange,
}

} // verus!
