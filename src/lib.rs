//! A language-server backend: frame transport, document synchronisation and
//! the session state machine of the editor protocol, with their contracts.
//!
//! - [`rpc`] turns a byte stream into length-prefixed frames and frames
//!   outgoing JSON text.
//! - [`lsp`] holds the protocol's data types, the mirror of open documents
//!   and the session that dispatches requests and notifications.

pub mod lsp;
pub mod rpc;
