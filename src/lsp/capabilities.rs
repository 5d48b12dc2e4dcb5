//! Capabilities that client and server announce to each other.

pub mod client;
pub mod server;

pub use client::{
    ClientCapabilities, TextDocumentClientCapabilities, TextDocumentSyncClientCapabilities,
};
pub use server::{ServerCapabilities, TextDocumentSyncKind, TextDocumentSyncOptions};
