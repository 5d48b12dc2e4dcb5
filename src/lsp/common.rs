//! Structures shared by several messages of the protocol.

pub mod text_document;
