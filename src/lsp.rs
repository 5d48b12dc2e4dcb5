//! The editor protocol: its data types, the mirror of open documents, and
//! the session that answers requests and notifications.

pub mod capabilities;
pub mod common;
pub mod error;
pub mod notification;
pub mod properties;
pub mod recieved_message;
pub mod request;
pub mod response;
pub mod server;
