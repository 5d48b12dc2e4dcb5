//! Requests: messages that the server answers with a response.

pub mod initialize;

pub use crate::lsp::request::initialize::{ClientInfo, InitializeParams, WorkspaceFolder};
use crate::rpc::types::Integer;
use vstd::prelude::*;

verus! {

/// A request from the client; its `id` ties the response to it.
#[derive(Debug)]
pub struct Request {
    pub id: Integer,
    pub method: RequestMethods,
}

impl Request {
    pub fn id(&self) -> (r: i32)
        ensures
            r == self.id,
    {
        self.id
    }

    pub fn method(&self) -> (r: &RequestMethods)
        ensures
            *r == self.method,
    {
        &self.method
    }
}

/// The requests that the server answers, by method.
#[derive(Debug)]
pub enum RequestMethods {
    /// `initialize`: the first request, which opens the session.
    Initialize(InitializeParams),
    /// `shutdown`: the session ends; only `exit` should follow.
    Shutdown,
}

} // verus!
