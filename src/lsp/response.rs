//! Responses: the server's answer to each request.

pub mod initialize;

use crate::lsp::request::Request;
use crate::lsp::response::initialize::InitializeResult;
use crate::rpc::types::{Integer, LSPAny};
use vstd::prelude::*;

verus! {

/// The answer to the request whose id it carries.
#[derive(Debug)]
pub struct ResponseMessage {
    /// The id of the request answered.
    pub id: Integer,
    /// The result, or the error.
    pub payload: ResponsePayload,
    /// The JSON-RPC version, always `2.0`.
    pub jsonrpc: String,
}

impl ResponseMessage {
    /// A response with any id. Prefer [`ResponseMessage::new_for`], which
    /// takes the id from the request.
    pub fn new(request_id: Integer, payload: ResponsePayload) -> (r: Self)
        ensures
            r.id == request_id,
            r.payload == payload,
            r.jsonrpc@ == "2.0"@,
    {
        Self { id: request_id, payload, jsonrpc: "2.0".to_owned() }
    }

    /// The response to `request`.
    pub fn new_for(request: &Request, payload: ResponsePayload) -> (r: Self)
        ensures
            r.id == request.id,
            r.payload == payload,
            r.jsonrpc@ == "2.0"@,
    {
        Self::new(request.id(), payload)
    }

    pub fn id(&self) -> (r: i32)
        ensures
            r == self.id,
    {
        self.id
    }

    pub fn payload(&self) -> (r: &ResponsePayload)
        ensures
            *r == self.payload,
    {
        &self.payload
    }
}

/// A result, or an error with a code and a message.
#[derive(Debug)]
pub enum ResponsePayload {
    Result(ResponseResult),
    Error {
        /// The kind of error.
        code: Integer,
        /// A short description of the error.
        message: String,
        /// More about the error, if anything.
        data: Option<LSPAny>,
    },
}

impl ResponsePayload {
    /// The error for a request whose parameters do not have the expected
    /// shape.
    pub fn invalid_params(message: String) -> (r: Self)
        ensures
            r matches ResponsePayload::Error { code, message: m, data } && code == -32602 && m
                == message && data is None,
    {
        ResponsePayload::Error { code: -32602, message, data: None }
    }
}

impl From<ResponseResult> for ResponsePayload {
    fn from(v: ResponseResult) -> (r: Self) {
        Self::Result(v)
    }
}

impl vstd::std_specs::convert::FromSpecImpl<ResponseResult> for ResponsePayload {
    open spec fn obeys_from_spec() -> bool {
        true
    }

    open spec fn from_spec(v: ResponseResult) -> Self {
        ResponsePayload::Result(v)
    }
}

impl From<InitializeResult> for ResponsePayload {
    fn from(v: InitializeResult) -> (r: Self) {
        Self::Result(ResponseResult::Initialize(v))
    }
}

impl vstd::std_specs::convert::FromSpecImpl<InitializeResult> for ResponsePayload {
    open spec fn obeys_from_spec() -> bool {
        true
    }

    open spec fn from_spec(v: InitializeResult) -> Self {
        ResponsePayload::Result(ResponseResult::Initialize(v))
    }
}

/// The successful results, by request.
#[derive(Debug)]
pub enum ResponseResult {
    /// The result of `initialize`.
    Initialize(InitializeResult),
    /// The result of `shutdown`: `null`.
    Shutdown,
}

} // verus!
