//! The parameters of the `initialize` request.

use crate::lsp::capabilities::ClientCapabilities;
use crate::rpc::types::Integer;
use vstd::prelude::*;

verus! {

#[derive(Debug)]
pub struct InitializeParams {
    /// The process id of the client's process, if it has one.
    pub process_id: Option<Integer>,
    /// Information about the client.
    pub client_info: Option<ClientInfo>,
    /// The capabilities of the client.
    pub capabilities: ClientCapabilities,
    /// The workspace folder configured in the client, if any.
    pub workspace_folders: Option<WorkspaceFolder>,
}

impl InitializeParams {
    pub fn process_id(&self) -> (r: Option<i32>)
        ensures
            r == self.process_id,
    {
        self.process_id
    }

    pub fn client_info(&self) -> (r: Option<&ClientInfo>)
        ensures
            r is Some == self.client_info is Some,
            r matches Some(c) ==> self.client_info == Some(*c),
    {
        self.client_info.as_ref()
    }

    pub fn capabilities(&self) -> (r: &ClientCapabilities)
        ensures
            *r == self.capabilities,
    {
        &self.capabilities
    }

    pub fn workspace_folders(&self) -> (r: Option<&WorkspaceFolder>)
        ensures
            r is Some == self.workspace_folders is Some,
            r matches Some(w) ==> self.workspace_folders == Some(*w),
    {
        self.workspace_folders.as_ref()
    }
}

/// The client's name and version.
#[derive(Debug)]
pub struct ClientInfo {
    pub name: String,
    pub version: String,
}

impl ClientInfo {
    pub fn name(&self) -> (r: &str)
        ensures
            r@ == self.name@,
    {
        self.name.as_str()
    }

    pub fn version(&self) -> (r: &str)
        ensures
            r@ == self.version@,
    {
        self.version.as_str()
    }
}

#[derive(Debug)]
pub struct WorkspaceFolder {
    /// The URI of the folder.
    pub uri: String,
    /// The name under which the client shows the folder.
    pub name: String,
}

impl WorkspaceFolder {
    pub fn uri(&self) -> (r: &str)
        ensures
            r@ == self.uri@,
    {
        self.uri.as_str()
    }

    pub fn name(&self) -> (r: &str)
        ensures
            r@ == self.name@,
    {
        self.name.as_str()
    }
}

} // verus!
