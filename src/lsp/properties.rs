//! The server's description of itself.

use vstd::prelude::*;

verus! {

#[derive(Debug, Clone, Copy)]
pub struct ServerInfo {
    pub name: &'static str,
    pub version: &'static str,
}

impl Default for ServerInfo {
    fn default() -> (r: Self)
        ensures
            r.name@ == "huml-lsp"@,
            r.version@ == "0.1.0"@,
    {
        Self { name: "huml-lsp", version: "0.1.0" }
    }
}

} // verus!
