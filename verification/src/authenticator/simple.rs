use vstd::prelude::*;
use crate::client_connection::DocConnectionConfig;
use super::Authenticator;

verus! {

/// Grants every token full access.
#[derive(Debug, Default)]
pub struct SimpleAuthenticator;

impl SimpleAuthenticator {
    pub fn new() -> (r: Self)
        ensures
            r == SimpleAuthenticator,
    {
        SimpleAuthenticator
    }
}

impl Authenticator for SimpleAuthenticator {
    fn authenticate(&self, doc_id: &str, token: &str) -> (r: Result<DocConnectionConfig, anyhow::Error>)
        ensures
            r matches Ok(c) && c.is_authenticated && !c.read_only,
    {
        let d = DocConnectionConfig::default();
        Ok(DocConnectionConfig { is_authenticated: true, ..d })
    }
}

} // verus!
