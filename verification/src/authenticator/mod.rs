//! Deciding what a token grants on a document.
pub mod simple;

use vstd::prelude::*;
use crate::client_connection::DocConnectionConfig;

verus! {

/// The error type that authenticators report (`anyhow::Error`).
#[verifier::external_type_specification]
#[verifier::external_body]
pub struct ExAnyhowError(anyhow::Error);

/// Decides what a token grants on a document.
pub trait Authenticator {
    fn authenticate(&self, doc_id: &str, token: &str) -> Result<DocConnectionConfig, anyhow::Error>;
}

} // verus!
