//! Where documents are persisted.
pub mod memory;

use vstd::prelude::*;

verus! {

/// Errors of a document store.
#[derive(Debug)]
pub enum StoreError {
    BucketDoesNotExist(String),
    DoesNotExist(String),
    NotAuthorized(String),
    ConnectionError(String),
}

pub type Result<T> = core::result::Result<T, StoreError>;

/// A key-value store of document states.
pub trait Store {
    fn init(&self) -> Result<()>;

    fn get(&self, key: &str) -> Result<Option<Vec<u8>>>;

    fn set(&mut self, key: &str, value: Vec<u8>) -> Result<()>;

    fn remove(&mut self, key: &str) -> Result<()>;

    fn key_exists(&self, key: &str) -> Result<bool>;
}

} // verus!
