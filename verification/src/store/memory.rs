//! A store that keeps documents in memory, in a concurrent map.
use vstd::prelude::*;
use dashmap::DashMap;
use super::{Result, Store};

verus! {

/// A concurrent hash map (`dashmap::DashMap`).
#[verifier::external_type_specification]
#[verifier::external_body]
#[verifier::reject_recursive_types(K)]
#[verifier::reject_recursive_types(V)]
#[verifier::reject_recursive_types(S)]
pub struct ExDashMap<K, V, S>(DashMap<K, V, S>);

/// The map that backs a memory store.
pub type DocumentMap = DashMap<String, Vec<u8>>;

/// What a map of the memory store holds: keys by their characters, values
/// by their bytes.
pub uninterp spec fn dashmap_contents(m: DocumentMap) -> Map<Seq<char>, Seq<u8>>;

/// An empty map (`DashMap::new`).
#[verifier::external_body]
fn dashmap_new() -> (r: DocumentMap)
    ensures
        dashmap_contents(r).is_empty(),
{
    DashMap::new()
}

/// A copy of the value under `key` (`DashMap::get`, then a clone of the value).
#[verifier::external_body]
fn dashmap_get(m: &DocumentMap, key: &str) -> (r: Option<Vec<u8>>)
    ensures
        r matches Some(v) ==> dashmap_contents(*m).contains_key(key@) && v@ == dashmap_contents(*m)[key@],
        r is None ==> !dashmap_contents(*m).contains_key(key@),
{
    match m.get(key) {
        Some(entry) => Some(entry.value().clone()),
        None => None,
    }
}

/// Stores `value` under `key`, replacing what was there (`DashMap::insert`).
#[verifier::external_body]
fn dashmap_insert(m: &mut DocumentMap, key: String, value: Vec<u8>)
    ensures
        dashmap_contents(*final(m)) == dashmap_contents(*old(m)).insert(key@, value@),
{
    m.insert(key, value);
}

/// Drops the entry under `key`, if any (`DashMap::remove`).
#[verifier::external_body]
fn dashmap_remove(m: &mut DocumentMap, key: &str)
    ensures
        dashmap_contents(*final(m)) == dashmap_contents(*old(m)).remove(key@),
{
    m.remove(key);
}

/// Whether an entry is stored under `key` (`DashMap::contains_key`).
#[verifier::external_body]
fn dashmap_contains_key(m: &DocumentMap, key: &str) -> (r: bool)
    ensures
        r == dashmap_contents(*m).contains_key(key@),
{
    m.contains_key(key)
}

/// Documents kept in memory.
pub struct MemoryStore {
    store: DocumentMap,
}

impl View for MemoryStore {
    type V = Map<Seq<char>, Seq<u8>>;

    closed spec fn view(&self) -> Map<Seq<char>, Seq<u8>> {
        dashmap_contents(self.store)
    }
}

impl MemoryStore {
    /// The value stored under `key`, if any.
    pub fn get(&self, key: &str) -> (r: Result<Option<Vec<u8>>>)
        ensures
            r matches Ok(o) && (match o {
                Some(v) => self@.contains_key(key@) && v@ == self@[key@],
                None => !self@.contains_key(key@),
            }),
    {
        Ok(dashmap_get(&self.store, key))
    }

    /// Stores `value` under `key`.
    pub fn set(&mut self, key: &str, value: Vec<u8>) -> (r: Result<()>)
        ensures
            r is Ok,
            final(self)@ == old(self)@.insert(key@, value@),
    {
        dashmap_insert(&mut self.store, key.to_owned(), value);
        Ok(())
    }

    /// Drops what is stored under `key`.
    pub fn remove(&mut self, key: &str) -> (r: Result<()>)
        ensures
            r is Ok,
            final(self)@ == old(self)@.remove(key@),
    {
        dashmap_remove(&mut self.store, key);
        Ok(())
    }

    /// Whether something is stored under `key`.
    pub fn key_exists(&self, key: &str) -> (r: Result<bool>)
        ensures
            r matches Ok(b) && b == self@.contains_key(key@),
    {
        Ok(dashmap_contains_key(&self.store, key))
    }
}

impl Default for MemoryStore {
    /// An empty store.
    fn default() -> (r: Self)
        ensures
            r@ == Map::<Seq<char>, Seq<u8>>::empty(),
    {
        MemoryStore { store: dashmap_new() }
    }
}

impl Store for MemoryStore {
    fn init(&self) -> (r: Result<()>)
        ensures
            r is Ok,
    {
        Ok(())
    }

    fn get(&self, key: &str) -> (r: Result<Option<Vec<u8>>>)
        ensures
            r matches Ok(o) && (match o {
                Some(v) => self@.contains_key(key@) && v@ == self@[key@],
                None => !self@.contains_key(key@),
            }),
    {
        MemoryStore::get(self, key)
    }

    fn set(&mut self, key: &str, value: Vec<u8>) -> (r: Result<()>)
        ensures
            r is Ok,
            final(self)@ == old(self)@.insert(key@, value@),
    {
        MemoryStore::set(self, key, value)
    }

    fn remove(&mut self, key: &str) -> (r: Result<()>)
        ensures
            r is Ok,
            final(self)@ == old(self)@.remove(key@),
    {
        MemoryStore::remove(self, key)
    }

    fn key_exists(&self, key: &str) -> (r: Result<bool>)
        ensures
            r matches Ok(b) && b == self@.contains_key(key@),
    {
        MemoryStore::key_exists(self, key)
    }
}

/// What is stored under a key is read back under that key, other keys keep
/// what they held, and a removed key is gone.
pub proof fn law_memory_store_read_your_writes(
    store: MemoryStore,
    key: Seq<char>,
    value: Seq<u8>,
    other: Seq<char>,
)
    requires
        other != key,
    ensures
        store@.insert(key, value).contains_key(key),
        store@.insert(key, value)[key] == value,
        store@.insert(key, value).contains_key(other) == store@.contains_key(other),
        store@.contains_key(other) ==> store@.insert(key, value)[other] == store@[other],
        !store@.remove(key).contains_key(key),
        store@.remove(key).contains_key(other) == store@.contains_key(other),
{
}

} // verus!
