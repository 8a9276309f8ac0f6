use hocuspocus_rs_ws::store::memory::MemoryStore;
use hocuspocus_rs_ws::store::Store;

#[test]
fn memory_store_basic_flow() {
    let mut store = MemoryStore::default();

    assert!(!store.key_exists("missing").unwrap());

    store
        .set("key", vec![1, 2, 3])
        .expect("set should succeed");

    assert!(store.key_exists("key").unwrap());

    let value = store.get("key").unwrap();
    assert_eq!(value, Some(vec![1, 2, 3]));

    store.remove("key").unwrap();

    assert!(!store.key_exists("key").unwrap());
    assert_eq!(store.get("key").unwrap(), None);
}

#[test]
fn memory_store_overwrite_keeps_other_keys() {
    let mut store = MemoryStore::default();
    store.set("a", vec![1]).unwrap();
    store.set("b", vec![2]).unwrap();
    store.set("a", vec![3, 4]).unwrap();
    assert_eq!(store.get("a").unwrap(), Some(vec![3, 4]));
    assert_eq!(store.get("b").unwrap(), Some(vec![2]));
    store.remove("a").unwrap();
    assert_eq!(store.get("a").unwrap(), None);
    assert_eq!(store.get("b").unwrap(), Some(vec![2]));
    store.remove("missing").unwrap();
}

#[test]
fn memory_store_through_the_trait() {
    fn roundtrip<S: Store>(s: &mut S) -> Option<Vec<u8>> {
        s.init().unwrap();
        s.set("doc", vec![9, 9]).unwrap();
        s.get("doc").unwrap()
    }
    let mut store = MemoryStore::default();
    assert_eq!(roundtrip(&mut store), Some(vec![9, 9]));
    assert!(Store::key_exists(&store, "doc").unwrap());
}
