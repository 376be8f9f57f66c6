use blockchain::storage::Backend;

#[test]
fn get_after_put_returns_the_exact_bytes() {
    let mut store = Backend::new();
    assert!(store.put(b"key".to_vec(), b"value-1".to_vec()).is_ok());
    assert_eq!(store.get(b"key").unwrap(), Some(b"value-1".to_vec()));
    // A later put under the same key replaces the value.
    assert!(store.put(b"key".to_vec(), b"value-2".to_vec()).is_ok());
    assert_eq!(store.get(b"key").unwrap(), Some(b"value-2".to_vec()));
    assert_eq!(store.get(b"other").unwrap(), None);
}

#[test]
fn delete_is_idempotent() {
    let mut store = Backend::new();
    store.put(b"key".to_vec(), b"value".to_vec()).unwrap();
    store.put(b"kept".to_vec(), b"stays".to_vec()).unwrap();
    assert!(store.delete(b"key").is_ok());
    assert_eq!(store.get(b"key").unwrap(), None);
    // Deleting an absent key still succeeds and changes nothing.
    assert!(store.delete(b"key").is_ok());
    assert_eq!(store.get(b"key").unwrap(), None);
    assert_eq!(store.get(b"kept").unwrap(), Some(b"stays".to_vec()));
}
