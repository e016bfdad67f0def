use affine_native::store::error::{Error, StoreError};
use affine_native::store::pool::SqliteDocStoragePool;

#[test]
fn get_needs_a_connected_workspace() {
    let mut pool = SqliteDocStoragePool::default();

    assert_eq!(pool.get("w".to_string()).unwrap_err(), Error::InvalidOperation);
    assert_eq!(pool.get_mut("w".to_string()).unwrap_err(), Error::InvalidOperation);
    assert!(!pool.is_connected(&"w".to_string()));

    pool.connect("w".to_string(), ":memory:".to_string()).unwrap();

    assert!(pool.is_connected(&"w".to_string()));
    let storage = pool.get("w".to_string()).unwrap();
    assert!(storage.validate().unwrap());
    assert_eq!(storage.path(), ":memory:");
    assert_eq!(pool.get("v".to_string()).unwrap_err(), Error::InvalidOperation);
}

#[test]
fn connect_twice_keeps_the_first_engine() {
    let mut pool = SqliteDocStoragePool::new();

    pool.connect("w".to_string(), "/data/one.db".to_string()).unwrap();
    pool.get_mut("w".to_string()).unwrap().push_update_at("d".to_string(), vec![1], 1).unwrap();

    pool.connect("w".to_string(), "/data/two.db".to_string()).unwrap();

    let storage = pool.get("w".to_string()).unwrap();
    assert_eq!(storage.path(), "/data/one.db");
    assert_eq!(storage.get_doc_updates("d".to_string()).unwrap().len(), 1);
}

#[test]
fn workspaces_do_not_share_rows() {
    let mut pool = SqliteDocStoragePool::new();
    pool.connect("a".to_string(), ":memory:".to_string()).unwrap();
    pool.connect("b".to_string(), ":memory:".to_string()).unwrap();

    pool.get_mut("a".to_string()).unwrap().push_update_at("d".to_string(), vec![1], 1).unwrap();

    assert_eq!(pool.get("a".to_string()).unwrap().get_doc_updates("d".to_string()).unwrap().len(), 1);
    assert_eq!(pool.get("b".to_string()).unwrap().get_doc_updates("d".to_string()).unwrap().len(), 0);
}

#[test]
fn disconnect_removes_the_engine() {
    let mut pool = SqliteDocStoragePool::new();
    pool.connect("a".to_string(), ":memory:".to_string()).unwrap();
    pool.connect("b".to_string(), ":memory:".to_string()).unwrap();

    assert_eq!(pool.disconnect("a".to_string()), Ok(()));
    assert_eq!(pool.disconnect("a".to_string()), Ok(()));
    assert_eq!(pool.disconnect("never".to_string()), Ok(()));

    assert_eq!(pool.get("a".to_string()).unwrap_err(), Error::InvalidOperation);
    assert!(pool.get("b".to_string()).is_ok());

    // a workspace that comes back starts with a new engine
    pool.connect("a".to_string(), ":memory:".to_string()).unwrap();
    assert!(pool.get("a".to_string()).unwrap().get_doc_clocks(None).unwrap().is_empty());
}

#[test]
fn connect_fails_on_an_engine_that_was_closed() {
    let mut pool = SqliteDocStoragePool::new();
    pool.connect("a".to_string(), ":memory:".to_string()).unwrap();
    pool.get_mut("a".to_string()).unwrap().close();

    assert_eq!(
        pool.connect("a".to_string(), ":memory:".to_string()),
        Err(Error::Store(StoreError::Closed))
    );
    assert!(pool.is_connected(&"a".to_string()));
}
