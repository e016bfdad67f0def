use affine_native::store::error::{Error, StoreError};
use affine_native::store::rows::{DocRecord, Marker, SetBlob};
use affine_native::store::schema::{get_migrator, plan, steps, MigrationType, SimpleMigration};
use affine_native::store::state::MAX_PUSH_RETRIES;
use affine_native::store::storage::{
    connection_plan, DocStorage, SqliteDocStorage, FILE_CONNECTIONS, MEMORY_CONNECTIONS,
};

fn now() -> i64 {
    chrono::Utc::now().timestamp_millis()
}

fn get_storage() -> SqliteDocStorage {
    let mut storage = SqliteDocStorage::new(":memory:".to_string());
    storage.connect().unwrap();
    storage
}

#[test]
fn init_tables() {
    let mut storage = get_storage();

    storage.set_space_id("test".to_string()).unwrap();

    assert_eq!(storage.space_id().unwrap(), "test");
}

#[test]
fn validate_db() {
    let storage = get_storage();
    assert!(storage.validate().unwrap());

    let storage = SqliteDocStorage::new(":memory:".to_string());
    assert!(!storage.validate().unwrap());
}

#[test]
fn set_space_id() {
    let mut storage = get_storage();

    storage.set_space_id("test".to_string()).unwrap();
    assert_eq!(storage.space_id().unwrap(), "test");

    storage.set_space_id("test2".to_string()).unwrap();
    assert_eq!(storage.space_id().unwrap(), "test2");
}

#[test]
fn set_space_id_with_existing_doc() {
    let mut storage = get_storage();

    storage.set_space_id("test".to_string()).unwrap();
    storage.push_update("test".to_string(), vec![0, 0]).unwrap();
    storage
        .set_doc_snapshot(DocRecord { doc_id: "test".to_string(), bin: vec![0, 0], timestamp: now() })
        .unwrap();
    storage
        .set_peer_pulled_remote_clock("remote".to_string(), "test".to_string(), now())
        .unwrap();

    storage.set_space_id("new_id".to_string()).unwrap();

    assert_eq!(storage.space_id().unwrap(), "new_id");

    let clocks = storage.get_doc_clocks(None).unwrap();
    assert_eq!(clocks[0].doc_id, "new_id");

    let clocks = storage
        .get_peer_pulled_remote_clock("remote".to_string(), "new_id".to_string())
        .unwrap()
        .unwrap();
    assert_eq!(clocks.doc_id, "new_id");

    let updates = storage.get_doc_updates("new_id".to_string()).unwrap();
    assert_eq!(updates.len(), 1);

    let snapshot = storage.get_doc_snapshot("new_id".to_string()).unwrap();
    assert!(snapshot.is_some());
}

#[test]
fn push_updates() {
    let mut storage = get_storage();

    let updates = vec![vec![0, 0], vec![0, 1], vec![1, 0], vec![1, 1]];

    for update in updates.iter() {
        storage.push_update("test".to_string(), update.clone()).unwrap();
    }

    let result = storage.get_doc_updates("test".to_string()).unwrap();

    assert_eq!(result.len(), 4);
    assert_eq!(result.iter().map(|u| u.bin.clone()).collect::<Vec<_>>(), updates);
}

#[test]
fn get_doc_snapshot() {
    let mut storage = get_storage();

    let none = storage.get_doc_snapshot("test".to_string()).unwrap();
    assert!(none.is_none());

    let snapshot = DocRecord { doc_id: "test".to_string(), bin: vec![0, 0], timestamp: now() };
    storage.set_doc_snapshot(snapshot).unwrap();

    let result = storage.get_doc_snapshot("test".to_string()).unwrap();
    assert!(result.is_some());
    assert_eq!(result.unwrap().bin, vec![0, 0]);
}

#[test]
fn set_doc_snapshot() {
    let mut storage = get_storage();

    let snapshot = DocRecord { doc_id: "test".to_string(), bin: vec![0, 0], timestamp: now() };
    storage.set_doc_snapshot(snapshot).unwrap();

    let result = storage.get_doc_snapshot("test".to_string()).unwrap();
    assert!(result.is_some());
    assert_eq!(result.unwrap().bin, vec![0, 0]);

    let snapshot =
        DocRecord { doc_id: "test".to_string(), bin: vec![0, 1], timestamp: now() - 1000 };

    // an older snapshot does not replace a newer one
    storage.set_doc_snapshot(snapshot).unwrap();

    let result = storage.get_doc_snapshot("test".to_string()).unwrap();
    assert!(result.is_some());
    assert_eq!(result.unwrap().bin, vec![0, 0]);
}

#[test]
fn get_doc_clocks() {
    let mut storage = get_storage();

    let clocks = storage.get_doc_clocks(None).unwrap();
    assert_eq!(clocks.len(), 0);

    for i in 1..5u32 {
        storage.push_update(format!("test_{i}"), vec![0, 0]).unwrap();
    }

    let clocks = storage.get_doc_clocks(None).unwrap();
    assert_eq!(clocks.len(), 4);
    assert_eq!(
        clocks.iter().map(|c| c.doc_id.as_str()).collect::<Vec<_>>(),
        vec!["test_1", "test_2", "test_3", "test_4"]
    );

    let clocks = storage.get_doc_clocks(Some(now())).unwrap();
    assert_eq!(clocks.len(), 0);

    let clock = storage.get_doc_clock("test_1".to_string()).unwrap();
    assert!(clock.is_some());
    assert_eq!(clock.unwrap().doc_id, "test_1");
}

#[test]
fn mark_updates_merged() {
    let mut storage = get_storage();

    let updates = [vec![0, 0], vec![0, 1], vec![1, 0], vec![1, 1]];

    for update in updates.iter() {
        storage.push_update("test".to_string(), update.clone()).unwrap();
    }

    let updates = storage.get_doc_updates("test".to_string()).unwrap();

    let result = storage
        .mark_updates_merged(
            "test".to_string(),
            updates.iter().skip(1).map(|u| u.timestamp).collect::<Vec<_>>(),
        )
        .unwrap();

    assert_eq!(result, 3);

    let updates = storage.get_doc_updates("test".to_string()).unwrap();
    assert_eq!(updates.len(), 1);
}

#[test]
fn set_peer_clock() {
    let mut storage = get_storage();
    let peer = String::from("peer1");

    let clocks = storage.get_peer_remote_clocks(peer.clone()).unwrap();
    assert!(clocks.is_empty());

    let clock = now();
    storage.set_peer_remote_clock(peer.clone(), "doc1".to_string(), clock).unwrap();

    let clocks = storage.get_peer_remote_clocks(peer.clone()).unwrap();
    assert_eq!(clocks.len(), 1);
    assert_eq!(clocks.first().unwrap().doc_id, "doc1");
    assert_eq!(clocks.first().unwrap().timestamp, clock);
}

#[test]
fn set_peer_pushed_clock() {
    let mut storage = get_storage();
    let peer = String::from("peer1");

    let clocks = storage.get_peer_pushed_clocks(peer.clone()).unwrap();
    assert!(clocks.is_empty());

    let clock = now();
    storage.set_peer_pushed_clock(peer.clone(), "doc1".to_string(), clock).unwrap();

    let clocks = storage.get_peer_pushed_clocks(peer.clone()).unwrap();
    assert_eq!(clocks.len(), 1);
    assert_eq!(clocks.first().unwrap().doc_id, "doc1");
    assert_eq!(clocks.first().unwrap().timestamp, clock);
}

#[test]
fn default_clocks() {
    let mut storage = get_storage();
    let peer = String::from("peer1");

    storage.set_peer_remote_clock(peer.clone(), "doc1".to_string(), now()).unwrap();
    storage.set_peer_pushed_clock(peer.clone(), "doc2".to_string(), now()).unwrap();
    storage.set_peer_pulled_remote_clock(peer.clone(), "doc3".to_string(), now()).unwrap();

    let record = storage.get_peer_pushed_clock(peer.clone(), "doc1".to_string()).unwrap().unwrap();
    assert_eq!(record.timestamp, 0);

    let record = storage.get_peer_remote_clock(peer.clone(), "doc2".to_string()).unwrap().unwrap();
    assert_eq!(record.timestamp, 0);

    let record = storage.get_peer_remote_clock(peer.clone(), "doc3".to_string()).unwrap().unwrap();
    assert_eq!(record.timestamp, 0);
}

#[test]
fn clear_clocks() {
    let mut storage = get_storage();
    let peer = String::from("peer1");

    storage.set_peer_remote_clock(peer.clone(), "doc1".to_string(), now()).unwrap();
    storage.set_peer_pushed_clock(peer.clone(), "doc2".to_string(), now()).unwrap();

    let clocks = storage.get_peer_remote_clocks(peer.clone()).unwrap();
    assert_eq!(clocks.len(), 2);

    let clocks = storage.get_peer_pushed_clocks(peer.clone()).unwrap();
    assert_eq!(clocks.len(), 2);

    storage.clear_clocks().unwrap();

    let clocks = storage.get_peer_remote_clocks(peer.clone()).unwrap();
    assert!(clocks.is_empty());

    let clocks = storage.get_peer_pushed_clocks(peer.clone()).unwrap();
    assert!(clocks.is_empty());
}

fn four_blobs(storage: &mut SqliteDocStorage) {
    for i in 1..5u32 {
        storage
            .set_blob(SetBlob {
                key: format!("test_{}", i),
                data: vec![0, 0],
                mime: "text/plain".to_string(),
            })
            .unwrap();
    }
}

#[test]
fn delete_blob() {
    let mut storage = get_storage();
    four_blobs(&mut storage);

    let result = storage.get_blob("test_1".to_string()).unwrap();
    assert!(result.is_some());

    storage.delete_blob("test_".to_string(), false).unwrap();

    let result = storage.get_blob("test".to_string()).unwrap();
    assert!(result.is_none());

    storage.delete_blob("test_2".to_string(), true).unwrap();

    let result = storage.get_blob("test".to_string()).unwrap();
    assert!(result.is_none());
}

#[test]
fn list_blobs() {
    let mut storage = get_storage();

    let blobs = storage.list_blobs().unwrap();
    assert_eq!(blobs.len(), 0);

    for i in 1..5u32 {
        storage
            .set_blob_at(
                SetBlob {
                    key: format!("test_{}", i),
                    data: vec![0, 0],
                    mime: "text/plain".to_string(),
                },
                1_700_000_000_000,
            )
            .unwrap();
    }

    let blobs = storage.list_blobs().unwrap();
    assert_eq!(blobs.len(), 4);
    assert_eq!(
        blobs.iter().map(|b| b.key.as_str()).collect::<Vec<_>>(),
        vec!["test_1", "test_2", "test_3", "test_4"]
    );

    storage.delete_blob("test_2".to_string(), false).unwrap();
    storage.delete_blob("test_3".to_string(), true).unwrap();

    assert_eq!(storage.blob_rows(), 3);

    let blobs = storage.list_blobs().unwrap();
    assert_eq!(blobs.len(), 2);
    assert_eq!(
        blobs.iter().map(|b| b.key.as_str()).collect::<Vec<_>>(),
        vec!["test_1", "test_4"]
    );
}

#[test]
fn release_blobs() {
    let mut storage = get_storage();
    four_blobs(&mut storage);

    storage.delete_blob("test_2".to_string(), false).unwrap();
    storage.release_blobs().unwrap();

    assert_eq!(storage.blob_rows(), 3);
}

// ----- the engine's own cases -----

#[test]
fn push_twice_in_one_millisecond() {
    let mut storage = get_storage();

    let ts1 = storage.push_update_at("d".to_string(), vec![1, 2], 1_000).unwrap();
    let ts2 = storage.push_update_at("d".to_string(), vec![3, 4], 1_000).unwrap();

    assert_eq!(ts1, 1_000);
    assert_eq!(ts2, 1_001);

    let updates = storage.get_doc_updates("d".to_string()).unwrap();
    assert_eq!(updates.len(), 2);
    assert_eq!((updates[0].timestamp, updates[0].bin.clone()), (ts1, vec![1, 2]));
    assert_eq!((updates[1].timestamp, updates[1].bin.clone()), (ts2, vec![3, 4]));
    assert_eq!(updates[0].doc_id, "d");
}

#[test]
fn push_then_push_by_the_clock() {
    let mut storage = get_storage();

    let before = now();
    let ts1 = storage.push_update("d".to_string(), vec![1, 2]).unwrap();
    let ts2 = storage.push_update("d".to_string(), vec![3, 4]).unwrap();
    let after = now();

    assert!(ts2 > ts1);
    assert!(before <= ts1 && ts2 <= after + MAX_PUSH_RETRIES);

    let updates = storage.get_doc_updates("d".to_string()).unwrap();
    assert_eq!(
        updates.iter().map(|u| (u.timestamp, u.bin.clone())).collect::<Vec<_>>(),
        vec![(ts1, vec![1, 2]), (ts2, vec![3, 4])]
    );
}

#[test]
fn push_gives_up_after_ten_retries() {
    let mut storage = get_storage();

    for k in 0..=MAX_PUSH_RETRIES {
        let ts = storage.push_update_at("d".to_string(), vec![k as u8], 5_000).unwrap();
        assert_eq!(ts, 5_000 + k);
    }
    assert_eq!(MAX_PUSH_RETRIES, 10);

    let refused = storage.push_update_at("d".to_string(), vec![99], 5_000);
    assert_eq!(refused, Err(Error::Store(StoreError::Conflict)));
    assert_eq!(storage.get_doc_updates("d".to_string()).unwrap().len(), 11);
    assert_eq!(storage.get_doc_clock("d".to_string()).unwrap().unwrap().timestamp, 5_010);

    // another document is free to take the same millisecond
    assert_eq!(storage.push_update_at("e".to_string(), vec![1], 5_000), Ok(5_000));
    // and one millisecond on there is room again
    assert_eq!(storage.push_update_at("d".to_string(), vec![1], 5_001), Ok(5_011));
}

#[test]
fn updates_come_out_oldest_first() {
    let mut storage = get_storage();

    storage.push_update_at("d".to_string(), vec![3], 300).unwrap();
    storage.push_update_at("other".to_string(), vec![9], 150).unwrap();
    storage.push_update_at("d".to_string(), vec![1], 100).unwrap();
    storage.push_update_at("d".to_string(), vec![2], 200).unwrap();

    let updates = storage.get_doc_updates("d".to_string()).unwrap();
    assert_eq!(
        updates.iter().map(|u| (u.timestamp, u.bin.clone())).collect::<Vec<_>>(),
        vec![(100, vec![1]), (200, vec![2]), (300, vec![3])]
    );
    // the clock follows the last push, not the newest timestamp
    assert_eq!(storage.get_doc_clock("d".to_string()).unwrap().unwrap().timestamp, 200);
}

#[test]
fn merge_two_of_four() {
    let mut storage = get_storage();

    let mut stamps = Vec::new();
    for k in 0..4u8 {
        stamps.push(storage.push_update_at("d".to_string(), vec![k], 10 * (k as i64)).unwrap());
    }

    let updates = storage.get_doc_updates("d".to_string()).unwrap();
    assert_eq!(updates.iter().map(|u| u.timestamp).collect::<Vec<_>>(), vec![0, 10, 20, 30]);

    let removed =
        storage.mark_updates_merged("d".to_string(), vec![stamps[1], stamps[2]]).unwrap();
    assert_eq!(removed, 2);

    let updates = storage.get_doc_updates("d".to_string()).unwrap();
    assert_eq!(updates.iter().map(|u| u.timestamp).collect::<Vec<_>>(), vec![0, 30]);

    // rows that are gone already are not counted again
    let removed =
        storage.mark_updates_merged("d".to_string(), vec![stamps[1], stamps[3], 7]).unwrap();
    assert_eq!(removed, 1);
    // and another document's rows are not touched
    storage.push_update_at("e".to_string(), vec![1], 0).unwrap();
    assert_eq!(storage.mark_updates_merged("d".to_string(), vec![0]).unwrap(), 1);
    assert_eq!(storage.get_doc_updates("e".to_string()).unwrap().len(), 1);
}

#[test]
fn snapshot_ties_keep_what_is_stored() {
    let mut storage = get_storage();
    let at = |timestamp: i64, bin: Vec<u8>| DocRecord { doc_id: "d".to_string(), bin, timestamp };

    assert_eq!(storage.set_doc_snapshot(at(10, vec![1])), Ok(true));
    assert_eq!(storage.set_doc_snapshot(at(10, vec![2])), Ok(false));
    assert_eq!(storage.set_doc_snapshot(at(9, vec![3])), Ok(false));
    let stored = storage.get_doc_snapshot("d".to_string()).unwrap().unwrap();
    assert_eq!((stored.timestamp, stored.bin), (10, vec![1]));

    assert_eq!(storage.set_doc_snapshot(at(11, vec![4])), Ok(true));
    let stored = storage.get_doc_snapshot("d".to_string()).unwrap().unwrap();
    assert_eq!((stored.timestamp, stored.bin), (11, vec![4]));
}

#[test]
fn snapshots_in_either_order() {
    let at = |timestamp: i64, bin: Vec<u8>| DocRecord { doc_id: "d".to_string(), bin, timestamp };

    let mut storage = get_storage();
    assert_eq!(storage.set_doc_snapshot(at(1, vec![1])), Ok(true));
    assert_eq!(storage.set_doc_snapshot(at(2, vec![2])), Ok(true));
    assert_eq!(storage.get_doc_snapshot("d".to_string()).unwrap().unwrap().timestamp, 2);

    let mut storage = get_storage();
    assert_eq!(storage.set_doc_snapshot(at(2, vec![2])), Ok(true));
    assert_eq!(storage.set_doc_snapshot(at(1, vec![1])), Ok(false));
    let stored = storage.get_doc_snapshot("d".to_string()).unwrap().unwrap();
    assert_eq!((stored.timestamp, stored.bin), (2, vec![2]));
}

#[test]
fn peer_clock_shows_the_greatest() {
    let mut storage = get_storage();
    for clock in [5, 3, 9, 9, 1, -4] {
        storage.set_peer_remote_clock("p".to_string(), "d".to_string(), clock).unwrap();
    }
    let shown = storage.get_peer_remote_clock("p".to_string(), "d".to_string()).unwrap().unwrap();
    assert_eq!((shown.doc_id.as_str(), shown.timestamp), ("d", 9));

    // the three markers move apart from each other
    storage.set_peer_clock("p".to_string(), "d".to_string(), Marker::Pushed, 2).unwrap();
    storage.set_peer_pulled_remote_clock("p".to_string(), "d".to_string(), 7).unwrap();
    let of = |storage: &SqliteDocStorage, which: Marker| {
        storage.get_peer_clock("p".to_string(), "d".to_string(), which).unwrap().unwrap().timestamp
    };
    assert_eq!(of(&storage, Marker::Remote), 9);
    assert_eq!(of(&storage, Marker::PulledRemote), 7);
    assert_eq!(of(&storage, Marker::Pushed), 2);

    // a first write may lie before the epoch; a later one must pass what is shown
    storage.set_peer_pushed_clock("q".to_string(), "d".to_string(), -5).unwrap();
    assert_eq!(
        storage.get_peer_pushed_clock("q".to_string(), "d".to_string()).unwrap().unwrap().timestamp,
        -5
    );
    storage.set_peer_remote_clock("q".to_string(), "d".to_string(), -5).unwrap();
    assert_eq!(
        storage.get_peer_remote_clock("q".to_string(), "d".to_string()).unwrap().unwrap().timestamp,
        0
    );
    assert!(storage.get_peer_remote_clock("q".to_string(), "none".to_string()).unwrap().is_none());
}

#[test]
fn delete_doc_keeps_peer_clocks() {
    let mut storage = get_storage();
    storage.push_update_at("d".to_string(), vec![1], 1).unwrap();
    storage.push_update_at("e".to_string(), vec![1], 1).unwrap();
    storage
        .set_doc_snapshot(DocRecord { doc_id: "d".to_string(), bin: vec![1], timestamp: 1 })
        .unwrap();
    storage.set_peer_remote_clock("p".to_string(), "d".to_string(), 4).unwrap();

    storage.delete_doc("d".to_string()).unwrap();

    assert!(storage.get_doc_updates("d".to_string()).unwrap().is_empty());
    assert!(storage.get_doc_snapshot("d".to_string()).unwrap().is_none());
    assert!(storage.get_doc_clock("d".to_string()).unwrap().is_none());
    assert_eq!(storage.get_doc_updates("e".to_string()).unwrap().len(), 1);
    assert_eq!(storage.get_peer_remote_clocks("p".to_string()).unwrap().len(), 1);
}

#[test]
fn doc_clocks_after_a_cursor() {
    let mut storage = get_storage();
    storage.push_update_at("a".to_string(), vec![1], 10).unwrap();
    storage.push_update_at("b".to_string(), vec![1], 20).unwrap();
    storage.push_update_at("c".to_string(), vec![1], 30).unwrap();

    let after = |storage: &SqliteDocStorage, cursor: Option<i64>| {
        storage
            .get_doc_clocks(cursor)
            .unwrap()
            .iter()
            .map(|c| (c.doc_id.clone(), c.timestamp))
            .collect::<Vec<_>>()
    };
    assert_eq!(after(&storage, Some(20)), vec![("c".to_string(), 30)]);
    assert_eq!(after(&storage, Some(9)).len(), 3);
    assert_eq!(after(&storage, Some(30)).len(), 0);
    assert_eq!(
        after(&storage, None),
        vec![("a".to_string(), 10), ("b".to_string(), 20), ("c".to_string(), 30)]
    );
}

#[test]
fn set_space_id_twice_is_once() {
    let mut storage = get_storage();
    storage.set_space_id("old".to_string()).unwrap();
    storage.push_update_at("old".to_string(), vec![1], 1).unwrap();
    storage.push_update_at("else".to_string(), vec![2], 1).unwrap();

    storage.set_space_id("new".to_string()).unwrap();
    let once = storage.get_doc_updates("new".to_string()).unwrap();
    storage.set_space_id("new".to_string()).unwrap();
    let twice = storage.get_doc_updates("new".to_string()).unwrap();

    assert_eq!(once.len(), 1);
    assert_eq!(
        once.iter().map(|u| (u.timestamp, u.bin.clone())).collect::<Vec<_>>(),
        twice.iter().map(|u| (u.timestamp, u.bin.clone())).collect::<Vec<_>>()
    );
    assert!(storage.get_doc_updates("old".to_string()).unwrap().is_empty());
    assert_eq!(storage.get_doc_updates("else".to_string()).unwrap().len(), 1);
    assert_eq!(storage.get_doc_clock("new".to_string()).unwrap().unwrap().timestamp, 1);
}

#[test]
fn set_space_id_refuses_a_collision() {
    let mut storage = get_storage();
    storage.set_space_id("old".to_string()).unwrap();
    storage.push_update_at("old".to_string(), vec![1], 1).unwrap();
    storage.push_update_at("new".to_string(), vec![2], 1).unwrap();

    let refused = storage.set_space_id("new".to_string());

    assert_eq!(refused, Err(Error::Store(StoreError::Conflict)));
    assert_eq!(storage.space_id().unwrap(), "old");
    assert_eq!(storage.get_doc_updates("old".to_string()).unwrap().len(), 1);
    assert_eq!(storage.get_doc_updates("new".to_string()).unwrap().len(), 1);
}

#[test]
fn blob_soft_and_hard_delete() {
    let mut storage = get_storage();
    let blob = || SetBlob { key: "k".to_string(), data: vec![0, 0], mime: "text/plain".to_string() };

    storage.set_blob_at(blob(), 100).unwrap();
    let stored = storage.get_blob("k".to_string()).unwrap().unwrap();
    assert_eq!((stored.size, stored.created_at, stored.mime.as_str()), (2, 100, "text/plain"));
    assert_eq!(stored.data, vec![0, 0]);

    storage.delete_blob("k".to_string(), false).unwrap();
    assert!(storage.get_blob("k".to_string()).unwrap().is_none());
    assert_eq!(storage.blob_rows(), 1);
    storage.release_blobs().unwrap();
    assert_eq!(storage.blob_rows(), 0);

    storage.set_blob_at(blob(), 200).unwrap();
    storage.delete_blob("k".to_string(), false).unwrap();
    assert_eq!(storage.blob_rows(), 1);
    storage.delete_blob("k".to_string(), true).unwrap();
    assert_eq!(storage.blob_rows(), 0);

    // storing again undoes a soft delete and keeps the time of creation
    storage.set_blob_at(blob(), 300).unwrap();
    storage.delete_blob_at("k".to_string(), false, 310).unwrap();
    storage
        .set_blob_at(
            SetBlob { key: "k".to_string(), data: vec![1, 2, 3], mime: "x/y".to_string() },
            320,
        )
        .unwrap();
    let stored = storage.get_blob("k".to_string()).unwrap().unwrap();
    assert_eq!((stored.size, stored.created_at, stored.mime.as_str()), (3, 300, "x/y"));
}

#[test]
fn blobs_come_out_newest_first() {
    let mut storage = get_storage();
    for (key, at) in [("a", 5), ("b", 9), ("c", 5), ("d", 7)] {
        storage
            .set_blob_at(
                SetBlob { key: key.to_string(), data: vec![1], mime: "m".to_string() },
                at,
            )
            .unwrap();
    }
    let listed = storage.list_blobs().unwrap();
    assert_eq!(
        listed.iter().map(|b| (b.key.as_str(), b.created_at, b.size)).collect::<Vec<_>>(),
        vec![("b", 9, 1), ("d", 7, 1), ("a", 5, 1), ("c", 5, 1)]
    );
}

#[test]
fn statements_need_a_store_that_is_ready() {
    let mut storage = SqliteDocStorage::new(":memory:".to_string());
    let no_schema = Error::Store(StoreError::NoSchema);
    assert_eq!(storage.push_update("d".to_string(), vec![1]), Err(no_schema));
    assert_eq!(storage.get_doc_updates("d".to_string()).unwrap_err(), no_schema);
    assert_eq!(storage.set_space_id("s".to_string()), Err(no_schema));
    assert_eq!(storage.list_blobs().unwrap_err(), no_schema);
    assert_eq!(storage.clear_clocks(), Err(no_schema));
    assert_eq!(storage.checkpoint(), Ok(()));
    assert!(!storage.is_closed());

    storage.connect().unwrap();
    storage.connect().unwrap();
    storage.push_update_at("d".to_string(), vec![1], 1).unwrap();
    assert_eq!(storage.checkpoint(), Ok(()));

    storage.close();
    let closed = Error::Store(StoreError::Closed);
    assert!(storage.is_closed());
    assert_eq!(storage.validate(), Ok(false));
    assert_eq!(storage.connect(), Err(closed));
    assert_eq!(storage.checkpoint(), Err(closed));
    assert_eq!(storage.get_doc_clock("d".to_string()).unwrap_err(), closed);
    assert_eq!(
        storage.set_blob(SetBlob { key: "k".to_string(), data: vec![], mime: "m".to_string() }),
        Err(closed)
    );
    assert_eq!(storage.path(), ":memory:");
}

#[test]
fn errors_in_words() {
    assert_eq!(Error::InvalidOperation.message(), "Invalid operation");
    assert!(Error::Store(StoreError::Closed).message().starts_with("Sqlite Error: "));
    assert!(Error::Store(StoreError::NoSchema).message().starts_with("Sqlite Error: "));
    assert!(Error::Store(StoreError::Conflict).message().starts_with("Sqlite Error: "));
}

#[test]
fn connections_for_memory_and_for_files() {
    let memory = connection_plan(":memory:");
    assert_eq!((memory.min_connections, memory.max_connections), (1, 1));
    assert_eq!(MEMORY_CONNECTIONS, 1);
    assert!(!memory.retire_connections && !memory.write_ahead_log);

    let file = connection_plan("/tmp/workspace.db");
    assert_eq!(file.max_connections, 4);
    assert_eq!(FILE_CONNECTIONS, 4);
    assert!(file.retire_connections && file.write_ahead_log);
}

#[test]
fn schema_has_one_step() {
    let migrations = get_migrator();
    assert_eq!(migrations.len(), 1);
    assert_eq!(migrations[0].version, 1);
    assert_eq!(migrations[0].description, "init_v2");
    assert_eq!(migrations[0].migration_type, MigrationType::Simple);
    for table in ["meta", "snapshots", "updates", "clocks", "blobs", "peer_clocks"] {
        assert!(migrations[0].sql.contains(&format!("CREATE TABLE \"{}\"", table)));
    }
    assert_eq!(steps().len(), 1);
}

#[test]
fn steps_are_numbered_in_their_order() {
    let steps = vec![
        SimpleMigration { name: "a", up: "A", down: None },
        SimpleMigration { name: "b", up: "B", down: Some("-B") },
        SimpleMigration { name: "c", up: "C", down: None },
    ];
    let migrations = plan(&steps);
    assert_eq!(
        migrations
            .iter()
            .map(|m| (m.version, m.description, m.migration_type, m.sql))
            .collect::<Vec<_>>(),
        vec![
            (1, "a", MigrationType::Simple, "A"),
            (2, "b", MigrationType::ReversibleUp, "B"),
            (3, "b", MigrationType::ReversibleDown, "-B"),
            (4, "c", MigrationType::Simple, "C"),
        ]
    );
    assert!(plan(&Vec::new()).is_empty());
}

#[test]
fn a_store_opened_for_one_errand() {
    let mut storage = DocStorage::new(":memory:".to_string());
    assert_eq!(storage.validate(), Ok(false));

    assert_eq!(storage.set_space_id("space".to_string()), Ok(()));

    // the errand leaves the store closed, and closed it stays
    assert_eq!(storage.validate(), Ok(false));
    assert_eq!(
        storage.set_space_id("other".to_string()),
        Err(Error::Store(StoreError::Closed))
    );
}

#[test]
fn pushes_add_their_rows_and_no_others() {
    let mut storage = get_storage();
    storage.push_update_at("d".to_string(), vec![0], 7).unwrap();
    storage.push_update_at("other".to_string(), vec![9], 7).unwrap();

    // the clock stands still, runs on, and runs back
    let arrivals: [(i64, u8); 6] = [(7, 1), (7, 2), (9, 3), (8, 4), (7, 5), (3, 6)];
    let mut answered = Vec::new();
    for (now, byte) in arrivals {
        answered.push(storage.push_update_at("d".to_string(), vec![byte], now).unwrap());
    }

    assert_eq!(answered, vec![8, 9, 10, 11, 12, 3]);
    let mut distinct = answered.clone();
    distinct.sort();
    distinct.dedup();
    assert_eq!(distinct.len(), arrivals.len());

    let updates = storage.get_doc_updates("d".to_string()).unwrap();
    assert_eq!(updates.len(), 1 + arrivals.len());
    for ((_, byte), timestamp) in arrivals.iter().zip(answered.iter()) {
        let row = updates.iter().find(|u| u.timestamp == *timestamp).unwrap();
        assert_eq!(row.bin, vec![*byte]);
    }
    assert_eq!(storage.get_doc_updates("other".to_string()).unwrap().len(), 1);
    assert_eq!(storage.get_doc_clock("d".to_string()).unwrap().unwrap().timestamp, 3);
}

#[test]
fn a_store_for_one_errand_keeps_its_path() {
    let mut storage = DocStorage::new("/data/space.db".to_string());
    assert_eq!(storage.path(), "/data/space.db");
    storage.set_space_id("space".to_string()).unwrap();
    assert_eq!(storage.path(), "/data/space.db");
}
