//! Laws that hold of the engine's operations taken together. Each is stated
//! over the functions on `StoreState` in which the operations' own contracts
//! are written, so it holds of every engine.
use vstd::prelude::*;
use super::keyed::{has_key, lemma_filter_keeps_keys, lemma_upsert, lookup, upsert, Keyed};
use super::rows::{BlobRow, ClockRow, Marker, PeerClockRow, RecordRow, SetBlobRow, UpdateRow};
use super::state::{live_blob, other_blob, StoreState};

verus! {

// ----- updates -----

/// An update on its way into the store: its content and the time at which it
/// arrives.
pub struct Arrival {
    pub bin: Seq<u8>,
    pub now: int,
}

/// The store after the updates of `doc_id` in `arrivals` were pushed, one
/// after the other.
pub open spec fn after_pushes(
    store: StoreState,
    doc_id: Seq<char>,
    arrivals: Seq<Arrival>,
) -> StoreState
    decreases arrivals.len(),
{
    if arrivals.len() == 0 {
        store
    } else {
        after_pushes(store, doc_id, arrivals.drop_last()).push_update(
            doc_id,
            arrivals.last().bin,
            arrivals.last().now,
        )
    }
}

/// What the push of the update at `i` answers: its timestamp, or nothing
/// where it was refused.
pub open spec fn pushed_at(
    store: StoreState,
    doc_id: Seq<char>,
    arrivals: Seq<Arrival>,
    i: int,
) -> Option<int> {
    after_pushes(store, doc_id, arrivals.take(i)).push_timestamp(doc_id, arrivals[i].now)
}

/// A timestamp that `first_free` finds is free, and not before `from`.
proof fn lemma_first_free(store: StoreState, doc_id: Seq<char>, from: int, retries: nat)
    ensures
        match store.first_free(doc_id, from, retries) {
            Some(timestamp) => from <= timestamp <= from + retries && !has_key(
                store.updates,
                (doc_id, timestamp),
            ),
            None => true,
        },
    decreases retries,
{
    if has_key(store.updates, (doc_id, from)) && retries > 0 {
        lemma_first_free(store, doc_id, from + 1, (retries - 1) as nat);
    }
}

/// A push keeps every update that was there, and adds the one that it
/// answers with.
proof fn lemma_push_keeps(store: StoreState, doc_id: Seq<char>, bin: Seq<u8>, now: int)
    ensures
        forall|key: (Seq<char>, int)|
            has_key(store.updates, key) ==> has_key(
                #[trigger] store.push_update(doc_id, bin, now).updates,
                key,
            ),
        match store.push_timestamp(doc_id, now) {
            Some(timestamp) => has_key(
                store.push_update(doc_id, bin, now).updates,
                (doc_id, timestamp),
            ),
            None => true,
        },
{
    let after = store.push_update(doc_id, bin, now).updates;
    match store.push_timestamp(doc_id, now) {
        Some(timestamp) => {
            let row = UpdateRow { doc_id, timestamp, bin };
            assert(after == store.updates.push(row));
            assert(after[store.updates.len() as int] == row);
            assert forall|key: (Seq<char>, int)| has_key(store.updates, key) implies has_key(
                after,
                key,
            ) by {
                let i = choose|i: int|
                    0 <= i < store.updates.len() && (#[trigger] store.updates[i]).key() == key;
                assert(after[i] == store.updates[i]);
            }
        },
        None => {},
    }
}

/// Pushes only add updates: what one push answered with is still there after
/// any number of later pushes.
proof fn lemma_pushes_keep(
    store: StoreState,
    doc_id: Seq<char>,
    arrivals: Seq<Arrival>,
    upto: int,
    key: (Seq<char>, int),
)
    requires
        0 <= upto <= arrivals.len(),
        has_key(after_pushes(store, doc_id, arrivals.take(upto)).updates, key),
    ensures
        has_key(after_pushes(store, doc_id, arrivals).updates, key),
    decreases arrivals.len() - upto,
{
    if upto == arrivals.len() {
        assert(arrivals.take(upto) =~= arrivals);
    } else {
        let shorter = arrivals.take(upto);
        let longer = arrivals.take(upto + 1);
        assert(longer.drop_last() =~= shorter);
        assert(longer.last() == arrivals[upto]);
        lemma_push_keeps(
            after_pushes(store, doc_id, shorter),
            doc_id,
            arrivals[upto].bin,
            arrivals[upto].now,
        );
        lemma_pushes_keep(store, doc_id, arrivals, upto + 1, key);
    }
}

/// Uniqueness of timestamps. Whatever the clock showed when each of them
/// arrived, and however often it showed the same millisecond, the updates of
/// one document that are pushed one after the other, as the store's
/// transactions make concurrent pushes run, get timestamps that differ from
/// each other; and none gets a timestamp that an update of the document
/// bore before.
pub proof fn law_push_timestamps_distinct(
    store: StoreState,
    doc_id: Seq<char>,
    arrivals: Seq<Arrival>,
    i: int,
    j: int,
)
    requires
        0 <= i < j < arrivals.len(),
        pushed_at(store, doc_id, arrivals, i) is Some,
        pushed_at(store, doc_id, arrivals, j) is Some,
    ensures
        pushed_at(store, doc_id, arrivals, i) != pushed_at(store, doc_id, arrivals, j),
        !has_key(store.updates, (doc_id, pushed_at(store, doc_id, arrivals, j)->Some_0)),
{
    let first = pushed_at(store, doc_id, arrivals, i)->Some_0;
    let second = pushed_at(store, doc_id, arrivals, j)->Some_0;
    let before_first = after_pushes(store, doc_id, arrivals.take(i));
    let before_second = after_pushes(store, doc_id, arrivals.take(j));
    let upto_second = arrivals.take(j);
    // the first push leaves its update behind
    lemma_push_keeps(before_first, doc_id, arrivals[i].bin, arrivals[i].now);
    assert(upto_second.take(i + 1).drop_last() =~= arrivals.take(i));
    assert(upto_second.take(i + 1).last() == arrivals[i]);
    assert(has_key(after_pushes(store, doc_id, upto_second.take(i + 1)).updates, (doc_id, first)));
    // and it is still there when the second arrives
    lemma_pushes_keep(store, doc_id, upto_second, i + 1, (doc_id, first));
    // while the second gets a timestamp that is free then
    lemma_first_free(before_second, doc_id, arrivals[j].now, super::state::MAX_PUSH_RETRIES as nat);
    if has_key(store.updates, (doc_id, second)) {
        assert(upto_second.take(0) =~= Seq::<Arrival>::empty());
        lemma_pushes_keep(store, doc_id, upto_second, 0, (doc_id, second));
    }
}

/// The rows of pushes that all succeed: one for each arrival, in the order of
/// the arrivals, with the bytes of the arrival under the timestamp that its
/// push answered with.
pub open spec fn rows_of_pushes(
    store: StoreState,
    doc_id: Seq<char>,
    arrivals: Seq<Arrival>,
) -> Seq<UpdateRow> {
    Seq::new(
        arrivals.len(),
        |i: int|
            UpdateRow {
                doc_id,
                timestamp: pushed_at(store, doc_id, arrivals, i)->Some_0,
                bin: arrivals[i].bin,
            },
    )
}

/// Pushes add their rows and no others. Where every one of the pushes of one
/// document succeeds, in whatever order the store's transactions run them and
/// whatever the clock shows to each, the update log holds afterwards what it
/// held before and, behind that, one row for each push, with the bytes of
/// that push under the timestamp that it answered with. Snapshots, blobs, peer
/// markers and the store's identity are as they were.
pub proof fn law_pushes_add_their_rows(
    store: StoreState,
    doc_id: Seq<char>,
    arrivals: Seq<Arrival>,
)
    requires
        forall|i: int|
            0 <= i < arrivals.len() ==> (#[trigger] pushed_at(store, doc_id, arrivals, i)) is Some,
    ensures
        after_pushes(store, doc_id, arrivals).updates == store.updates + rows_of_pushes(
            store,
            doc_id,
            arrivals,
        ),
        after_pushes(store, doc_id, arrivals).snapshots == store.snapshots,
        after_pushes(store, doc_id, arrivals).blobs == store.blobs,
        after_pushes(store, doc_id, arrivals).peer_clocks == store.peer_clocks,
        after_pushes(store, doc_id, arrivals).space_id == store.space_id,
    decreases arrivals.len(),
{
    let rows = rows_of_pushes(store, doc_id, arrivals);
    if arrivals.len() == 0 {
        assert(store.updates + rows =~= store.updates);
    } else {
        let front = arrivals.drop_last();
        let last = arrivals.len() - 1;
        assert forall|i: int| 0 <= i < front.len() implies #[trigger] pushed_at(
            store,
            doc_id,
            front,
            i,
        ) == pushed_at(store, doc_id, arrivals, i) by {
            assert(front.take(i) =~= arrivals.take(i));
            assert(front[i] == arrivals[i]);
        }
        assert forall|i: int| 0 <= i < front.len() implies (#[trigger] pushed_at(
            store,
            doc_id,
            front,
            i,
        )) is Some by {
            assert(pushed_at(store, doc_id, arrivals, i) is Some);
        }
        law_pushes_add_their_rows(store, doc_id, front);
        let before = after_pushes(store, doc_id, front);
        assert(arrivals.take(last) =~= front);
        assert(pushed_at(store, doc_id, arrivals, last) is Some);
        let timestamp = pushed_at(store, doc_id, arrivals, last)->Some_0;
        assert(before.push_timestamp(doc_id, arrivals[last].now) == Some(timestamp));
        let row = UpdateRow { doc_id, timestamp, bin: arrivals[last].bin };
        assert(after_pushes(store, doc_id, arrivals).updates == before.updates.push(row));
        assert(rows =~= rows_of_pushes(store, doc_id, front).push(row));
        assert(before.updates.push(row) =~= store.updates + rows);
    }
}

/// A push that succeeds gives the update a timestamp at or after its arrival
/// and at most `MAX_PUSH_RETRIES` milliseconds later, sets the document's
/// clock to it, and leaves the table of updates with distinct keys.
pub proof fn law_push_sets_clock(store: StoreState, doc_id: Seq<char>, bin: Seq<u8>, now: int)
    requires
        store.wf(),
        store.push_timestamp(doc_id, now) is Some,
    ensures
        store.push_update(doc_id, bin, now).wf(),
        now <= store.push_timestamp(doc_id, now)->Some_0 <= now + super::state::MAX_PUSH_RETRIES,
        store.push_update(doc_id, bin, now).doc_clock(doc_id) == Some(
            ClockRow { doc_id, timestamp: store.push_timestamp(doc_id, now)->Some_0 },
        ),
{
    let timestamp = store.push_timestamp(doc_id, now)->Some_0;
    lemma_first_free(store, doc_id, now, super::state::MAX_PUSH_RETRIES as nat);
    lemma_upsert(store.updates, UpdateRow { doc_id, timestamp, bin });
    lemma_upsert(store.clocks, ClockRow { doc_id, timestamp });
}

// ----- snapshots -----

/// What one write of a snapshot does: it keeps the store well formed, and the
/// document then has the written snapshot where the write applied, and what
/// it had where it did not; no other document's snapshot changes.
pub proof fn law_set_doc_snapshot(store: StoreState, snapshot: RecordRow)
    requires
        store.wf(),
    ensures
        store.set_doc_snapshot(snapshot).wf(),
        store.set_doc_snapshot(snapshot).doc_snapshot(snapshot.doc_id) == (if store.snapshot_applies(
            snapshot,
        ) {
            Some(snapshot)
        } else {
            store.doc_snapshot(snapshot.doc_id)
        }),
        forall|other: Seq<char>|
            other != snapshot.doc_id ==> store.set_doc_snapshot(snapshot).doc_snapshot(other)
                == store.doc_snapshot(other),
{
    lemma_upsert(store.snapshots, snapshot);
}

/// Snapshots never move back. After a write the document's snapshot bears the
/// later of the two timestamps: the written one and the one that it bore.
pub proof fn law_snapshot_never_older(store: StoreState, snapshot: RecordRow)
    requires
        store.wf(),
    ensures
        store.set_doc_snapshot(snapshot).doc_snapshot(snapshot.doc_id) is Some,
        store.set_doc_snapshot(snapshot).doc_snapshot(snapshot.doc_id)->Some_0.timestamp == (
        match store.doc_snapshot(snapshot.doc_id) {
            Some(stored) => if stored.timestamp < snapshot.timestamp {
                snapshot.timestamp
            } else {
                stored.timestamp
            },
            None => snapshot.timestamp,
        }),
{
    law_set_doc_snapshot(store, snapshot);
}

/// Snapshot monotonicity. Of two snapshots of one document, written in either
/// order to a store that holds none as new as the later one, the later one is
/// what the store holds in the end. A write is applied exactly where its
/// timestamp is the newest at that moment: the later snapshot always, the
/// earlier one only if it comes first and the store holds nothing as new.
pub proof fn law_snapshot_monotonic(store: StoreState, earlier: RecordRow, later: RecordRow)
    requires
        store.wf(),
        earlier.doc_id == later.doc_id,
        earlier.timestamp < later.timestamp,
        match store.doc_snapshot(later.doc_id) {
            Some(stored) => stored.timestamp < later.timestamp,
            None => true,
        },
    ensures
        store.set_doc_snapshot(earlier).set_doc_snapshot(later).doc_snapshot(later.doc_id) == Some(
            later,
        ),
        store.set_doc_snapshot(later).set_doc_snapshot(earlier).doc_snapshot(later.doc_id) == Some(
            later,
        ),
        store.set_doc_snapshot(earlier).snapshot_applies(later),
        store.snapshot_applies(later),
        !store.set_doc_snapshot(later).snapshot_applies(earlier),
        store.snapshot_applies(earlier) <==> (match store.doc_snapshot(later.doc_id) {
            Some(stored) => stored.timestamp < earlier.timestamp,
            None => true,
        }),
{
    law_set_doc_snapshot(store, earlier);
    law_set_doc_snapshot(store, later);
    law_set_doc_snapshot(store.set_doc_snapshot(earlier), later);
    law_set_doc_snapshot(store.set_doc_snapshot(later), earlier);
}

// ----- peer markers -----

/// The greatest of a sequence of clocks that is not empty.
pub open spec fn greatest(clocks: Seq<int>) -> int
    recommends
        clocks.len() > 0,
    decreases clocks.len(),
{
    if clocks.len() <= 1 {
        clocks[0]
    } else if clocks.last() > greatest(clocks.drop_last()) {
        clocks.last()
    } else {
        greatest(clocks.drop_last())
    }
}

/// `greatest` is one of the clocks, and none of them is greater.
pub proof fn lemma_greatest(clocks: Seq<int>)
    requires
        clocks.len() > 0,
    ensures
        clocks.contains(greatest(clocks)),
        forall|i: int| 0 <= i < clocks.len() ==> clocks[i] <= greatest(clocks),
    decreases clocks.len(),
{
    if clocks.len() <= 1 {
        assert(clocks[0] == greatest(clocks));
    } else {
        let front = clocks.drop_last();
        lemma_greatest(front);
        if clocks.last() > greatest(front) {
            assert(clocks[clocks.len() - 1] == greatest(clocks));
        } else {
            let i = choose|i: int| 0 <= i < front.len() && front[i] == greatest(front);
            assert(clocks[i] == greatest(clocks));
        }
        assert forall|i: int| 0 <= i < clocks.len() implies clocks[i] <= greatest(clocks) by {
            if i < front.len() {
                assert(front[i] <= greatest(front));
            }
        }
    }
}

/// The store after one marker of a document with a peer was set to each of
/// `clocks`, one after the other.
pub open spec fn after_clocks(
    store: StoreState,
    peer: Seq<char>,
    doc_id: Seq<char>,
    which: Marker,
    clocks: Seq<int>,
) -> StoreState
    decreases clocks.len(),
{
    if clocks.len() == 0 {
        store
    } else {
        after_clocks(store, peer, doc_id, which, clocks.drop_last()).set_peer_clock(
            peer,
            doc_id,
            which,
            clocks.last(),
        )
    }
}

/// What one write of a marker does: it keeps the store well formed, and the
/// marker then shows the written clock where the two had no row, and else
/// the greater of the written clock and the one that it showed.
pub proof fn law_set_peer_clock(
    store: StoreState,
    peer: Seq<char>,
    doc_id: Seq<char>,
    which: Marker,
    clock: int,
)
    requires
        store.wf(),
    ensures
        store.set_peer_clock(peer, doc_id, which, clock).wf(),
        store.set_peer_clock(peer, doc_id, which, clock).peer_clock(peer, doc_id, which) == Some(
            ClockRow {
                doc_id,
                timestamp: match store.peer_clock(peer, doc_id, which) {
                    Some(shown) => if shown.timestamp < clock {
                        clock
                    } else {
                        shown.timestamp
                    },
                    None => clock,
                },
            },
        ),
{
    match lookup(store.peer_clocks, (peer, doc_id)) {
        Some(row) => {
            let p = super::keyed::position(store.peer_clocks, (peer, doc_id));
            assert(store.peer_clocks[p].key() == (peer, doc_id));
            if row.marker(which) < clock {
                lemma_upsert(store.peer_clocks, row.with_marker(which, clock));
            }
        },
        None => {
            lemma_upsert(store.peer_clocks, PeerClockRow::fresh(peer, doc_id, which, clock));
        },
    }
}

/// Peer-clock monotonicity. After any number of writes of one marker of a
/// document with a peer, in any order and with any repetitions, the marker
/// shows the greatest clock that was written, where the two had no row
/// before; where they had one, it shows the greater of that clock and what
/// the marker showed. This holds of each of the three markers.
pub proof fn law_peer_clock_is_greatest(
    store: StoreState,
    peer: Seq<char>,
    doc_id: Seq<char>,
    which: Marker,
    clocks: Seq<int>,
)
    requires
        store.wf(),
        clocks.len() > 0,
    ensures
        after_clocks(store, peer, doc_id, which, clocks).wf(),
        after_clocks(store, peer, doc_id, which, clocks).peer_clock(peer, doc_id, which) == Some(
            ClockRow {
                doc_id,
                timestamp: match store.peer_clock(peer, doc_id, which) {
                    Some(shown) => if shown.timestamp < greatest(clocks) {
                        greatest(clocks)
                    } else {
                        shown.timestamp
                    },
                    None => greatest(clocks),
                },
            },
        ),
    decreases clocks.len(),
{
    let front = clocks.drop_last();
    if front.len() == 0 {
        assert(after_clocks(store, peer, doc_id, which, front) == store);
        law_set_peer_clock(store, peer, doc_id, which, clocks.last());
    } else {
        law_peer_clock_is_greatest(store, peer, doc_id, which, front);
        law_set_peer_clock(
            after_clocks(store, peer, doc_id, which, front),
            peer,
            doc_id,
            which,
            clocks.last(),
        );
    }
}

// ----- the workspace's identity -----

/// Re-labeling is idempotent. Telling a store twice that it belongs to a
/// workspace leaves it as telling it once does: every update, snapshot, clock
/// and peer marker bears the same document after the second call as after
/// the first.
pub proof fn law_set_space_id_idempotent(store: StoreState, space_id: Seq<char>)
    ensures
        store.set_space_id(space_id).set_space_id(space_id) == store.set_space_id(space_id),
{
}

/// A store that is told a workspace for the first time, or the one that it
/// belongs to already, keeps every row as it is.
pub proof fn law_set_space_id_keeps_rows(store: StoreState, space_id: Seq<char>)
    requires
        store.space_id is None || store.space_id == Some(space_id),
    ensures
        store.set_space_id(space_id) == (StoreState { space_id: Some(space_id), ..store }),
{
}

// ----- blobs -----

/// Soft and hard deletion. A blob that was stored and then deleted softly is
/// not returned by `get_blob`, but its row is still there; releasing the
/// blobs, or deleting the blob for good, removes the row. Storing the blob
/// again brings it back.
pub proof fn law_blob_deletion(
    store: StoreState,
    blob: SetBlobRow,
    stored_at: int,
    deleted_at: int,
    later: int,
)
    requires
        store.wf(),
    ensures
        store.set_blob(blob, stored_at).get_blob(blob.key) is Some,
        store.set_blob(blob, stored_at).get_blob(blob.key)->Some_0.data == blob.data,
        store.set_blob(blob, stored_at).get_blob(blob.key)->Some_0.mime == blob.mime,
        store.set_blob(blob, stored_at).get_blob(blob.key)->Some_0.size == blob.data.len(),
        store.set_blob(blob, stored_at).delete_blob(blob.key, false, deleted_at).get_blob(blob.key)
            is None,
        has_key(
            store.set_blob(blob, stored_at).delete_blob(blob.key, false, deleted_at).blobs,
            blob.key,
        ),
        !has_key(
            store.set_blob(blob, stored_at).delete_blob(
                blob.key,
                false,
                deleted_at,
            ).release_blobs().blobs,
            blob.key,
        ),
        !has_key(
            store.set_blob(blob, stored_at).delete_blob(blob.key, false, deleted_at).delete_blob(
                blob.key,
                true,
                later,
            ).blobs,
            blob.key,
        ),
        store.set_blob(blob, stored_at).delete_blob(blob.key, false, deleted_at).set_blob(
            blob,
            later,
        ).get_blob(blob.key) is Some,
{
    let key = blob.key;
    let created_at = match lookup(store.blobs, key) {
        Some(row) => row.created_at,
        None => stored_at,
    };
    let row = BlobRow {
        key,
        data: blob.data,
        mime: blob.mime,
        size: blob.data.len() as int,
        created_at,
        deleted_at: None,
    };
    lemma_upsert(store.blobs, row);
    let stored = store.set_blob(blob, stored_at);
    assert(lookup(stored.blobs, key) == Some(row));
    let marked = BlobRow { deleted_at: Some(deleted_at), ..row };
    lemma_upsert(stored.blobs, marked);
    let hidden = stored.delete_blob(key, false, deleted_at);
    assert(lookup(hidden.blobs, key) == Some(marked));
    lemma_filter_keeps_keys(hidden.blobs, live_blob());
    lemma_filter_keeps_keys(hidden.blobs, other_blob(key));
    assert(lookup(hidden.release_blobs().blobs, key) is None);
    assert(lookup(hidden.delete_blob(key, true, later).blobs, key) is None);
    let again = BlobRow {
        key,
        data: blob.data,
        mime: blob.mime,
        size: blob.data.len() as int,
        created_at: marked.created_at,
        deleted_at: None,
    };
    lemma_upsert(hidden.blobs, again);
}

} // verus!
