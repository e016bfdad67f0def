//! What a store holds, as a mathematical value, and what each operation of
//! the engine makes of it. The engine's contracts are stated over these
//! functions, and so are the laws that relate several operations.
use vstd::prelude::*;
use super::error::{Error, StoreError};
use super::keyed::{distinct_keys, has_key, lookup, position, upsert};
use super::relabel::{collides, relabel};
use super::rows::{
    BlobRow, BlobView, ClockRow, ListedBlobView, Marker, PeerClockRow, RecordRow, SetBlobRow,
    UpdateRow,
};

verus! {

/// How often `push_update` moves its candidate timestamp forward by one
/// millisecond before it gives up.
pub const MAX_PUSH_RETRIES: i64 = 10;

/// The tables of one workspace, each in row order, and the state of the
/// connection to them.
pub struct StoreState {
    /// The names of the migration steps that were applied, oldest first.
    pub migrations: Seq<Seq<char>>,
    /// Whether the store was closed. A closed store stays closed.
    pub closed: bool,
    /// The workspace that the store belongs to, once it was told.
    pub space_id: Option<Seq<char>>,
    pub updates: Seq<UpdateRow>,
    pub snapshots: Seq<RecordRow>,
    pub clocks: Seq<ClockRow>,
    pub blobs: Seq<BlobRow>,
    pub peer_clocks: Seq<PeerClockRow>,
}

/// The rows of an update log that belong to `doc_id`.
pub open spec fn of_doc(doc_id: Seq<char>) -> spec_fn(UpdateRow) -> bool {
    |row: UpdateRow| row.doc_id == doc_id
}

/// The rows of an update log that `mark_updates_merged` leaves in place.
pub open spec fn not_merged(doc_id: Seq<char>, timestamps: Seq<int>) -> spec_fn(UpdateRow) -> bool {
    |row: UpdateRow| !(row.doc_id == doc_id && timestamps.contains(row.timestamp))
}

/// The rows of an update log that belong to another document than `doc_id`.
pub open spec fn other_update(doc_id: Seq<char>) -> spec_fn(UpdateRow) -> bool {
    |row: UpdateRow| row.doc_id != doc_id
}

/// The snapshots of other documents than `doc_id`.
pub open spec fn other_record(doc_id: Seq<char>) -> spec_fn(RecordRow) -> bool {
    |row: RecordRow| row.doc_id != doc_id
}

/// The clocks of other documents than `doc_id`.
pub open spec fn other_clock(doc_id: Seq<char>) -> spec_fn(ClockRow) -> bool {
    |row: ClockRow| row.doc_id != doc_id
}

/// The clocks that lie strictly after the cursor; all of them without one.
pub open spec fn changed_since(after: Option<int>) -> spec_fn(ClockRow) -> bool {
    |row: ClockRow|
        match after {
            Some(cursor) => row.timestamp > cursor,
            None => true,
        }
}

/// The markers kept for `peer`.
pub open spec fn of_peer(peer: Seq<char>) -> spec_fn(PeerClockRow) -> bool {
    |row: PeerClockRow| row.peer == peer
}

/// What a getter for the marker `which` shows of a row.
pub open spec fn show_marker(which: Marker) -> spec_fn(PeerClockRow) -> ClockRow {
    |row: PeerClockRow| row.shown(which)
}

/// The blobs stored under another key than `key`.
pub open spec fn other_blob(key: Seq<char>) -> spec_fn(BlobRow) -> bool {
    |row: BlobRow| row.key != key
}

/// The blobs that are not soft-deleted.
pub open spec fn live_blob() -> spec_fn(BlobRow) -> bool {
    |row: BlobRow| row.live()
}

/// Whether `sorted` holds the rows of `rows`, and no others, each once and the
/// oldest first. For rows with distinct timestamps there is one such sequence.
pub open spec fn oldest_first(sorted: Seq<UpdateRow>, rows: Seq<UpdateRow>) -> bool {
    &&& sorted.len() == rows.len()
    &&& forall|i: int, j: int|
        0 <= i < j < sorted.len() ==> (#[trigger] sorted[i]).timestamp < (
        #[trigger] sorted[j]).timestamp
    &&& forall|i: int| 0 <= i < rows.len() ==> sorted.contains(#[trigger] rows[i])
    &&& forall|i: int| 0 <= i < sorted.len() ==> rows.contains(#[trigger] sorted[i])
}

/// What `list_blobs` shows of a row.
pub open spec fn listing() -> spec_fn(BlobRow) -> ListedBlobView {
    |row: BlobRow| row.listed()
}

/// Whether `sorted` holds the blobs of `shown`, and no others, each once and
/// the newest first, blobs of one age in the order in which `shown` has them.
/// For blobs with distinct keys there is one such sequence.
pub open spec fn newest_first(sorted: Seq<ListedBlobView>, shown: Seq<ListedBlobView>) -> bool {
    &&& sorted.len() == shown.len()
    &&& forall|i: int, j: int|
        0 <= i < j < sorted.len() ==> (#[trigger] sorted[i]).created_at >= (
        #[trigger] sorted[j]).created_at
    &&& forall|i: int| 0 <= i < shown.len() ==> sorted.contains(#[trigger] shown[i])
    &&& forall|i: int| 0 <= i < sorted.len() ==> shown.contains(#[trigger] sorted[i])
    &&& forall|i: int, j: int|
        0 <= i < j < sorted.len() && (#[trigger] sorted[i]).created_at == (
        #[trigger] sorted[j]).created_at ==> position(shown, sorted[i].key) < position(
            shown,
            sorted[j].key,
        )
}

/// The name of the first migration step: the one by which a store of this
/// schema generation is known.
pub open spec fn sentinel_migration() -> Seq<char> {
    "init_v2"@
}

impl StoreState {
    /// The state of a store that was made and never connected.
    pub open spec fn fresh() -> StoreState {
        StoreState {
            migrations: Seq::empty(),
            closed: false,
            space_id: None,
            updates: Seq::empty(),
            snapshots: Seq::empty(),
            clocks: Seq::empty(),
            blobs: Seq::empty(),
            peer_clocks: Seq::empty(),
        }
    }

    /// What holds of every store: each table has distinct primary keys, a
    /// blob's recorded size is the length of its content, and the applied
    /// migrations are none or the known ones.
    pub open spec fn wf(self) -> bool {
        &&& distinct_keys(self.updates)
        &&& distinct_keys(self.snapshots)
        &&& distinct_keys(self.clocks)
        &&& distinct_keys(self.blobs)
        &&& distinct_keys(self.peer_clocks)
        &&& forall|i: int|
            0 <= i < self.blobs.len() ==> (#[trigger] self.blobs[i]).size
                == self.blobs[i].data.len()
        &&& (self.migrations.len() == 0 || self.migrations == seq![sentinel_migration()])
    }

    /// Whether statements can run: the schema is there and the store is open.
    pub open spec fn ready(self) -> bool {
        self.migrations.len() > 0 && !self.closed
    }

    /// Why no statement can run, where none can: the store was closed, or
    /// else it has no schema.
    pub open spec fn refusal(self) -> Option<Error> {
        if self.closed {
            Some(Error::Store(StoreError::Closed))
        } else if self.migrations.len() == 0 {
            Some(Error::Store(StoreError::NoSchema))
        } else {
            None
        }
    }

    /// The store after `connect`: the known migrations applied.
    pub open spec fn connect(self) -> StoreState {
        StoreState { migrations: seq![sentinel_migration()], ..self }
    }

    /// The store after `close`.
    pub open spec fn close(self) -> StoreState {
        StoreState { closed: true, ..self }
    }

    /// What `validate` answers: whether statements can run and the oldest
    /// applied migration is the sentinel.
    pub open spec fn validate(self) -> bool {
        self.ready() && self.migrations[0] == sentinel_migration()
    }

    // ----- updates and clocks -----

    /// The first of the timestamps `from`, `from + 1`, .., `from + retries`
    /// that no update of `doc_id` bears; none where all of them are taken.
    pub open spec fn first_free(self, doc_id: Seq<char>, from: int, retries: nat) -> Option<int>
        decreases retries,
    {
        if !has_key(self.updates, (doc_id, from)) {
            Some(from)
        } else if retries == 0 {
            None
        } else {
            self.first_free(doc_id, from + 1, (retries - 1) as nat)
        }
    }

    /// The timestamp that `push_update` gives an update of `doc_id` that
    /// arrives at `now`; none where the retries run out.
    pub open spec fn push_timestamp(self, doc_id: Seq<char>, now: int) -> Option<int> {
        self.first_free(doc_id, now, MAX_PUSH_RETRIES as nat)
    }

    /// The store after `push_update`: the update appended under its timestamp
    /// and the document's clock set to it; unchanged where the retries ran out.
    pub open spec fn push_update(self, doc_id: Seq<char>, bin: Seq<u8>, now: int) -> StoreState {
        match self.push_timestamp(doc_id, now) {
            Some(timestamp) => StoreState {
                updates: self.updates.push(UpdateRow { doc_id, timestamp, bin }),
                clocks: upsert(self.clocks, ClockRow { doc_id, timestamp }),
                ..self
            },
            None => self,
        }
    }

    /// What `push_update` leaves behind and answers for an update that
    /// arrives at `now`: the failure and the store as it was where no
    /// statement can run; else the store after the push, with the timestamp
    /// given, or with a conflict where the retries ran out.
    pub open spec fn push_outcome(
        self,
        doc_id: Seq<char>,
        bin: Seq<u8>,
        now: int,
        after: StoreState,
        result: Result<i64, Error>,
    ) -> bool {
        match self.refusal() {
            Some(refusal) => result == Err::<i64, Error>(refusal) && after == self,
            None => after == self.push_update(doc_id, bin, now) && (match self.push_timestamp(
                doc_id,
                now,
            ) {
                Some(timestamp) => result is Ok && result->Ok_0 == timestamp,
                None => result == Err::<i64, Error>(Error::Store(StoreError::Conflict)),
            }),
        }
    }

    /// The update log of one document, in row order.
    pub open spec fn doc_updates(self, doc_id: Seq<char>) -> Seq<UpdateRow> {
        self.updates.filter(of_doc(doc_id))
    }

    /// The store after `mark_updates_merged`.
    pub open spec fn mark_updates_merged(self, doc_id: Seq<char>, timestamps: Seq<int>) -> StoreState {
        StoreState { updates: self.updates.filter(not_merged(doc_id, timestamps)), ..self }
    }

    /// How many rows `mark_updates_merged` removes.
    pub open spec fn merged_count(self, doc_id: Seq<char>, timestamps: Seq<int>) -> int {
        self.updates.len() - self.updates.filter(not_merged(doc_id, timestamps)).len()
    }

    /// The local clock of a document.
    pub open spec fn doc_clock(self, doc_id: Seq<char>) -> Option<ClockRow> {
        lookup(self.clocks, doc_id)
    }

    /// The local clocks after the cursor, in row order.
    pub open spec fn doc_clocks(self, after: Option<int>) -> Seq<ClockRow> {
        self.clocks.filter(changed_since(after))
    }

    /// The store after `delete_doc`: the document's updates, snapshot and
    /// clock removed; its peer markers kept.
    pub open spec fn delete_doc(self, doc_id: Seq<char>) -> StoreState {
        StoreState {
            updates: self.updates.filter(other_update(doc_id)),
            snapshots: self.snapshots.filter(other_record(doc_id)),
            clocks: self.clocks.filter(other_clock(doc_id)),
            ..self
        }
    }

    // ----- snapshots -----

    /// The snapshot of a document.
    pub open spec fn doc_snapshot(self, doc_id: Seq<char>) -> Option<RecordRow> {
        lookup(self.snapshots, doc_id)
    }

    /// Whether `set_doc_snapshot` takes effect: the document has no snapshot
    /// yet, or one that is strictly older.
    pub open spec fn snapshot_applies(self, snapshot: RecordRow) -> bool {
        match self.doc_snapshot(snapshot.doc_id) {
            Some(stored) => stored.timestamp < snapshot.timestamp,
            None => true,
        }
    }

    /// The store after `set_doc_snapshot`.
    pub open spec fn set_doc_snapshot(self, snapshot: RecordRow) -> StoreState {
        if self.snapshot_applies(snapshot) {
            StoreState { snapshots: upsert(self.snapshots, snapshot), ..self }
        } else {
            self
        }
    }

    // ----- the workspace's identity -----

    /// Whether giving the rows of document `from` to document `to` would put
    /// two rows under one primary key in some table.
    pub open spec fn relabel_collides(self, from: Seq<char>, to: Seq<char>) -> bool {
        ||| collides(self.updates, from, to)
        ||| collides(self.snapshots, from, to)
        ||| collides(self.clocks, from, to)
        ||| collides(self.peer_clocks, from, to)
    }

    /// Whether `set_space_id` fails: the store has another identity, and the
    /// rows of the document named after it cannot all be renamed.
    pub open spec fn space_id_conflicts(self, space_id: Seq<char>) -> bool {
        match self.space_id {
            Some(current) => current != space_id && self.relabel_collides(current, space_id),
            None => false,
        }
    }

    /// The store after `set_space_id`: the identity recorded, and, where the
    /// store had another one, every row of the document named after the old
    /// identity given to the document named after the new one.
    pub open spec fn set_space_id(self, space_id: Seq<char>) -> StoreState {
        match self.space_id {
            Some(current) => if current == space_id || self.relabel_collides(current, space_id) {
                self
            } else {
                StoreState {
                    space_id: Some(space_id),
                    updates: relabel(self.updates, current, space_id),
                    snapshots: relabel(self.snapshots, current, space_id),
                    clocks: relabel(self.clocks, current, space_id),
                    peer_clocks: relabel(self.peer_clocks, current, space_id),
                    ..self
                }
            },
            None => StoreState { space_id: Some(space_id), ..self },
        }
    }

    // ----- peer markers -----

    /// One marker of a document with a peer.
    pub open spec fn peer_clock(self, peer: Seq<char>, doc_id: Seq<char>, which: Marker) -> Option<
        ClockRow,
    > {
        match lookup(self.peer_clocks, (peer, doc_id)) {
            Some(row) => Some(row.shown(which)),
            None => None,
        }
    }

    /// One marker of every document with a peer, in row order.
    pub open spec fn peer_clocks_of(self, peer: Seq<char>, which: Marker) -> Seq<ClockRow> {
        self.peer_clocks.filter(of_peer(peer)).map_values(show_marker(which))
    }

    /// The store after a marker's setter: a first write for `(peer, doc_id)`
    /// makes the row; a later one moves the marker only strictly forward.
    pub open spec fn set_peer_clock(
        self,
        peer: Seq<char>,
        doc_id: Seq<char>,
        which: Marker,
        clock: int,
    ) -> StoreState {
        match lookup(self.peer_clocks, (peer, doc_id)) {
            Some(row) => if row.marker(which) < clock {
                StoreState {
                    peer_clocks: upsert(self.peer_clocks, row.with_marker(which, clock)),
                    ..self
                }
            } else {
                self
            },
            None => StoreState {
                peer_clocks: self.peer_clocks.push(PeerClockRow::fresh(peer, doc_id, which, clock)),
                ..self
            },
        }
    }

    /// The store after `clear_clocks`: no peer marker left.
    pub open spec fn clear_clocks(self) -> StoreState {
        StoreState { peer_clocks: Seq::empty(), ..self }
    }

    // ----- blobs -----

    /// What `get_blob` finds: the row under `key`, unless it is soft-deleted.
    pub open spec fn get_blob(self, key: Seq<char>) -> Option<BlobView> {
        match lookup(self.blobs, key) {
            Some(row) => if row.live() {
                Some(row.shown())
            } else {
                None
            },
            None => None,
        }
    }

    /// The store after `set_blob` at time `now`: a new row, or the row under
    /// the same key with its content, type and size replaced, its deletion
    /// undone and its creation time kept.
    pub open spec fn set_blob(self, blob: SetBlobRow, now: int) -> StoreState {
        let created_at = match lookup(self.blobs, blob.key) {
            Some(row) => row.created_at,
            None => now,
        };
        StoreState {
            blobs: upsert(
                self.blobs,
                BlobRow {
                    key: blob.key,
                    data: blob.data,
                    mime: blob.mime,
                    size: blob.data.len() as int,
                    created_at,
                    deleted_at: None,
                },
            ),
            ..self
        }
    }

    /// The store after `delete_blob` at time `now`: the row removed, or, for a
    /// soft delete, marked as deleted at `now`.
    pub open spec fn delete_blob(self, key: Seq<char>, permanently: bool, now: int) -> StoreState {
        if permanently {
            StoreState { blobs: self.blobs.filter(other_blob(key)), ..self }
        } else {
            match lookup(self.blobs, key) {
                Some(row) => StoreState {
                    blobs: upsert(self.blobs, BlobRow { deleted_at: Some(now), ..row }),
                    ..self
                },
                None => self,
            }
        }
    }

    /// The store after `release_blobs`: every soft-deleted row removed.
    pub open spec fn release_blobs(self) -> StoreState {
        StoreState { blobs: self.blobs.filter(live_blob()), ..self }
    }

    /// The blobs that `list_blobs` shows, in row order.
    pub open spec fn live_blobs(self) -> Seq<ListedBlobView> {
        self.blobs.filter(live_blob()).map_values(listing())
    }

    /// What `set_blob` and `delete_blob` leave behind at time `now`, and what
    /// they answer: the failure and the store as it was where no statement can
    /// run, else success and `after`.
    pub open spec fn write_outcome(
        self,
        wanted: StoreState,
        after: StoreState,
        result: Result<(), Error>,
    ) -> bool {
        match self.refusal() {
            Some(refusal) => result == Err::<(), Error>(refusal) && after == self,
            None => result is Ok && after == wanted,
        }
    }
}

} // verus!
