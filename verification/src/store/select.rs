//! The tests by which the engine picks rows out of its tables.
use vstd::prelude::*;
use super::keyed::{with_key, Keyed};
use super::rows::{BlobEntry, DocClock, DocRecord, DocUpdate, PeerClock};
use super::state::{live_blob, not_merged, other_blob, other_clock, other_record, other_update};
use super::table::RowTest;

verus! {

/// Timestamps as the contracts see them.
pub open spec fn instants(timestamps: Seq<i64>) -> Seq<int> {
    timestamps.map_values(|t: i64| t as int)
}

/// An optional timestamp as the contracts see it.
pub open spec fn instant(timestamp: Option<i64>) -> Option<int> {
    match timestamp {
        Some(t) => Some(t as int),
        None => None,
    }
}

/// Whether `timestamps` holds `wanted`.
pub(crate) fn holds_instant(timestamps: &Vec<i64>, wanted: i64) -> (held: bool)
    ensures
        held == instants(timestamps@).contains(wanted as int),
{
    let mut i: usize = 0;
    while i < timestamps.len()
        invariant
            i <= timestamps.len(),
            forall|j: int| 0 <= j < i ==> timestamps[j] != wanted,
        decreases timestamps.len() - i,
    {
        if timestamps[i] == wanted {
            assert(instants(timestamps@)[i as int] == wanted as int);
            return true;
        }
        i += 1;
    }
    assert forall|j: int| 0 <= j < instants(timestamps@).len() implies instants(timestamps@)[j]
        != wanted as int by {
        assert(timestamps[j] != wanted);
    }
    false
}

/// Passes the rows of every document but one.
pub struct OtherDoc<'a> {
    pub doc_id: &'a String,
}

impl<'a> RowTest<DocUpdate> for OtherDoc<'a> {
    open spec fn passing(&self) -> spec_fn(<DocUpdate as View>::V) -> bool {
        other_update(self.doc_id@)
    }

    fn passes(&self, row: &DocUpdate) -> (answer: bool) {
        row.doc_id != *self.doc_id
    }
}

impl<'a> RowTest<DocRecord> for OtherDoc<'a> {
    open spec fn passing(&self) -> spec_fn(<DocRecord as View>::V) -> bool {
        other_record(self.doc_id@)
    }

    fn passes(&self, row: &DocRecord) -> (answer: bool) {
        row.doc_id != *self.doc_id
    }
}

impl<'a> RowTest<DocClock> for OtherDoc<'a> {
    open spec fn passing(&self) -> spec_fn(<DocClock as View>::V) -> bool {
        other_clock(self.doc_id@)
    }

    fn passes(&self, row: &DocClock) -> (answer: bool) {
        row.doc_id != *self.doc_id
    }
}

/// Passes the row of one document.
pub struct ForDoc<'a> {
    pub doc_id: &'a String,
}

impl<'a> RowTest<DocRecord> for ForDoc<'a> {
    open spec fn passing(&self) -> spec_fn(<DocRecord as View>::V) -> bool {
        with_key(self.doc_id@)
    }

    fn passes(&self, row: &DocRecord) -> (answer: bool) {
        row.doc_id == *self.doc_id
    }
}

impl<'a> RowTest<DocClock> for ForDoc<'a> {
    open spec fn passing(&self) -> spec_fn(<DocClock as View>::V) -> bool {
        with_key(self.doc_id@)
    }

    fn passes(&self, row: &DocClock) -> (answer: bool) {
        row.doc_id == *self.doc_id
    }
}

/// Passes the update of one document at one time.
pub struct UpdateAt<'a> {
    pub doc_id: &'a String,
    pub timestamp: i64,
}

impl<'a> RowTest<DocUpdate> for UpdateAt<'a> {
    open spec fn passing(&self) -> spec_fn(<DocUpdate as View>::V) -> bool {
        with_key((self.doc_id@, self.timestamp as int))
    }

    fn passes(&self, row: &DocUpdate) -> (answer: bool) {
        row.doc_id == *self.doc_id && row.timestamp == self.timestamp
    }
}

/// Passes every update but those of one document at the given times.
pub struct NotMerged<'a> {
    pub doc_id: &'a String,
    pub timestamps: &'a Vec<i64>,
}

impl<'a> RowTest<DocUpdate> for NotMerged<'a> {
    open spec fn passing(&self) -> spec_fn(<DocUpdate as View>::V) -> bool {
        not_merged(self.doc_id@, instants(self.timestamps@))
    }

    fn passes(&self, row: &DocUpdate) -> (answer: bool) {
        !(row.doc_id == *self.doc_id && holds_instant(self.timestamps, row.timestamp))
    }
}

/// Passes the markers of one document with one peer.
pub struct ForPeerDoc<'a> {
    pub peer: &'a String,
    pub doc_id: &'a String,
}

impl<'a> RowTest<PeerClock> for ForPeerDoc<'a> {
    open spec fn passing(&self) -> spec_fn(<PeerClock as View>::V) -> bool {
        with_key((self.peer@, self.doc_id@))
    }

    fn passes(&self, row: &PeerClock) -> (answer: bool) {
        row.peer == *self.peer && row.doc_id == *self.doc_id
    }
}

/// Passes the blob under one key.
pub struct ForKey<'a> {
    pub key: &'a String,
}

impl<'a> RowTest<BlobEntry> for ForKey<'a> {
    open spec fn passing(&self) -> spec_fn(<BlobEntry as View>::V) -> bool {
        with_key(self.key@)
    }

    fn passes(&self, row: &BlobEntry) -> (answer: bool) {
        row.key == *self.key
    }
}

/// Passes the blobs under every key but one.
pub struct OtherKey<'a> {
    pub key: &'a String,
}

impl<'a> RowTest<BlobEntry> for OtherKey<'a> {
    open spec fn passing(&self) -> spec_fn(<BlobEntry as View>::V) -> bool {
        other_blob(self.key@)
    }

    fn passes(&self, row: &BlobEntry) -> (answer: bool) {
        row.key != *self.key
    }
}

/// Passes the blobs that are not soft-deleted.
pub struct Live {}

impl RowTest<BlobEntry> for Live {
    open spec fn passing(&self) -> spec_fn(<BlobEntry as View>::V) -> bool {
        live_blob()
    }

    fn passes(&self, row: &BlobEntry) -> (answer: bool) {
        row.deleted_at.is_none()
    }
}

} // verus!
