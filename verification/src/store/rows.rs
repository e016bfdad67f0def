//! The rows of the six tables, and the values that the engine hands out.
//!
//! Every timestamp is a count of milliseconds since the Unix epoch, held as an
//! `i64`. Each executable row type has a view: the same row over mathematical
//! sequences and integers, which is what the contracts speak of.
use vstd::prelude::*;

verus! {

/// One entry of a document's update log, as the contracts see it.
pub struct UpdateRow {
    pub doc_id: Seq<char>,
    pub timestamp: int,
    pub bin: Seq<u8>,
}

/// One incremental delta of a document.
#[derive(Debug)]
pub struct DocUpdate {
    pub doc_id: String,
    pub timestamp: i64,
    pub bin: Vec<u8>,
}

impl View for DocUpdate {
    type V = UpdateRow;

    open spec fn view(&self) -> UpdateRow {
        UpdateRow { doc_id: self.doc_id@, timestamp: self.timestamp as int, bin: self.bin@ }
    }
}

/// The materialized state of a document, as the contracts see it. `timestamp`
/// is the time of the last write that took effect.
pub struct RecordRow {
    pub doc_id: Seq<char>,
    pub bin: Seq<u8>,
    pub timestamp: int,
}

/// The latest materialized state of a document.
#[derive(Debug)]
pub struct DocRecord {
    pub doc_id: String,
    pub bin: Vec<u8>,
    pub timestamp: i64,
}

impl View for DocRecord {
    type V = RecordRow;

    open spec fn view(&self) -> RecordRow {
        RecordRow { doc_id: self.doc_id@, bin: self.bin@, timestamp: self.timestamp as int }
    }
}

/// A document and a point in time, as the contracts see it.
pub struct ClockRow {
    pub doc_id: Seq<char>,
    pub timestamp: int,
}

/// A document and a point in time: when it was last touched locally, or how
/// far one of a peer's three markers has come.
#[derive(Debug)]
pub struct DocClock {
    pub doc_id: String,
    pub timestamp: i64,
}

impl View for DocClock {
    type V = ClockRow;

    open spec fn view(&self) -> ClockRow {
        ClockRow { doc_id: self.doc_id@, timestamp: self.timestamp as int }
    }
}

/// A request to store a blob, as the contracts see it.
pub struct SetBlobRow {
    pub key: Seq<char>,
    pub data: Seq<u8>,
    pub mime: Seq<char>,
}

/// A request to store a blob under a key.
#[derive(Debug)]
pub struct SetBlob {
    pub key: String,
    pub data: Vec<u8>,
    pub mime: String,
}

impl View for SetBlob {
    type V = SetBlobRow;

    open spec fn view(&self) -> SetBlobRow {
        SetBlobRow { key: self.key@, data: self.data@, mime: self.mime@ }
    }
}

/// A row of the blob table, as the contracts see it. A row whose `deleted_at`
/// is set is soft-deleted: it is still stored, and no read returns it.
pub struct BlobRow {
    pub key: Seq<char>,
    pub data: Seq<u8>,
    pub mime: Seq<char>,
    pub size: int,
    pub created_at: int,
    pub deleted_at: Option<int>,
}

impl BlobRow {
    /// Whether reads return this row.
    pub open spec fn live(self) -> bool {
        self.deleted_at is None
    }

    /// What `get_blob` hands out for this row.
    pub open spec fn shown(self) -> BlobView {
        BlobView {
            key: self.key,
            data: self.data,
            mime: self.mime,
            size: self.size,
            created_at: self.created_at,
        }
    }

    /// What `list_blobs` hands out for this row.
    pub open spec fn listed(self) -> ListedBlobView {
        ListedBlobView {
            key: self.key,
            size: self.size,
            mime: self.mime,
            created_at: self.created_at,
        }
    }
}

/// A row of the blob table.
#[derive(Debug)]
pub struct BlobEntry {
    pub key: String,
    pub data: Vec<u8>,
    pub mime: String,
    pub size: i64,
    pub created_at: i64,
    pub deleted_at: Option<i64>,
}

impl View for BlobEntry {
    type V = BlobRow;

    open spec fn view(&self) -> BlobRow {
        BlobRow {
            key: self.key@,
            data: self.data@,
            mime: self.mime@,
            size: self.size as int,
            created_at: self.created_at as int,
            deleted_at: match self.deleted_at {
                Some(t) => Some(t as int),
                None => None,
            },
        }
    }
}

/// A stored blob with its content, as the contracts see it.
pub struct BlobView {
    pub key: Seq<char>,
    pub data: Seq<u8>,
    pub mime: Seq<char>,
    pub size: int,
    pub created_at: int,
}

/// A stored blob with its content.
#[derive(Debug)]
pub struct Blob {
    pub key: String,
    pub data: Vec<u8>,
    pub mime: String,
    pub size: i64,
    pub created_at: i64,
}

impl View for Blob {
    type V = BlobView;

    open spec fn view(&self) -> BlobView {
        BlobView {
            key: self.key@,
            data: self.data@,
            mime: self.mime@,
            size: self.size as int,
            created_at: self.created_at as int,
        }
    }
}

/// A stored blob without its content, as the contracts see it.
pub struct ListedBlobView {
    pub key: Seq<char>,
    pub size: int,
    pub mime: Seq<char>,
    pub created_at: int,
}

/// A stored blob without its content.
#[derive(Debug)]
pub struct ListedBlob {
    pub key: String,
    pub size: i64,
    pub mime: String,
    pub created_at: i64,
}

impl View for ListedBlob {
    type V = ListedBlobView;

    open spec fn view(&self) -> ListedBlobView {
        ListedBlobView {
            key: self.key@,
            size: self.size as int,
            mime: self.mime@,
            created_at: self.created_at as int,
        }
    }
}

/// The three progress markers of one document with one peer, as the contracts
/// see them.
pub struct PeerClockRow {
    pub peer: Seq<char>,
    pub doc_id: Seq<char>,
    pub remote_clock: int,
    pub pulled_remote_clock: int,
    pub pushed_clock: int,
}

/// The three progress markers of one document with one peer. A marker that was
/// never set is `NEVER`.
#[derive(Debug)]
pub struct PeerClock {
    pub peer: String,
    pub doc_id: String,
    pub remote_clock: i64,
    pub pulled_remote_clock: i64,
    pub pushed_clock: i64,
}

impl View for PeerClock {
    type V = PeerClockRow;

    open spec fn view(&self) -> PeerClockRow {
        PeerClockRow {
            peer: self.peer@,
            doc_id: self.doc_id@,
            remote_clock: self.remote_clock as int,
            pulled_remote_clock: self.pulled_remote_clock as int,
            pushed_clock: self.pushed_clock as int,
        }
    }
}

/// A copy of a byte string.
pub fn copy_bytes(bytes: &Vec<u8>) -> (copy: Vec<u8>)
    ensures
        copy@ == bytes@,
{
    let copy = bytes.clone();
    assert(copy@ =~= bytes@);
    copy
}

impl Clone for DocUpdate {
    fn clone(&self) -> (copy: Self)
        ensures
            copy@ == self@,
    {
        DocUpdate {
            doc_id: self.doc_id.clone(),
            timestamp: self.timestamp,
            bin: copy_bytes(&self.bin),
        }
    }
}

impl Clone for DocRecord {
    fn clone(&self) -> (copy: Self)
        ensures
            copy@ == self@,
    {
        DocRecord {
            doc_id: self.doc_id.clone(),
            bin: copy_bytes(&self.bin),
            timestamp: self.timestamp,
        }
    }
}

impl Clone for DocClock {
    fn clone(&self) -> (copy: Self)
        ensures
            copy@ == self@,
    {
        DocClock { doc_id: self.doc_id.clone(), timestamp: self.timestamp }
    }
}

impl Clone for SetBlob {
    fn clone(&self) -> (copy: Self)
        ensures
            copy@ == self@,
    {
        SetBlob {
            key: self.key.clone(),
            data: copy_bytes(&self.data),
            mime: self.mime.clone(),
        }
    }
}

impl Clone for Blob {
    fn clone(&self) -> (copy: Self)
        ensures
            copy@ == self@,
    {
        Blob {
            key: self.key.clone(),
            data: copy_bytes(&self.data),
            mime: self.mime.clone(),
            size: self.size,
            created_at: self.created_at,
        }
    }
}

impl Clone for ListedBlob {
    fn clone(&self) -> (copy: Self)
        ensures
            copy@ == self@,
    {
        ListedBlob {
            key: self.key.clone(),
            size: self.size,
            mime: self.mime.clone(),
            created_at: self.created_at,
        }
    }
}

impl BlobEntry {
    /// This row as `get_blob` hands it out.
    pub fn to_blob(&self) -> (blob: Blob)
        ensures
            blob@ == self@.shown(),
    {
        Blob {
            key: self.key.clone(),
            data: copy_bytes(&self.data),
            mime: self.mime.clone(),
            size: self.size,
            created_at: self.created_at,
        }
    }

    /// This row as `list_blobs` hands it out.
    pub fn to_listed(&self) -> (blob: ListedBlob)
        ensures
            blob@ == self@.listed(),
    {
        ListedBlob {
            key: self.key.clone(),
            size: self.size,
            mime: self.mime.clone(),
            created_at: self.created_at,
        }
    }
}

impl PeerClock {
    /// The value of one marker.
    pub fn marker(&self, which: Marker) -> (clock: i64)
        ensures
            clock as int == self@.marker(which),
    {
        match which {
            Marker::Remote => self.remote_clock,
            Marker::PulledRemote => self.pulled_remote_clock,
            Marker::Pushed => self.pushed_clock,
        }
    }

    /// One marker of this row as a getter hands it out.
    pub fn to_clock(&self, which: Marker) -> (clock: DocClock)
        ensures
            clock@ == self@.shown(which),
    {
        DocClock { doc_id: self.doc_id.clone(), timestamp: self.marker(which) }
    }
}

/// The value of a peer marker that was never set: the epoch itself.
pub const NEVER: i64 = 0;

/// Which of a peer's three markers an operation reads or advances.
#[derive(Clone, Copy, Debug, PartialEq, Eq, Structural)]
pub enum Marker {
    /// The newest state that the peer has claimed to have.
    Remote,
    /// The newest state of the peer that was pulled and applied here.
    PulledRemote,
    /// The newest local state that was pushed to the peer.
    Pushed,
}

impl PeerClockRow {
    /// The value of one marker.
    pub open spec fn marker(self, which: Marker) -> int {
        match which {
            Marker::Remote => self.remote_clock,
            Marker::PulledRemote => self.pulled_remote_clock,
            Marker::Pushed => self.pushed_clock,
        }
    }

    /// This row with one marker replaced.
    pub open spec fn with_marker(self, which: Marker, clock: int) -> PeerClockRow {
        match which {
            Marker::Remote => PeerClockRow { remote_clock: clock, ..self },
            Marker::PulledRemote => PeerClockRow { pulled_remote_clock: clock, ..self },
            Marker::Pushed => PeerClockRow { pushed_clock: clock, ..self },
        }
    }

    /// The row that the first write for `(peer, doc_id)` creates: the written
    /// marker at `clock`, the other two never set.
    pub open spec fn fresh(
        peer: Seq<char>,
        doc_id: Seq<char>,
        which: Marker,
        clock: int,
    ) -> PeerClockRow {
        PeerClockRow {
            peer,
            doc_id,
            remote_clock: NEVER as int,
            pulled_remote_clock: NEVER as int,
            pushed_clock: NEVER as int,
        }.with_marker(which, clock)
    }

    /// What a getter for one marker hands out for this row.
    pub open spec fn shown(self, which: Marker) -> ClockRow {
        ClockRow { doc_id: self.doc_id, timestamp: self.marker(which) }
    }
}

} // verus!
