//! The storage engine of one workspace: its tables, held as rows in row
//! order, and the life of its connection.
use vstd::prelude::*;
use super::error::{Error, StoreError};
use super::rows::{BlobEntry, DocClock, DocRecord, DocUpdate, PeerClock};
use super::schema::INIT_V2;
use super::state::{sentinel_migration, StoreState};
use super::table::views;

pub mod blob;
pub mod doc;
pub mod sync;

verus! {

/// The path that names a store held in memory only.
pub const MEMORY_PATH: &'static str = ":memory:";

/// How many connections a store on disk is served by.
pub const FILE_CONNECTIONS: u32 = 4;

/// How many connections a store in memory is served by: its content lives and
/// dies with one connection.
pub const MEMORY_CONNECTIONS: u32 = 1;

/// The storage engine of one workspace.
#[derive(Debug)]
pub struct SqliteDocStorage {
    path: String,
    migrations: Vec<String>,
    closed: bool,
    space_id: Option<String>,
    updates: Vec<DocUpdate>,
    snapshots: Vec<DocRecord>,
    clocks: Vec<DocClock>,
    blobs: Vec<BlobEntry>,
    peer_clocks: Vec<PeerClock>,
}

impl View for SqliteDocStorage {
    type V = StoreState;

    closed spec fn view(&self) -> StoreState {
        StoreState {
            migrations: views(self.migrations@),
            closed: self.closed,
            space_id: match self.space_id {
                Some(id) => Some(id@),
                None => None,
            },
            updates: views(self.updates@),
            snapshots: views(self.snapshots@),
            clocks: views(self.clocks@),
            blobs: views(self.blobs@),
            peer_clocks: views(self.peer_clocks@),
        }
    }
}

impl SqliteDocStorage {
    /// The path of the file that backs this store.
    pub closed spec fn spec_path(&self) -> Seq<char> {
        self.path@
    }

    /// What holds of every engine: its state is well formed.
    pub open spec fn wf(&self) -> bool {
        self@.wf()
    }

    /// An engine for the store at `path`. Nothing is read or written until
    /// `connect`.
    pub fn new(path: String) -> (storage: Self)
        ensures
            storage.wf(),
            storage@ == StoreState::fresh(),
            storage.spec_path() == path@,
    {
        let storage = SqliteDocStorage {
            path,
            migrations: Vec::new(),
            closed: false,
            space_id: None,
            updates: Vec::new(),
            snapshots: Vec::new(),
            clocks: Vec::new(),
            blobs: Vec::new(),
            peer_clocks: Vec::new(),
        };
        proof {
            assert(storage@.migrations =~= Seq::empty());
            assert(storage@.updates =~= Seq::empty());
            assert(storage@.snapshots =~= Seq::empty());
            assert(storage@.clocks =~= Seq::empty());
            assert(storage@.blobs =~= Seq::empty());
            assert(storage@.peer_clocks =~= Seq::empty());
        }
        storage
    }

    /// Whether the store was closed.
    pub fn is_closed(&self) -> (closed: bool)
        ensures
            closed == self@.closed,
    {
        self.closed
    }

    /// The path of the file that backs this store.
    pub fn path(&self) -> (path: &String)
        ensures
            path@ == self.spec_path(),
    {
        &self.path
    }

    /// Why no statement can run, where none can.
    pub(crate) fn refusal(&self) -> (refusal: Option<Error>)
        ensures
            refusal == self@.refusal(),
    {
        if self.closed {
            Some(Error::Store(StoreError::Closed))
        } else if self.migrations.len() == 0 {
            Some(Error::Store(StoreError::NoSchema))
        } else {
            None
        }
    }

    /// Makes the store ready: applies the migration steps that were not
    /// applied yet. Fails on a closed store, and only there.
    pub fn connect(&mut self) -> (result: Result<(), Error>)
        requires
            old(self).wf(),
        ensures
            final(self).wf(),
            final(self).spec_path() == old(self).spec_path(),
            old(self)@.closed ==> result == Err::<(), Error>(Error::Store(StoreError::Closed))
                && final(self)@ == old(self)@,
            !old(self)@.closed ==> result is Ok && final(self)@ == old(self)@.connect(),
    {
        if self.closed {
            return Err(Error::Store(StoreError::Closed));
        }
        if self.migrations.len() == 0 {
            let name = String::from_str(INIT_V2);
            self.migrations.push(name);
        }
        proof {
            assert(self@.migrations =~= seq![sentinel_migration()]);
        }
        Ok(())
    }

    /// Closes the store. Every later statement is refused.
    pub fn close(&mut self)
        requires
            old(self).wf(),
        ensures
            final(self).wf(),
            final(self).spec_path() == old(self).spec_path(),
            final(self)@ == old(self)@.close(),
    {
        self.closed = true;
    }

    /// Whether the store is ready and belongs to this schema generation: the
    /// oldest migration step applied to it is the sentinel.
    pub fn validate(&self) -> (result: Result<bool, Error>)
        requires
            self.wf(),
        ensures
            result == Ok::<bool, Error>(self@.validate()),
    {
        if self.closed || self.migrations.len() == 0 {
            return Ok(false);
        }
        let sentinel = String::from_str(INIT_V2);
        proof {
            assert(self@.migrations[0] == self.migrations@[0]@);
        }
        Ok(self.migrations[0] == sentinel)
    }

    /// Asks for everything written so far to be made durable. The rows are
    /// untouched. Fails on a closed store, and only there.
    pub fn checkpoint(&self) -> (result: Result<(), Error>)
        ensures
            result == (if self@.closed {
                Err::<(), Error>(Error::Store(StoreError::Closed))
            } else {
                Ok::<(), Error>(())
            }),
    {
        if self.closed {
            Err(Error::Store(StoreError::Closed))
        } else {
            Ok(())
        }
    }
}

/// How the store at a path is to be opened.
#[derive(Clone, Copy, Debug, PartialEq, Eq, Structural)]
pub struct ConnectionPlan {
    /// The connections that are opened at once and kept.
    pub min_connections: u32,
    /// The most connections that serve the store at one time.
    pub max_connections: u32,
    /// Whether a connection may be retired for being idle or old.
    pub retire_connections: bool,
    /// Whether writes go through a write-ahead log.
    pub write_ahead_log: bool,
}

/// How the store at `path` is to be opened: a store in memory through one
/// connection that is never retired, a store on disk through up to
/// `FILE_CONNECTIONS` with a write-ahead log.
pub fn connection_plan(path: &str) -> (plan: ConnectionPlan)
    ensures
        plan == (if path@ == MEMORY_PATH@ {
            ConnectionPlan {
                min_connections: MEMORY_CONNECTIONS,
                max_connections: MEMORY_CONNECTIONS,
                retire_connections: false,
                write_ahead_log: false,
            }
        } else {
            ConnectionPlan {
                min_connections: 0,
                max_connections: FILE_CONNECTIONS,
                retire_connections: true,
                write_ahead_log: true,
            }
        }),
{
    let given = String::from_str(path);
    let memory = String::from_str(MEMORY_PATH);
    if given == memory {
        ConnectionPlan {
            min_connections: MEMORY_CONNECTIONS,
            max_connections: MEMORY_CONNECTIONS,
            retire_connections: false,
            write_ahead_log: false,
        }
    } else {
        ConnectionPlan {
            min_connections: 0,
            max_connections: FILE_CONNECTIONS,
            retire_connections: true,
            write_ahead_log: true,
        }
    }
}

/// A store that is opened for one errand and closed after it.
#[derive(Debug)]
pub struct DocStorage {
    storage: SqliteDocStorage,
}

impl View for DocStorage {
    type V = StoreState;

    closed spec fn view(&self) -> StoreState {
        self.storage@
    }
}

impl DocStorage {
    /// What holds of every such store: its state is well formed.
    pub open spec fn wf(&self) -> bool {
        self@.wf()
    }

    /// The path of the file that backs this store.
    pub closed spec fn spec_path(&self) -> Seq<char> {
        self.storage.spec_path()
    }

    /// The store at `path`, not opened yet.
    pub fn new(path: String) -> (storage: Self)
        ensures
            storage.wf(),
            storage@ == StoreState::fresh(),
            storage.spec_path() == path@,
    {
        DocStorage { storage: SqliteDocStorage::new(path) }
    }

    /// The path of the file that backs this store.
    pub fn path(&self) -> (path: &String)
        ensures
            path@ == self.spec_path(),
    {
        self.storage.path()
    }

    /// Whether the store is ready and belongs to this schema generation.
    pub fn validate(&self) -> (result: Result<bool, Error>)
        requires
            self.wf(),
        ensures
            result == Ok::<bool, Error>(self@.validate()),
    {
        self.storage.validate()
    }

    /// Opens the store, records the workspace that it belongs to, and closes
    /// it. Where the store cannot be opened, or the workspace cannot be
    /// recorded, the call fails at once, and the store stays as far as it
    /// came: open, where it was opened.
    pub fn set_space_id(&mut self, space_id: String) -> (result: Result<(), Error>)
        requires
            old(self).wf(),
        ensures
            final(self).wf(),
            final(self).spec_path() == old(self).spec_path(),
            if old(self)@.closed {
                result == Err::<(), Error>(Error::Store(StoreError::Closed)) && final(self)@ == old(
                    self,
                )@
            } else if old(self)@.connect().space_id_conflicts(space_id@) {
                result == Err::<(), Error>(Error::Store(StoreError::Conflict)) && final(self)@
                    == old(self)@.connect()
            } else {
                result is Ok && final(self)@ == old(self)@.connect().set_space_id(space_id@).close()
            },
    {
        match self.storage.connect() {
            Ok(()) => {},
            Err(error) => {
                return Err(error);
            },
        }
        match self.storage.set_space_id(space_id) {
            Ok(()) => {},
            Err(error) => {
                return Err(error);
            },
        }
        self.storage.close();
        Ok(())
    }
}

} // verus!
