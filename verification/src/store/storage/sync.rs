//! The three progress markers that a store keeps for each document with each
//! peer.
use vstd::prelude::*;
use crate::store::error::Error;
use crate::store::keyed::{lemma_upsert, upsert, Keyed};
use crate::store::rows::{DocClock, Marker, PeerClock, PeerClockRow, NEVER};
use crate::store::select::ForPeerDoc;
use crate::store::state::{of_peer, show_marker, StoreState};
use crate::store::storage::SqliteDocStorage;
use crate::store::table::{find_key, lemma_filter_step, view_of, views};

verus! {

impl PeerClock {
    /// The row that the first write for a document with a peer creates.
    fn fresh(peer: String, doc_id: String, which: Marker, clock: i64) -> (row: PeerClock)
        ensures
            row@ == PeerClockRow::fresh(peer@, doc_id@, which, clock as int),
    {
        let mut row = PeerClock {
            peer,
            doc_id,
            remote_clock: NEVER,
            pulled_remote_clock: NEVER,
            pushed_clock: NEVER,
        };
        row.set_marker(which, clock);
        row
    }

    /// Replaces one marker.
    fn set_marker(&mut self, which: Marker, clock: i64)
        ensures
            final(self)@ == old(self)@.with_marker(which, clock as int),
    {
        match which {
            Marker::Remote => {
                self.remote_clock = clock;
            },
            Marker::PulledRemote => {
                self.pulled_remote_clock = clock;
            },
            Marker::Pushed => {
                self.pushed_clock = clock;
            },
        }
    }
}

impl SqliteDocStorage {
    /// One marker of every document with `peer`, in row order. Fails where no
    /// statement can run, and only there.
    pub fn get_peer_clocks(&self, peer: String, which: Marker) -> (result: Result<
        Vec<DocClock>,
        Error,
    >)
        requires
            self.wf(),
        ensures
            match self@.refusal() {
                Some(refusal) => result == Err::<Vec<DocClock>, Error>(refusal),
                None => result is Ok && views(result->Ok_0@) == self@.peer_clocks_of(peer@, which),
            },
    {
        if let Some(refusal) = self.refusal() {
            return Err(refusal);
        }
        let ghost table = self@.peer_clocks;
        let ghost mine = of_peer(peer@);
        let ghost show = show_marker(which);
        let mut clocks: Vec<DocClock> = Vec::new();
        let mut i: usize = 0;
        proof {
            reveal(Seq::filter);
            assert(views(clocks@) =~= table.take(0).filter(mine).map_values(show));
        }
        while i < self.peer_clocks.len()
            invariant
                i <= self.peer_clocks.len(),
                table.len() == self.peer_clocks.len(),
                forall|k: int| 0 <= k < table.len() ==> #[trigger] table[k] == self.peer_clocks[k]@,
                mine == of_peer(peer@),
                show == show_marker(which),
                views(clocks@) == table.take(i as int).filter(mine).map_values(show),
            decreases self.peer_clocks.len() - i,
        {
            proof {
                lemma_filter_step(table, mine, i as int);
            }
            if self.peer_clocks[i].peer == peer {
                let ghost earlier = views(clocks@);
                clocks.push(self.peer_clocks[i].to_clock(which));
                proof {
                    assert(views(clocks@) =~= earlier.push(table[i as int].shown(which)));
                    assert(table.take(i as int).filter(mine).push(table[i as int]).map_values(show)
                        =~= earlier.push(table[i as int].shown(which)));
                }
            }
            i += 1;
        }
        proof {
            assert(table.take(i as int) =~= table);
        }
        Ok(clocks)
    }

    /// One marker of a document with a peer, if any marker was ever set for
    /// the two: a marker that was not set itself then shows as `NEVER`. Fails
    /// where no statement can run, and only there.
    pub fn get_peer_clock(&self, peer: String, doc_id: String, which: Marker) -> (result: Result<
        Option<DocClock>,
        Error,
    >)
        requires
            self.wf(),
        ensures
            match self@.refusal() {
                Some(refusal) => result == Err::<Option<DocClock>, Error>(refusal),
                None => result is Ok && view_of(result->Ok_0) == self@.peer_clock(
                    peer@,
                    doc_id@,
                    which,
                ),
            },
    {
        if let Some(refusal) = self.refusal() {
            return Err(refusal);
        }
        let wanted = ForPeerDoc { peer: &peer, doc_id: &doc_id };
        match find_key(&self.peer_clocks, &wanted, Ghost((peer@, doc_id@))) {
            Some(i) => Ok(Some(self.peer_clocks[i].to_clock(which))),
            None => Ok(None),
        }
    }

    /// Moves one marker of a document with a peer forward to `clock`. The
    /// first write for the two makes their row, with the other markers at
    /// `NEVER`; after that a marker moves only to a strictly greater value,
    /// and any other write changes nothing. Fails where no statement can run,
    /// and only there.
    pub fn set_peer_clock(&mut self, peer: String, doc_id: String, which: Marker, clock: i64) -> (result:
        Result<(), Error>)
        requires
            old(self).wf(),
        ensures
            final(self).wf(),
            final(self).spec_path() == old(self).spec_path(),
            match old(self)@.refusal() {
                Some(refusal) => result == Err::<(), Error>(refusal) && final(self)@ == old(self)@,
                None => result is Ok && final(self)@ == old(self)@.set_peer_clock(
                    peer@,
                    doc_id@,
                    which,
                    clock as int,
                ),
            },
    {
        if let Some(refusal) = self.refusal() {
            return Err(refusal);
        }
        let ghost before = self@.peer_clocks;
        let stored = find_key(
            &self.peer_clocks,
            &ForPeerDoc { peer: &peer, doc_id: &doc_id },
            Ghost((peer@, doc_id@)),
        );
        match stored {
            Some(i) => {
                if self.peer_clocks[i].marker(which) < clock {
                    let ghost moved = before[i as int].with_marker(which, clock as int);
                    proof {
                        assert(moved.key() == before[i as int].key());
                        lemma_upsert(before, moved);
                    }
                    self.peer_clocks[i].set_marker(which, clock);
                    proof {
                        assert(self@.peer_clocks =~= before.update(i as int, moved));
                    }
                }
            },
            None => {
                let row = PeerClock::fresh(peer, doc_id, which, clock);
                proof {
                    lemma_upsert(before, row@);
                }
                self.peer_clocks.push(row);
                proof {
                    assert(self@.peer_clocks =~= before.push(
                        PeerClockRow::fresh(peer@, doc_id@, which, clock as int),
                    ));
                }
            },
        }
        Ok(())
    }

    /// The newest state of each document that `peer` has claimed to have.
    pub fn get_peer_remote_clocks(&self, peer: String) -> (result: Result<Vec<DocClock>, Error>)
        requires
            self.wf(),
        ensures
            match self@.refusal() {
                Some(refusal) => result == Err::<Vec<DocClock>, Error>(refusal),
                None => result is Ok && views(result->Ok_0@) == self@.peer_clocks_of(
                    peer@,
                    Marker::Remote,
                ),
            },
    {
        self.get_peer_clocks(peer, Marker::Remote)
    }

    /// The newest state of a document that `peer` has claimed to have.
    pub fn get_peer_remote_clock(&self, peer: String, doc_id: String) -> (result: Result<
        Option<DocClock>,
        Error,
    >)
        requires
            self.wf(),
        ensures
            match self@.refusal() {
                Some(refusal) => result == Err::<Option<DocClock>, Error>(refusal),
                None => result is Ok && view_of(result->Ok_0) == self@.peer_clock(
                    peer@,
                    doc_id@,
                    Marker::Remote,
                ),
            },
    {
        self.get_peer_clock(peer, doc_id, Marker::Remote)
    }

    /// Records that `peer` has claimed to have the state of a document at
    /// `clock`; see `set_peer_clock`.
    pub fn set_peer_remote_clock(&mut self, peer: String, doc_id: String, clock: i64) -> (result:
        Result<(), Error>)
        requires
            old(self).wf(),
        ensures
            final(self).wf(),
            final(self).spec_path() == old(self).spec_path(),
            match old(self)@.refusal() {
                Some(refusal) => result == Err::<(), Error>(refusal) && final(self)@ == old(self)@,
                None => result is Ok && final(self)@ == old(self)@.set_peer_clock(
                    peer@,
                    doc_id@,
                    Marker::Remote,
                    clock as int,
                ),
            },
    {
        self.set_peer_clock(peer, doc_id, Marker::Remote, clock)
    }

    /// The newest state of each document of `peer` that was pulled and applied
    /// here.
    pub fn get_peer_pulled_remote_clocks(&self, peer: String) -> (result: Result<
        Vec<DocClock>,
        Error,
    >)
        requires
            self.wf(),
        ensures
            match self@.refusal() {
                Some(refusal) => result == Err::<Vec<DocClock>, Error>(refusal),
                None => result is Ok && views(result->Ok_0@) == self@.peer_clocks_of(
                    peer@,
                    Marker::PulledRemote,
                ),
            },
    {
        self.get_peer_clocks(peer, Marker::PulledRemote)
    }

    /// The newest state of a document of `peer` that was pulled and applied
    /// here.
    pub fn get_peer_pulled_remote_clock(&self, peer: String, doc_id: String) -> (result: Result<
        Option<DocClock>,
        Error,
    >)
        requires
            self.wf(),
        ensures
            match self@.refusal() {
                Some(refusal) => result == Err::<Option<DocClock>, Error>(refusal),
                None => result is Ok && view_of(result->Ok_0) == self@.peer_clock(
                    peer@,
                    doc_id@,
                    Marker::PulledRemote,
                ),
            },
    {
        self.get_peer_clock(peer, doc_id, Marker::PulledRemote)
    }

    /// Records that the state of a document of `peer` at `clock` was pulled
    /// and applied here; see `set_peer_clock`.
    pub fn set_peer_pulled_remote_clock(&mut self, peer: String, doc_id: String, clock: i64) -> (result:
        Result<(), Error>)
        requires
            old(self).wf(),
        ensures
            final(self).wf(),
            final(self).spec_path() == old(self).spec_path(),
            match old(self)@.refusal() {
                Some(refusal) => result == Err::<(), Error>(refusal) && final(self)@ == old(self)@,
                None => result is Ok && final(self)@ == old(self)@.set_peer_clock(
                    peer@,
                    doc_id@,
                    Marker::PulledRemote,
                    clock as int,
                ),
            },
    {
        self.set_peer_clock(peer, doc_id, Marker::PulledRemote, clock)
    }

    /// The newest local state of each document that was pushed to `peer`.
    pub fn get_peer_pushed_clocks(&self, peer: String) -> (result: Result<Vec<DocClock>, Error>)
        requires
            self.wf(),
        ensures
            match self@.refusal() {
                Some(refusal) => result == Err::<Vec<DocClock>, Error>(refusal),
                None => result is Ok && views(result->Ok_0@) == self@.peer_clocks_of(
                    peer@,
                    Marker::Pushed,
                ),
            },
    {
        self.get_peer_clocks(peer, Marker::Pushed)
    }

    /// The newest local state of a document that was pushed to `peer`.
    pub fn get_peer_pushed_clock(&self, peer: String, doc_id: String) -> (result: Result<
        Option<DocClock>,
        Error,
    >)
        requires
            self.wf(),
        ensures
            match self@.refusal() {
                Some(refusal) => result == Err::<Option<DocClock>, Error>(refusal),
                None => result is Ok && view_of(result->Ok_0) == self@.peer_clock(
                    peer@,
                    doc_id@,
                    Marker::Pushed,
                ),
            },
    {
        self.get_peer_clock(peer, doc_id, Marker::Pushed)
    }

    /// Records that the local state of a document at `clock` was pushed to
    /// `peer`; see `set_peer_clock`.
    pub fn set_peer_pushed_clock(&mut self, peer: String, doc_id: String, clock: i64) -> (result:
        Result<(), Error>)
        requires
            old(self).wf(),
        ensures
            final(self).wf(),
            final(self).spec_path() == old(self).spec_path(),
            match old(self)@.refusal() {
                Some(refusal) => result == Err::<(), Error>(refusal) && final(self)@ == old(self)@,
                None => result is Ok && final(self)@ == old(self)@.set_peer_clock(
                    peer@,
                    doc_id@,
                    Marker::Pushed,
                    clock as int,
                ),
            },
    {
        self.set_peer_clock(peer, doc_id, Marker::Pushed, clock)
    }

    /// Forgets every marker of every peer. Fails where no statement can run,
    /// and only there.
    pub fn clear_clocks(&mut self) -> (result: Result<(), Error>)
        requires
            old(self).wf(),
        ensures
            final(self).wf(),
            final(self).spec_path() == old(self).spec_path(),
            match old(self)@.refusal() {
                Some(refusal) => result == Err::<(), Error>(refusal) && final(self)@ == old(self)@,
                None => result is Ok && final(self)@ == old(self)@.clear_clocks(),
            },
    {
        if let Some(refusal) = self.refusal() {
            return Err(refusal);
        }
        self.peer_clocks.clear();
        proof {
            assert(self@.peer_clocks =~= Seq::empty());
        }
        Ok(())
    }
}

} // verus!
