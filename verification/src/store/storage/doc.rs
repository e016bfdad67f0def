//! Updates, snapshots and local clocks of documents.
use vstd::prelude::*;
use crate::clock::{now_millis, CLOCK_LIMIT};
use crate::store::driver::{first_attempt, next_attempt};
use crate::store::error::{Error, StoreError};
use crate::store::keyed::{
    distinct_keys, has_key, lemma_filter_keeps_keys, lemma_position_is, lemma_upsert, lookup,
    position, upsert, Keyed,
};
use crate::store::relabel::{lemma_relabel_keeps_keys, relabel_rows, rows_collide};
use crate::store::rows::{
    copy_bytes, ClockRow, DocClock, DocRecord, DocUpdate, RecordRow, UpdateRow,
};
use crate::store::select::{instant, instants, ForDoc, NotMerged, OtherDoc, UpdateAt};
use crate::store::state::{
    changed_since, not_merged, of_doc, oldest_first, other_clock, other_record, other_update,
    StoreState, MAX_PUSH_RETRIES,
};
use crate::store::storage::SqliteDocStorage;
use crate::store::table::{
    find_key, find_row, lemma_filter_step, put_row, retain_rows, view_of, views,
};

verus! {

/// None of the rows collected from the first `i` rows of a table with distinct
/// keys bears the timestamp of the row at `i`, where that row belongs to the
/// same document.
proof fn lemma_unseen_timestamp(
    table: Seq<UpdateRow>,
    doc_id: Seq<char>,
    i: int,
    collected: Seq<UpdateRow>,
)
    requires
        distinct_keys(table),
        0 <= i < table.len(),
        table[i].doc_id == doc_id,
        oldest_first(collected, table.take(i).filter(of_doc(doc_id))),
    ensures
        forall|a: int|
            0 <= a < collected.len() ==> (#[trigger] collected[a]).timestamp != table[i].timestamp,
{
    let front = table.take(i);
    let seen = front.filter(of_doc(doc_id));
    assert forall|a: int| 0 <= a < collected.len() implies (#[trigger] collected[a]).timestamp
        != table[i].timestamp by {
        assert(seen.contains(collected[a]));
        let b = choose|b: int| 0 <= b < seen.len() && seen[b] == collected[a];
        front.lemma_filter_pred(of_doc(doc_id), b);
        front.lemma_filter_contains_rev(of_doc(doc_id), collected[a]);
        let k = choose|k: int| 0 <= k < front.len() && front[k] == collected[a];
        assert(table[k].key() != table[i].key());
    }
}

/// A row put into a sequence that is ordered by time, between the rows before
/// it and the rows after it, leaves the sequence ordered; and it then holds
/// what it held before and the new row.
proof fn lemma_insert_in_order(
    earlier: Seq<UpdateRow>,
    seen: Seq<UpdateRow>,
    row: UpdateRow,
    at: int,
)
    requires
        oldest_first(earlier, seen),
        0 <= at <= earlier.len(),
        forall|a: int| 0 <= a < at ==> (#[trigger] earlier[a]).timestamp < row.timestamp,
        at < earlier.len() ==> row.timestamp <= earlier[at].timestamp,
        forall|a: int| 0 <= a < earlier.len() ==> (#[trigger] earlier[a]).timestamp != row.timestamp,
    ensures
        oldest_first(earlier.insert(at, row), seen.push(row)),
{
    let later = earlier.insert(at, row);
    let grown = seen.push(row);
    assert(later[at] == row);
    assert forall|a: int| 0 <= a < later.len() && a != at implies #[trigger] later[a] == earlier[if a
        < at {
        a
    } else {
        a - 1
    }] by {}
    assert forall|a: int, b: int| 0 <= a < b < later.len() implies (#[trigger] later[a]).timestamp
        < (#[trigger] later[b]).timestamp by {
        let a0 = if a < at {
            a
        } else {
            a - 1
        };
        let b0 = if b < at {
            b
        } else {
            b - 1
        };
        if a != at && b != at {
            assert(earlier[a0].timestamp < earlier[b0].timestamp);
        } else if a == at {
            assert(later[b] == earlier[b0]);
            if at < b0 {
                assert(earlier[at].timestamp < earlier[b0].timestamp);
            }
            assert(earlier[b0].timestamp != row.timestamp);
        } else {
            assert(later[a] == earlier[a0]);
        }
    }
    assert forall|b: int| 0 <= b < grown.len() implies later.contains(#[trigger] grown[b]) by {
        if b < seen.len() {
            assert(earlier.contains(seen[b]));
            let a = choose|a: int| 0 <= a < earlier.len() && earlier[a] == seen[b];
            let a1 = if a < at {
                a
            } else {
                a + 1
            };
            assert(later[a1] == earlier[a]);
        } else {
            assert(later[at] == grown[b]);
        }
    }
    assert forall|a: int| 0 <= a < later.len() implies grown.contains(#[trigger] later[a]) by {
        if a == at {
            assert(grown[seen.len() as int] == later[a]);
        } else {
            let a0 = if a < at {
                a
            } else {
                a - 1
            };
            assert(later[a] == earlier[a0]);
            assert(seen.contains(earlier[a0]));
            let b = choose|b: int| 0 <= b < seen.len() && seen[b] == earlier[a0];
            assert(grown[b] == later[a]);
        }
    }
}

/// Whether `sorted` holds the updates of `doc_id` among the first `i` rows of
/// `table`, oldest first.
#[verifier::opaque]
spec fn collected(sorted: Seq<UpdateRow>, table: Seq<UpdateRow>, i: int, doc_id: Seq<char>) -> bool {
    oldest_first(sorted, table.take(i).filter(of_doc(doc_id)))
}

proof fn lemma_collected_none(table: Seq<UpdateRow>, doc_id: Seq<char>)
    ensures
        collected(Seq::empty(), table, 0, doc_id),
{
    reveal(collected);
    reveal(Seq::filter);
    assert(table.take(0).filter(of_doc(doc_id)) =~= Seq::empty());
}

proof fn lemma_collected_skip(sorted: Seq<UpdateRow>, table: Seq<UpdateRow>, i: int, doc_id: Seq<char>)
    requires
        0 <= i < table.len(),
        table[i].doc_id != doc_id,
        collected(sorted, table, i, doc_id),
    ensures
        collected(sorted, table, i + 1, doc_id),
{
    reveal(collected);
    lemma_filter_step(table, of_doc(doc_id), i);
}

proof fn lemma_collected_one_more(
    earlier: Seq<UpdateRow>,
    table: Seq<UpdateRow>,
    i: int,
    doc_id: Seq<char>,
    at: int,
)
    requires
        distinct_keys(table),
        0 <= i < table.len(),
        table[i].doc_id == doc_id,
        collected(earlier, table, i, doc_id),
        0 <= at <= earlier.len(),
        forall|a: int| 0 <= a < at ==> (#[trigger] earlier[a]).timestamp < table[i].timestamp,
        at < earlier.len() ==> table[i].timestamp <= earlier[at].timestamp,
    ensures
        collected(earlier.insert(at, table[i]), table, i + 1, doc_id),
{
    reveal(collected);
    lemma_filter_step(table, of_doc(doc_id), i);
    lemma_unseen_timestamp(table, doc_id, i, earlier);
    lemma_insert_in_order(earlier, table.take(i).filter(of_doc(doc_id)), table[i], at);
}

proof fn lemma_collected_all(sorted: Seq<UpdateRow>, table: Seq<UpdateRow>, doc_id: Seq<char>)
    requires
        collected(sorted, table, table.len() as int, doc_id),
    ensures
        oldest_first(sorted, table.filter(of_doc(doc_id))),
{
    reveal(collected);
    assert(table.take(table.len() as int) =~= table);
}

/// Where an update that bears `timestamp` goes among updates that are ordered
/// by time: behind those that are older.
fn place_of(sorted: &Vec<DocUpdate>, timestamp: i64) -> (at: usize)
    ensures
        at <= sorted.len(),
        forall|a: int| 0 <= a < at ==> (#[trigger] views(sorted@)[a]).timestamp < timestamp,
        at < sorted.len() ==> timestamp <= views(sorted@)[at as int].timestamp,
{
    let mut at: usize = 0;
    while at < sorted.len() && sorted[at].timestamp < timestamp
        invariant
            at <= sorted.len(),
            forall|a: int| 0 <= a < at ==> (#[trigger] views(sorted@)[a]).timestamp < timestamp,
        decreases sorted.len() - at,
    {
        assert(views(sorted@)[at as int] == sorted[at as int]@);
        at += 1;
    }
    assert(at < sorted.len() ==> views(sorted@)[at as int] == sorted[at as int]@);
    at
}

impl SqliteDocStorage {
    /// Appends an update of a document that arrives now, by the system clock,
    /// as `push_update_at` does for the time that the clock shows. Whatever
    /// the clock shows, the update gets a timestamp that no update of the
    /// document bore, or the store is left as it was.
    pub fn push_update(&mut self, doc_id: String, update: Vec<u8>) -> (result: Result<i64, Error>)
        requires
            old(self).wf(),
        ensures
            final(self).wf(),
            final(self).spec_path() == old(self).spec_path(),
            exists|now: int|
                -CLOCK_LIMIT < now < CLOCK_LIMIT && #[trigger] old(self)@.push_outcome(
                    doc_id@,
                    update@,
                    now,
                    final(self)@,
                    result,
                ),
    {
        let now = now_millis();
        let ghost arrived = (doc_id@, update@);
        let result = self.push_update_at(doc_id, update, now);
        proof {
            assert(old(self)@.push_outcome(arrived.0, arrived.1, now as int, self@, result));
        }
        result
    }

    /// Appends an update of a document that arrives at `now`, and sets the
    /// document's clock to the update's timestamp. The timestamp is `now`, or
    /// the first later millisecond that no update of the document bears yet;
    /// after `MAX_PUSH_RETRIES` steps forward the update is refused with a
    /// conflict. Fails too where no statement can run. On failure the store is
    /// unchanged.
    pub fn push_update_at(&mut self, doc_id: String, update: Vec<u8>, now: i64) -> (result: Result<
        i64,
        Error,
    >)
        requires
            old(self).wf(),
            now + MAX_PUSH_RETRIES <= i64::MAX,
        ensures
            final(self).wf(),
            final(self).spec_path() == old(self).spec_path(),
            old(self)@.push_outcome(doc_id@, update@, now as int, final(self)@, result),
    {
        if let Some(refusal) = self.refusal() {
            return Err(refusal);
        }
        let mut attempt = first_attempt(now);
        loop
            invariant
                0 <= attempt.retries <= MAX_PUSH_RETRIES,
                attempt.timestamp == now + attempt.retries,
                now + MAX_PUSH_RETRIES <= i64::MAX,
                self.wf(),
                self@ == old(self)@,
                self.spec_path() == old(self).spec_path(),
                self@.refusal() is None,
                self@.push_timestamp(doc_id@, now as int) == self@.first_free(
                    doc_id@,
                    attempt.timestamp as int,
                    (MAX_PUSH_RETRIES - attempt.retries) as nat,
                ),
            decreases MAX_PUSH_RETRIES - attempt.retries,
        {
            match self.try_insert_update_with_timestamp(&doc_id, &update, attempt.timestamp) {
                Ok(()) => {
                    return Ok(attempt.timestamp);
                },
                Err(conflict) => match next_attempt(attempt) {
                    Some(next) => {
                        attempt = next;
                    },
                    None => {
                        return Err(conflict);
                    },
                },
            }
        }
    }

    /// Appends an update of a document under the given timestamp and sets the
    /// document's clock to it, both or neither: where an update of the
    /// document bears the timestamp already, the store refuses the update
    /// with a conflict and stays as it was.
    fn try_insert_update_with_timestamp(
        &mut self,
        doc_id: &String,
        update: &Vec<u8>,
        timestamp: i64,
    ) -> (result: Result<(), Error>)
        requires
            old(self).wf(),
            old(self)@.refusal() is None,
        ensures
            final(self).wf(),
            final(self).spec_path() == old(self).spec_path(),
            if has_key(old(self)@.updates, (doc_id@, timestamp as int)) {
                result == Err::<(), Error>(Error::Store(StoreError::Conflict)) && final(self)@
                    == old(self)@
            } else {
                result is Ok && final(self)@ == (StoreState {
                    updates: old(self)@.updates.push(
                        UpdateRow { doc_id: doc_id@, timestamp: timestamp as int, bin: update@ },
                    ),
                    clocks: upsert(
                        old(self)@.clocks,
                        ClockRow { doc_id: doc_id@, timestamp: timestamp as int },
                    ),
                    ..old(self)@
                })
            },
    {
        let probe = UpdateAt { doc_id, timestamp };
        match find_key(&self.updates, &probe, Ghost((doc_id@, timestamp as int))) {
            Some(_) => Err(Error::Store(StoreError::Conflict)),
            None => {
                let ghost before = self@;
                let ghost row = UpdateRow { doc_id: doc_id@, timestamp: timestamp as int, bin: update@ };
                proof {
                    lemma_upsert(before.updates, row);
                }
                let clock = DocClock { doc_id: doc_id.clone(), timestamp };
                put_row(&mut self.clocks, &ForDoc { doc_id }, clock);
                self.updates.push(
                    DocUpdate { doc_id: doc_id.clone(), timestamp, bin: copy_bytes(update) },
                );
                proof {
                    assert(self@.updates =~= before.updates.push(row));
                }
                Ok(())
            },
        }
    }

    /// The updates of a document, oldest first. Fails where no statement can
    /// run, and only there.
    pub fn get_doc_updates(&self, doc_id: String) -> (result: Result<Vec<DocUpdate>, Error>)
        requires
            self.wf(),
        ensures
            match self@.refusal() {
                Some(refusal) => result == Err::<Vec<DocUpdate>, Error>(refusal),
                None => result is Ok && oldest_first(
                    views(result->Ok_0@),
                    self@.doc_updates(doc_id@),
                ),
            },
    {
        if let Some(refusal) = self.refusal() {
            return Err(refusal);
        }
        let ghost table = self@.updates;
        let mut sorted: Vec<DocUpdate> = Vec::new();
        let mut i: usize = 0;
        proof {
            lemma_collected_none(table, doc_id@);
            assert(views(sorted@) =~= Seq::empty());
        }
        while i < self.updates.len()
            invariant
                i <= self.updates.len(),
                table.len() == self.updates.len(),
                forall|k: int| 0 <= k < table.len() ==> #[trigger] table[k] == self.updates[k]@,
                distinct_keys(table),
                collected(views(sorted@), table, i as int, doc_id@),
            decreases self.updates.len() - i,
        {
            if self.updates[i].doc_id == doc_id {
                let row = self.updates[i].clone();
                let at = place_of(&sorted, row.timestamp);
                let ghost earlier = views(sorted@);
                sorted.insert(at, row);
                proof {
                    assert(views(sorted@) =~= earlier.insert(at as int, table[i as int]));
                    lemma_collected_one_more(earlier, table, i as int, doc_id@, at as int);
                }
            } else {
                proof {
                    lemma_collected_skip(views(sorted@), table, i as int, doc_id@);
                }
            }
            i += 1;
        }
        proof {
            lemma_collected_all(views(sorted@), table, doc_id@);
        }
        Ok(sorted)
    }

    /// Removes the updates of a document that bear one of the given
    /// timestamps, and says how many rows it removed: fewer than were asked
    /// for where some were gone already. Fails where no statement can run,
    /// and only there.
    pub fn mark_updates_merged(&mut self, doc_id: String, updates: Vec<i64>) -> (result: Result<
        u32,
        Error,
    >)
        requires
            old(self).wf(),
        ensures
            final(self).wf(),
            final(self).spec_path() == old(self).spec_path(),
            match old(self)@.refusal() {
                Some(refusal) => result == Err::<u32, Error>(refusal) && final(self)@ == old(
                    self,
                )@,
                None => final(self)@ == old(self)@.mark_updates_merged(
                    doc_id@,
                    instants(updates@),
                ) && result == Ok::<u32, Error>(
                    old(self)@.merged_count(doc_id@, instants(updates@)) as u32,
                ),
            },
    {
        if let Some(refusal) = self.refusal() {
            return Err(refusal);
        }
        proof {
            lemma_filter_keeps_keys(self@.updates, not_merged(doc_id@, instants(updates@)));
        }
        let merged = NotMerged { doc_id: &doc_id, timestamps: &updates };
        let removed = retain_rows(&mut self.updates, &merged);
        Ok(#[verifier::truncate] (removed as u32))
    }

    /// The snapshot of a document, if it has one. Fails where no statement
    /// can run, and only there.
    pub fn get_doc_snapshot(&self, doc_id: String) -> (result: Result<Option<DocRecord>, Error>)
        requires
            self.wf(),
        ensures
            match self@.refusal() {
                Some(refusal) => result == Err::<Option<DocRecord>, Error>(refusal),
                None => result is Ok && view_of(result->Ok_0) == self@.doc_snapshot(doc_id@),
            },
    {
        if let Some(refusal) = self.refusal() {
            return Err(refusal);
        }
        match find_key(&self.snapshots, &ForDoc { doc_id: &doc_id }, Ghost(doc_id@)) {
            Some(i) => Ok(Some(self.snapshots[i].clone())),
            None => Ok(None),
        }
    }

    /// Stores a snapshot of a document, unless the document has a snapshot
    /// that is as new or newer: only a strictly later `timestamp` replaces
    /// what is stored. Says whether the snapshot was stored. Fails where no
    /// statement can run, and only there.
    pub fn set_doc_snapshot(&mut self, snapshot: DocRecord) -> (result: Result<bool, Error>)
        requires
            old(self).wf(),
        ensures
            final(self).wf(),
            final(self).spec_path() == old(self).spec_path(),
            match old(self)@.refusal() {
                Some(refusal) => result == Err::<bool, Error>(refusal) && final(self)@ == old(
                    self,
                )@,
                None => result == Ok::<bool, Error>(old(self)@.snapshot_applies(snapshot@))
                    && final(self)@ == old(self)@.set_doc_snapshot(snapshot@),
            },
    {
        if let Some(refusal) = self.refusal() {
            return Err(refusal);
        }
        let doc_id = snapshot.doc_id.clone();
        let stored = find_key(&self.snapshots, &ForDoc { doc_id: &doc_id }, Ghost(doc_id@));
        let applies = match stored {
            Some(i) => self.snapshots[i].timestamp < snapshot.timestamp,
            None => true,
        };
        if applies {
            put_row(&mut self.snapshots, &ForDoc { doc_id: &doc_id }, snapshot);
        }
        Ok(applies)
    }

    /// The local clock of a document, if it has one. Fails where no statement
    /// can run, and only there.
    pub fn get_doc_clock(&self, doc_id: String) -> (result: Result<Option<DocClock>, Error>)
        requires
            self.wf(),
        ensures
            match self@.refusal() {
                Some(refusal) => result == Err::<Option<DocClock>, Error>(refusal),
                None => result is Ok && view_of(result->Ok_0) == self@.doc_clock(doc_id@),
            },
    {
        if let Some(refusal) = self.refusal() {
            return Err(refusal);
        }
        match find_key(&self.clocks, &ForDoc { doc_id: &doc_id }, Ghost(doc_id@)) {
            Some(i) => Ok(Some(self.clocks[i].clone())),
            None => Ok(None),
        }
    }

    /// The local clocks of the documents that changed strictly after `after`,
    /// or of all documents where no cursor is given, in row order. Fails
    /// where no statement can run, and only there.
    pub fn get_doc_clocks(&self, after: Option<i64>) -> (result: Result<Vec<DocClock>, Error>)
        requires
            self.wf(),
        ensures
            match self@.refusal() {
                Some(refusal) => result == Err::<Vec<DocClock>, Error>(refusal),
                None => result is Ok && views(result->Ok_0@) == self@.doc_clocks(instant(after)),
            },
    {
        if let Some(refusal) = self.refusal() {
            return Err(refusal);
        }
        let ghost table = self@.clocks;
        let ghost changed = changed_since(instant(after));
        let mut clocks: Vec<DocClock> = Vec::new();
        let mut i: usize = 0;
        proof {
            reveal(Seq::filter);
            assert(views(clocks@) =~= table.take(0).filter(changed));
        }
        while i < self.clocks.len()
            invariant
                i <= self.clocks.len(),
                table == self@.clocks,
                table.len() == self.clocks.len(),
                changed == changed_since(instant(after)),
                views(clocks@) == table.take(i as int).filter(changed),
            decreases self.clocks.len() - i,
        {
            proof {
                lemma_filter_step(table, changed, i as int);
                assert(table[i as int] == self.clocks[i as int]@);
            }
            let keep = match after {
                Some(cursor) => self.clocks[i].timestamp > cursor,
                None => true,
            };
            if keep {
                let ghost earlier = views(clocks@);
                clocks.push(self.clocks[i].clone());
                proof {
                    assert(views(clocks@) =~= earlier.push(table[i as int]));
                }
            }
            i += 1;
        }
        proof {
            assert(table.take(i as int) =~= table);
        }
        Ok(clocks)
    }

    /// The workspace that the store belongs to, once it was told.
    pub fn space_id(&self) -> (space_id: Option<String>)
        ensures
            view_of(space_id) == self@.space_id,
    {
        match &self.space_id {
            Some(id) => Some(id.clone()),
            None => None,
        }
    }

    /// Records the workspace that the store belongs to. Where the store
    /// belonged to another one, every update, snapshot, clock and peer marker
    /// of the document named after the old workspace goes to the document
    /// named after the new one, all of them or none: where two rows would
    /// come under one primary key, the call fails with a conflict and the
    /// store is unchanged. Fails too where no statement can run.
    pub fn set_space_id(&mut self, space_id: String) -> (result: Result<(), Error>)
        requires
            old(self).wf(),
        ensures
            final(self).wf(),
            final(self).spec_path() == old(self).spec_path(),
            match old(self)@.refusal() {
                Some(refusal) => result == Err::<(), Error>(refusal) && final(self)@ == old(self)@,
                None => final(self)@ == old(self)@.set_space_id(space_id@) && result == (if old(
                    self,
                )@.space_id_conflicts(space_id@) {
                    Err::<(), Error>(Error::Store(StoreError::Conflict))
                } else {
                    Ok::<(), Error>(())
                }),
            },
    {
        if let Some(refusal) = self.refusal() {
            return Err(refusal);
        }
        let current = match &self.space_id {
            Some(id) => id.clone(),
            None => {
                self.space_id = Some(space_id);
                return Ok(());
            },
        };
        if current == space_id {
            return Ok(());
        }
        if rows_collide(&self.updates, &current, &space_id) || rows_collide(
            &self.snapshots,
            &current,
            &space_id,
        ) || rows_collide(&self.clocks, &current, &space_id) || rows_collide(
            &self.peer_clocks,
            &current,
            &space_id,
        ) {
            return Err(Error::Store(StoreError::Conflict));
        }
        proof {
            lemma_relabel_keeps_keys(self@.updates, current@, space_id@);
            lemma_relabel_keeps_keys(self@.snapshots, current@, space_id@);
            lemma_relabel_keeps_keys(self@.clocks, current@, space_id@);
            lemma_relabel_keeps_keys(self@.peer_clocks, current@, space_id@);
        }
        relabel_rows(&mut self.updates, &current, &space_id);
        relabel_rows(&mut self.snapshots, &current, &space_id);
        relabel_rows(&mut self.clocks, &current, &space_id);
        relabel_rows(&mut self.peer_clocks, &current, &space_id);
        self.space_id = Some(space_id);
        Ok(())
    }

    /// Removes every update, the snapshot and the local clock of a document.
    /// Its peer markers stay. Fails where no statement can run, and only
    /// there; the store is then unchanged.
    pub fn delete_doc(&mut self, doc_id: String) -> (result: Result<(), Error>)
        requires
            old(self).wf(),
        ensures
            final(self).wf(),
            final(self).spec_path() == old(self).spec_path(),
            match old(self)@.refusal() {
                Some(refusal) => result == Err::<(), Error>(refusal) && final(self)@ == old(self)@,
                None => result is Ok && final(self)@ == old(self)@.delete_doc(doc_id@),
            },
    {
        if let Some(refusal) = self.refusal() {
            return Err(refusal);
        }
        proof {
            lemma_filter_keeps_keys(self@.updates, other_update(doc_id@));
            lemma_filter_keeps_keys(self@.snapshots, other_record(doc_id@));
            lemma_filter_keeps_keys(self@.clocks, other_clock(doc_id@));
        }
        let others = OtherDoc { doc_id: &doc_id };
        retain_rows::<DocUpdate, OtherDoc>(&mut self.updates, &others);
        retain_rows::<DocRecord, OtherDoc>(&mut self.snapshots, &others);
        retain_rows::<DocClock, OtherDoc>(&mut self.clocks, &others);
        Ok(())
    }
}

} // verus!
