//! Blobs: content stored under a key, deleted softly or for good.
use vstd::prelude::*;
use crate::clock::{now_millis, CLOCK_LIMIT};
use crate::store::error::Error;
use crate::store::keyed::{
    distinct_keys, has_key, lemma_filter_keeps_keys, lemma_position_is, lemma_upsert, lookup,
    position, upsert, Keyed,
};
use crate::store::rows::{Blob, BlobEntry, BlobRow, ListedBlob, ListedBlobView, SetBlob};
use crate::store::select::{ForKey, Live, OtherKey};
use crate::store::state::{listing, live_blob, newest_first, other_blob, StoreState};
use crate::store::storage::SqliteDocStorage;
use crate::store::table::{find_key, lemma_filter_step, put_row, retain_rows, view_of, views};

verus! {

/// Every row's recorded size is the length of its content.
pub open spec fn sizes_hold(rows: Seq<BlobRow>) -> bool {
    forall|i: int| 0 <= i < rows.len() ==> (#[trigger] rows[i]).size == rows[i].data.len()
}

/// A filtered blob table still records the right sizes.
proof fn lemma_filter_keeps_sizes(rows: Seq<BlobRow>, keep: spec_fn(BlobRow) -> bool)
    requires
        sizes_hold(rows),
    ensures
        sizes_hold(rows.filter(keep)),
{
    let kept = rows.filter(keep);
    assert forall|i: int| 0 <= i < kept.len() implies (#[trigger] kept[i]).size
        == kept[i].data.len() by {
        assert(kept.contains(kept[i]));
        rows.lemma_filter_contains_rev(keep, kept[i]);
        let k = choose|k: int| 0 <= k < rows.len() && rows[k] == kept[i];
        assert(rows[k].size == rows[k].data.len());
    }
}

/// A blob table into which a row with the right size was written still
/// records the right sizes.
proof fn lemma_upsert_keeps_sizes(rows: Seq<BlobRow>, row: BlobRow)
    requires
        sizes_hold(rows),
        row.size == row.data.len(),
    ensures
        sizes_hold(upsert(rows, row)),
{
    let after = upsert(rows, row);
    assert forall|i: int| 0 <= i < after.len() implies (#[trigger] after[i]).size
        == after[i].data.len() by {
        if i < rows.len() && after[i] != row {
            assert(after[i] == rows[i]);
        }
    }
}

/// Whether `sorted` holds the first `i` blobs of `shown`, the newest first and
/// blobs of one age in the order of `shown`.
#[verifier::opaque]
spec fn arranged(sorted: Seq<ListedBlobView>, shown: Seq<ListedBlobView>, i: int) -> bool {
    &&& sorted.len() == i
    &&& forall|a: int, b: int|
        0 <= a < b < sorted.len() ==> (#[trigger] sorted[a]).created_at >= (
        #[trigger] sorted[b]).created_at
    &&& forall|b: int| 0 <= b < i ==> sorted.contains(#[trigger] shown[b])
    &&& forall|a: int|
        0 <= a < sorted.len() ==> 0 <= position(shown, (#[trigger] sorted[a]).key) < i
            && shown[position(shown, sorted[a].key)] == sorted[a]
    &&& forall|a: int, b: int|
        0 <= a < b < sorted.len() && (#[trigger] sorted[a]).created_at == (
        #[trigger] sorted[b]).created_at ==> position(shown, sorted[a].key) < position(
            shown,
            sorted[b].key,
        )
}

proof fn lemma_arranged_none(shown: Seq<ListedBlobView>)
    ensures
        arranged(Seq::empty(), shown, 0),
{
    reveal(arranged);
}

proof fn lemma_arranged_one_more(
    earlier: Seq<ListedBlobView>,
    shown: Seq<ListedBlobView>,
    i: int,
    at: int,
)
    requires
        distinct_keys(shown),
        0 <= i < shown.len(),
        arranged(earlier, shown, i),
        0 <= at <= earlier.len(),
        forall|a: int| 0 <= a < at ==> (#[trigger] earlier[a]).created_at >= shown[i].created_at,
        at < earlier.len() ==> earlier[at].created_at < shown[i].created_at,
    ensures
        arranged(earlier.insert(at, shown[i]), shown, i + 1),
{
    reveal(arranged);
    let row = shown[i];
    let later = earlier.insert(at, row);
    lemma_position_is(shown, i);
    assert(later[at] == row);
    assert forall|a: int| 0 <= a < later.len() && a != at implies #[trigger] later[a] == earlier[if a
        < at {
        a
    } else {
        a - 1
    }] by {}
    assert forall|a: int| at <= a < earlier.len() implies (#[trigger] earlier[a]).created_at
        < row.created_at by {
        if at < a {
            assert(earlier[at].created_at >= earlier[a].created_at);
        }
    }
    assert forall|a: int, b: int| 0 <= a < b < later.len() implies (#[trigger] later[a]).created_at
        >= (#[trigger] later[b]).created_at by {
        let a0 = if a < at {
            a
        } else {
            a - 1
        };
        let b0 = if b < at {
            b
        } else {
            b - 1
        };
        if a != at && b != at {
            assert(earlier[a0].created_at >= earlier[b0].created_at);
        } else if a == at {
            assert(later[b] == earlier[b0]);
        } else {
            assert(later[a] == earlier[a0]);
        }
    }
    assert forall|b: int| 0 <= b < i + 1 implies later.contains(#[trigger] shown[b]) by {
        if b < i {
            assert(earlier.contains(shown[b]));
            let a = choose|a: int| 0 <= a < earlier.len() && earlier[a] == shown[b];
            let a1 = if a < at {
                a
            } else {
                a + 1
            };
            assert(later[a1] == earlier[a]);
        } else {
            assert(later[at] == shown[b]);
        }
    }
    assert forall|a: int| 0 <= a < later.len() implies 0 <= position(
        shown,
        (#[trigger] later[a]).key,
    ) < i + 1 && shown[position(shown, later[a].key)] == later[a] by {
        if a != at {
            let a0 = if a < at {
                a
            } else {
                a - 1
            };
            assert(later[a] == earlier[a0]);
        }
    }
    assert forall|a: int, b: int|
        0 <= a < b < later.len() && (#[trigger] later[a]).created_at == (
        #[trigger] later[b]).created_at implies position(shown, later[a].key) < position(
        shown,
        later[b].key,
    ) by {
        let a0 = if a < at {
            a
        } else {
            a - 1
        };
        let b0 = if b < at {
            b
        } else {
            b - 1
        };
        if a != at && b != at {
            assert(later[a] == earlier[a0] && later[b] == earlier[b0]);
        } else if a == at {
            assert(later[b] == earlier[b0]);
            assert(earlier[b0].created_at < row.created_at);
        } else {
            assert(later[a] == earlier[a0]);
            assert(position(shown, earlier[a0].key) < i);
        }
    }
}

proof fn lemma_arranged_all(sorted: Seq<ListedBlobView>, shown: Seq<ListedBlobView>)
    requires
        arranged(sorted, shown, shown.len() as int),
    ensures
        newest_first(sorted, shown),
{
    reveal(arranged);
    assert forall|a: int| 0 <= a < sorted.len() implies shown.contains(#[trigger] sorted[a]) by {
        assert(shown[position(shown, sorted[a].key)] == sorted[a]);
    }
}

/// What is shown of the rows of a table with distinct keys has distinct keys.
proof fn lemma_listing_keeps_keys(rows: Seq<BlobRow>)
    requires
        distinct_keys(rows),
    ensures
        distinct_keys(rows.map_values(listing())),
{
    let shown = rows.map_values(listing());
    assert forall|i: int, j: int| 0 <= i < j < shown.len() implies (#[trigger] shown[i]).key() != (
    #[trigger] shown[j]).key() by {
        assert(rows[i].key() != rows[j].key());
    }
}

/// Where a blob that was made at `created_at` goes among blobs that are
/// ordered by age: behind those that are as new or newer.
fn place_of(sorted: &Vec<ListedBlob>, created_at: i64) -> (at: usize)
    ensures
        at <= sorted.len(),
        forall|a: int| 0 <= a < at ==> (#[trigger] views(sorted@)[a]).created_at >= created_at,
        at < sorted.len() ==> views(sorted@)[at as int].created_at < created_at,
{
    let mut at: usize = 0;
    while at < sorted.len() && sorted[at].created_at >= created_at
        invariant
            at <= sorted.len(),
            forall|a: int| 0 <= a < at ==> (#[trigger] views(sorted@)[a]).created_at >= created_at,
        decreases sorted.len() - at,
    {
        assert(views(sorted@)[at as int] == sorted[at as int]@);
        at += 1;
    }
    assert(at < sorted.len() ==> views(sorted@)[at as int] == sorted[at as int]@);
    at
}

impl SqliteDocStorage {
    /// The blob under `key`, unless there is none or it is soft-deleted.
    /// Fails where no statement can run, and only there.
    pub fn get_blob(&self, key: String) -> (result: Result<Option<Blob>, Error>)
        requires
            self.wf(),
        ensures
            match self@.refusal() {
                Some(refusal) => result == Err::<Option<Blob>, Error>(refusal),
                None => result is Ok && view_of(result->Ok_0) == self@.get_blob(key@),
            },
    {
        if let Some(refusal) = self.refusal() {
            return Err(refusal);
        }
        match find_key(&self.blobs, &ForKey { key: &key }, Ghost(key@)) {
            Some(i) => {
                if self.blobs[i].deleted_at.is_none() {
                    Ok(Some(self.blobs[i].to_blob()))
                } else {
                    Ok(None)
                }
            },
            None => Ok(None),
        }
    }

    /// Stores a blob at time `now`. A new key gets a row that was made at
    /// `now`; a key that is there already keeps the time at which its row was
    /// made, has content, type and size replaced, and is no longer deleted.
    /// Fails where no statement can run, and only there.
    pub fn set_blob_at(&mut self, blob: SetBlob, now: i64) -> (result: Result<(), Error>)
        requires
            old(self).wf(),
            blob.data.len() <= i64::MAX,
        ensures
            final(self).wf(),
            final(self).spec_path() == old(self).spec_path(),
            old(self)@.write_outcome(old(self)@.set_blob(blob@, now as int), final(self)@, result),
    {
        if let Some(refusal) = self.refusal() {
            return Err(refusal);
        }
        let key = blob.key.clone();
        let stored = find_key(&self.blobs, &ForKey { key: &key }, Ghost(key@));
        let created_at = match stored {
            Some(i) => self.blobs[i].created_at,
            None => now,
        };
        let size = blob.data.len() as i64;
        let row = BlobEntry {
            key: blob.key,
            data: blob.data,
            mime: blob.mime,
            size,
            created_at,
            deleted_at: None,
        };
        proof {
            lemma_upsert_keeps_sizes(self@.blobs, row@);
        }
        put_row(&mut self.blobs, &ForKey { key: &key }, row);
        Ok(())
    }

    /// Stores a blob now, by the system clock, as `set_blob_at` does for the
    /// time that the clock shows.
    pub fn set_blob(&mut self, blob: SetBlob) -> (result: Result<(), Error>)
        requires
            old(self).wf(),
            blob.data.len() <= i64::MAX,
        ensures
            final(self).wf(),
            final(self).spec_path() == old(self).spec_path(),
            exists|now: int|
                -CLOCK_LIMIT < now < CLOCK_LIMIT && old(self)@.write_outcome(
                    #[trigger] old(self)@.set_blob(blob@, now),
                    final(self)@,
                    result,
                ),
    {
        let now = now_millis();
        let ghost wanted = old(self)@.set_blob(blob@, now as int);
        let result = self.set_blob_at(blob, now);
        proof {
            assert(old(self)@.write_outcome(wanted, self@, result));
        }
        result
    }

    /// Deletes the blob under `key` at time `now`: for good, so that its row
    /// is gone, or softly, so that the row stays and is marked as deleted at
    /// `now`, and no read returns it. Without such a row nothing changes.
    /// Fails where no statement can run, and only there.
    pub fn delete_blob_at(&mut self, key: String, permanently: bool, now: i64) -> (result: Result<
        (),
        Error,
    >)
        requires
            old(self).wf(),
        ensures
            final(self).wf(),
            final(self).spec_path() == old(self).spec_path(),
            old(self)@.write_outcome(
                old(self)@.delete_blob(key@, permanently, now as int),
                final(self)@,
                result,
            ),
    {
        if let Some(refusal) = self.refusal() {
            return Err(refusal);
        }
        let ghost before = self@.blobs;
        if permanently {
            proof {
                lemma_filter_keeps_keys(before, other_blob(key@));
                lemma_filter_keeps_sizes(before, other_blob(key@));
            }
            retain_rows(&mut self.blobs, &OtherKey { key: &key });
        } else {
            match find_key(&self.blobs, &ForKey { key: &key }, Ghost(key@)) {
                Some(i) => {
                    let ghost marked = BlobRow { deleted_at: Some(now as int), ..before[i as int] };
                    proof {
                        assert(marked.key() == before[i as int].key());
                        lemma_upsert(before, marked);
                        lemma_upsert_keeps_sizes(before, marked);
                    }
                    self.blobs[i].deleted_at = Some(now);
                    proof {
                        assert(self@.blobs =~= before.update(i as int, marked));
                    }
                },
                None => {},
            }
        }
        Ok(())
    }

    /// Deletes the blob under `key` now, by the system clock, as
    /// `delete_blob_at` does for the time that the clock shows.
    pub fn delete_blob(&mut self, key: String, permanently: bool) -> (result: Result<(), Error>)
        requires
            old(self).wf(),
        ensures
            final(self).wf(),
            final(self).spec_path() == old(self).spec_path(),
            exists|now: int|
                -CLOCK_LIMIT < now < CLOCK_LIMIT && old(self)@.write_outcome(
                    #[trigger] old(self)@.delete_blob(key@, permanently, now),
                    final(self)@,
                    result,
                ),
    {
        let now = now_millis();
        let ghost wanted = old(self)@.delete_blob(key@, permanently, now as int);
        let result = self.delete_blob_at(key, permanently, now);
        proof {
            assert(old(self)@.write_outcome(wanted, self@, result));
        }
        result
    }

    /// Removes every soft-deleted blob for good. Fails where no statement can
    /// run, and only there.
    pub fn release_blobs(&mut self) -> (result: Result<(), Error>)
        requires
            old(self).wf(),
        ensures
            final(self).wf(),
            final(self).spec_path() == old(self).spec_path(),
            old(self)@.write_outcome(old(self)@.release_blobs(), final(self)@, result),
    {
        if let Some(refusal) = self.refusal() {
            return Err(refusal);
        }
        proof {
            lemma_filter_keeps_keys(self@.blobs, live_blob());
            lemma_filter_keeps_sizes(self@.blobs, live_blob());
        }
        retain_rows(&mut self.blobs, &Live {  });
        Ok(())
    }

    /// The blobs that are not soft-deleted, without their content, in row
    /// order.
    fn live_blobs(&self) -> (live: Vec<ListedBlob>)
        ensures
            views(live@) == self@.live_blobs(),
    {
        let ghost table = self@.blobs;
        let mut live: Vec<ListedBlob> = Vec::new();
        let mut i: usize = 0;
        proof {
            reveal(Seq::filter);
            assert(views(live@) =~= table.take(0).filter(live_blob()).map_values(listing()));
        }
        while i < self.blobs.len()
            invariant
                i <= self.blobs.len(),
                table.len() == self.blobs.len(),
                forall|k: int| 0 <= k < table.len() ==> #[trigger] table[k] == self.blobs[k]@,
                views(live@) == table.take(i as int).filter(live_blob()).map_values(listing()),
            decreases self.blobs.len() - i,
        {
            proof {
                lemma_filter_step(table, live_blob(), i as int);
            }
            if self.blobs[i].deleted_at.is_none() {
                let ghost earlier = views(live@);
                live.push(self.blobs[i].to_listed());
                proof {
                    assert(views(live@) =~= earlier.push(table[i as int].listed()));
                    assert(table.take(i as int).filter(live_blob()).push(table[i as int]).map_values(
                        listing(),
                    ) =~= earlier.push(table[i as int].listed()));
                }
            }
            i += 1;
        }
        proof {
            assert(table.take(i as int) =~= table);
        }
        live
    }

    /// The blobs that are not soft-deleted, without their content: the newest
    /// first, and blobs that were made at the same time in row order. Fails
    /// where no statement can run, and only there.
    pub fn list_blobs(&self) -> (result: Result<Vec<ListedBlob>, Error>)
        requires
            self.wf(),
        ensures
            match self@.refusal() {
                Some(refusal) => result == Err::<Vec<ListedBlob>, Error>(refusal),
                None => result is Ok && newest_first(views(result->Ok_0@), self@.live_blobs()),
            },
    {
        if let Some(refusal) = self.refusal() {
            return Err(refusal);
        }
        let live = self.live_blobs();
        let ghost shown = views(live@);
        let mut sorted: Vec<ListedBlob> = Vec::new();
        let mut i: usize = 0;
        proof {
            lemma_filter_keeps_keys(self@.blobs, live_blob());
            lemma_listing_keeps_keys(self@.blobs.filter(live_blob()));
            lemma_arranged_none(shown);
            assert(views(sorted@) =~= Seq::empty());
        }
        while i < live.len()
            invariant
                i <= live.len(),
                shown.len() == live.len(),
                forall|k: int| 0 <= k < shown.len() ==> #[trigger] shown[k] == live[k]@,
                distinct_keys(shown),
                arranged(views(sorted@), shown, i as int),
            decreases live.len() - i,
        {
            let row = live[i].clone();
            let at = place_of(&sorted, row.created_at);
            let ghost earlier = views(sorted@);
            sorted.insert(at, row);
            proof {
                assert(views(sorted@) =~= earlier.insert(at as int, shown[i as int]));
                lemma_arranged_one_more(earlier, shown, i as int, at as int);
            }
            i += 1;
        }
        proof {
            lemma_arranged_all(views(sorted@), shown);
        }
        Ok(sorted)
    }

    /// How many rows the blob table holds, the soft-deleted ones among them.
    pub fn blob_rows(&self) -> (rows: usize)
        ensures
            rows == self@.blobs.len(),
    {
        self.blobs.len()
    }
}

} // verus!
