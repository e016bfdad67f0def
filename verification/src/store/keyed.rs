//! Tables as sequences of rows in row order, each row found by its primary
//! key: the vocabulary in which the engine's contracts are written.
use vstd::prelude::*;
use super::rows::{BlobRow, ClockRow, ListedBlobView, PeerClockRow, RecordRow, UpdateRow};

verus! {

/// A row with a primary key.
pub trait Keyed: Sized {
    type Key;

    /// The primary key of this row.
    spec fn key(self) -> Self::Key;
}

impl Keyed for UpdateRow {
    type Key = (Seq<char>, int);

    open spec fn key(self) -> (Seq<char>, int) {
        (self.doc_id, self.timestamp)
    }
}

impl Keyed for RecordRow {
    type Key = Seq<char>;

    open spec fn key(self) -> Seq<char> {
        self.doc_id
    }
}

impl Keyed for ClockRow {
    type Key = Seq<char>;

    open spec fn key(self) -> Seq<char> {
        self.doc_id
    }
}

impl Keyed for BlobRow {
    type Key = Seq<char>;

    open spec fn key(self) -> Seq<char> {
        self.key
    }
}

impl Keyed for ListedBlobView {
    type Key = Seq<char>;

    open spec fn key(self) -> Seq<char> {
        self.key
    }
}

impl Keyed for PeerClockRow {
    type Key = (Seq<char>, Seq<char>);

    open spec fn key(self) -> (Seq<char>, Seq<char>) {
        (self.peer, self.doc_id)
    }
}

/// No two rows of the table share a primary key.
pub open spec fn distinct_keys<R: Keyed>(rows: Seq<R>) -> bool {
    forall|i: int, j: int|
        0 <= i < j < rows.len() ==> (#[trigger] rows[i]).key() != (#[trigger] rows[j]).key()
}

/// Whether the table holds a row with this key.
pub open spec fn has_key<R: Keyed>(rows: Seq<R>, key: R::Key) -> bool {
    exists|i: int| 0 <= i < rows.len() && (#[trigger] rows[i]).key() == key
}

/// The position of the row with this key. Meaningful where `has_key` holds;
/// in a table with distinct keys there is one such position.
pub open spec fn position<R: Keyed>(rows: Seq<R>, key: R::Key) -> int {
    choose|i: int| 0 <= i < rows.len() && (#[trigger] rows[i]).key() == key
}

/// The row with this key, if the table holds one.
pub open spec fn lookup<R: Keyed>(rows: Seq<R>, key: R::Key) -> Option<R> {
    if has_key(rows, key) {
        Some(rows[position(rows, key)])
    } else {
        None
    }
}

/// The table after a write of `row` that replaces the row with the same key
/// where there is one, in its place, and else appends `row`.
pub open spec fn upsert<R: Keyed>(rows: Seq<R>, row: R) -> Seq<R> {
    if has_key(rows, row.key()) {
        rows.update(position(rows, row.key()), row)
    } else {
        rows.push(row)
    }
}

/// The rows that bear `key`.
pub open spec fn with_key<R: Keyed>(key: R::Key) -> spec_fn(R) -> bool {
    |row: R| row.key() == key
}

/// In a table with distinct keys, a row at `i` is the one that its key finds.
pub proof fn lemma_position_is<R: Keyed>(rows: Seq<R>, i: int)
    requires
        distinct_keys(rows),
        0 <= i < rows.len(),
    ensures
        has_key(rows, rows[i].key()),
        position(rows, rows[i].key()) == i,
        lookup(rows, rows[i].key()) == Some(rows[i]),
{
    let key = rows[i].key();
    let p = position(rows, key);
    assert(0 <= p < rows.len() && rows[p].key() == key);
    if p < i {
        assert(rows[p].key() != rows[i].key());
    } else if i < p {
        assert(rows[i].key() != rows[p].key());
    }
}

/// `upsert` keeps the keys distinct, makes `row` the row that its key finds,
/// and leaves every other key's row as it was.
pub proof fn lemma_upsert<R: Keyed>(rows: Seq<R>, row: R)
    requires
        distinct_keys(rows),
    ensures
        distinct_keys(upsert(rows, row)),
        lookup(upsert(rows, row), row.key()) == Some(row),
        forall|k: R::Key| k != row.key() ==> lookup(upsert(rows, row), k) == lookup(rows, k),
{
    let after = upsert(rows, row);
    let slot = if has_key(rows, row.key()) {
        position(rows, row.key())
    } else {
        rows.len() as int
    };
    assert(0 <= slot < after.len() && after[slot] == row);
    assert forall|i: int| 0 <= i < after.len() && i != slot implies #[trigger] after[i]
        == rows[i] && rows[i].key() != row.key() by {
        if has_key(rows, row.key()) {
            lemma_position_is(rows, i);
        }
    }
    assert(distinct_keys(after)) by {
        assert forall|i: int, j: int| 0 <= i < j < after.len() implies (#[trigger] after[i]).key()
            != (#[trigger] after[j]).key() by {
            if i != slot && j != slot {
                assert(rows[i].key() != rows[j].key());
            }
        }
    }
    lemma_position_is(after, slot);
    assert forall|k: R::Key| k != row.key() implies lookup(after, k) == lookup(rows, k) by {
        if has_key(rows, k) {
            let p = position(rows, k);
            assert(p != slot);
            assert(after[p] == rows[p]);
            lemma_position_is(after, p);
        } else if has_key(after, k) {
            let p = position(after, k);
            assert(p != slot);
            assert(rows[p].key() == k);
        }
    }
}

/// In a filtered table the keys are still distinct, and a key finds its row
/// exactly where the row passed the filter.
pub proof fn lemma_filter_keeps_keys<R: Keyed>(rows: Seq<R>, keep: spec_fn(R) -> bool)
    requires
        distinct_keys(rows),
    ensures
        distinct_keys(rows.filter(keep)),
        forall|k: R::Key|
            lookup(rows.filter(keep), k) == (match lookup(rows, k) {
                Some(row) => if keep(row) {
                    Some(row)
                } else {
                    None
                },
                None => None,
            }),
    decreases rows.len(),
{
    reveal(Seq::filter);
    let kept = rows.filter(keep);
    if rows.len() == 0 {
        assert forall|k: R::Key| lookup(kept, k) == None::<R> && lookup(rows, k) == None::<R> by {}
    } else {
        let front = rows.drop_last();
        let last = rows.last();
        assert(distinct_keys(front)) by {
            assert forall|i: int, j: int| 0 <= i < j < front.len() implies (#[trigger] front[i]).key()
                != (#[trigger] front[j]).key() by {
                assert(front[i] == rows[i] && front[j] == rows[j]);
            }
        }
        lemma_filter_keeps_keys(front, keep);
        let kept_front = front.filter(keep);
        assert(!has_key(front, last.key())) by {
            if has_key(front, last.key()) {
                let p = position(front, last.key());
                assert(front[p] == rows[p]);
                assert(rows[p].key() != rows[rows.len() - 1].key());
            }
        }
        assert(lookup(kept_front, last.key()) == None::<R>);
        if keep(last) {
            assert(kept == kept_front.push(last));
            assert(distinct_keys(kept)) by {
                assert forall|i: int, j: int| 0 <= i < j < kept.len() implies (
                #[trigger] kept[i]).key() != (#[trigger] kept[j]).key() by {
                    if j == kept_front.len() {
                        assert(kept[i] == kept_front[i]);
                        assert(kept_front[i].key() != last.key());
                    } else {
                        assert(kept[i] == kept_front[i] && kept[j] == kept_front[j]);
                    }
                }
            }
        } else {
            assert(kept == kept_front);
        }
        assert forall|k: R::Key|
            lookup(kept, k) == (match lookup(rows, k) {
                Some(row) => if keep(row) {
                    Some(row)
                } else {
                    None
                },
                None => None,
            }) by {
            if k == last.key() {
                lemma_position_is(rows, rows.len() - 1);
                if keep(last) {
                    lemma_position_is(kept, kept.len() - 1);
                } else {
                    assert(lookup(kept, k) == None::<R>);
                }
            } else {
                // the last row does not bear on `k`
                assert(lookup(rows, k) == lookup(front, k)) by {
                    if has_key(front, k) {
                        let p = position(front, k);
                        assert(rows[p] == front[p]);
                        lemma_position_is(rows, p);
                        lemma_position_is(front, p);
                    } else if has_key(rows, k) {
                        let p = position(rows, k);
                        assert(p != rows.len() - 1);
                        assert(front[p].key() == k);
                    }
                }
                assert(lookup(kept, k) == lookup(kept_front, k)) by {
                    if keep(last) {
                        if has_key(kept_front, k) {
                            let p = position(kept_front, k);
                            assert(kept[p] == kept_front[p]);
                            lemma_position_is(kept, p);
                            lemma_position_is(kept_front, p);
                        } else if has_key(kept, k) {
                            let p = position(kept, k);
                            assert(p != kept.len() - 1);
                            assert(kept_front[p].key() == k);
                        }
                    }
                }
            }
        }
    }
}

} // verus!
