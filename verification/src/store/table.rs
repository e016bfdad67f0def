//! Executable helpers on a table held as a vector of rows.
use vstd::prelude::*;
use super::keyed::{
    distinct_keys, has_key, lemma_position_is, lemma_upsert, lookup, position, upsert, with_key,
    Keyed,
};

verus! {

/// The rows of a table as the contracts see them.
pub open spec fn views<T: View>(rows: Seq<T>) -> Seq<T::V> {
    rows.map_values(|row: T| row@)
}

/// One more row read extends a filtered prefix by that row, or not at all.
pub proof fn lemma_filter_step<A>(rows: Seq<A>, keep: spec_fn(A) -> bool, i: int)
    requires
        0 <= i < rows.len(),
    ensures
        rows.take(i + 1).filter(keep) == if keep(rows[i]) {
            rows.take(i).filter(keep).push(rows[i])
        } else {
            rows.take(i).filter(keep)
        },
{
    rows.lemma_take_succ_push(i);
    rows.take(i).lemma_filter_push(rows[i], keep);
}

/// A test that is put to the rows of a table one by one.
pub trait RowTest<T: View> {
    /// The rows that pass, as the contracts see them.
    spec fn passing(&self) -> spec_fn(T::V) -> bool;

    /// Whether `row` passes.
    fn passes(&self, row: &T) -> (answer: bool)
        ensures
            answer == (self.passing())(row@),
    ;
}

/// The position of the first row that passes `test`.
pub(crate) fn find_row<T: View, P: RowTest<T>>(rows: &Vec<T>, test: &P) -> (found: Option<usize>)
    ensures
        match found {
            Some(i) => i < rows.len() && (test.passing())(rows[i as int]@) && forall|j: int|
                0 <= j < i ==> !(test.passing())(#[trigger] rows[j]@),
            None => forall|j: int| 0 <= j < rows.len() ==> !(test.passing())(#[trigger] rows[j]@),
        },
{
    let mut i: usize = 0;
    while i < rows.len()
        invariant
            i <= rows.len(),
            forall|j: int| 0 <= j < i ==> !(test.passing())(#[trigger] rows[j]@),
        decreases rows.len() - i,
    {
        if test.passes(&rows[i]) {
            return Some(i);
        }
        i += 1;
    }
    None
}

/// An optional row as the contracts see it.
pub open spec fn view_of<T: View>(row: Option<T>) -> Option<T::V> {
    match row {
        Some(row) => Some(row@),
        None => None,
    }
}

/// The position of the row with the key that `same_key` tests for.
pub(crate) fn find_key<T: View, P: RowTest<T>>(
    rows: &Vec<T>,
    same_key: &P,
    Ghost(key): Ghost<<T::V as Keyed>::Key>,
) -> (found: Option<usize>) where T::V: Keyed
    requires
        distinct_keys(views(rows@)),
        same_key.passing() == with_key::<T::V>(key),
    ensures
        match found {
            Some(i) => i < rows.len() && has_key(views(rows@), key) && position(views(rows@), key)
                == i && lookup(views(rows@), key) == Some(rows[i as int]@),
            None => !has_key(views(rows@), key) && lookup(views(rows@), key) == None::<T::V>,
        },
{
    let found = find_row(rows, same_key);
    proof {
        let table = views(rows@);
        match found {
            Some(i) => {
                assert(table[i as int] == rows[i as int]@);
                lemma_position_is(table, i as int);
            },
            None => {
                if has_key(table, key) {
                    let p = position(table, key);
                    assert(table[p] == rows[p]@);
                }
            },
        }
    }
    found
}

/// Writes `row` over the row with the same key, in its place, or appends it
/// where no row has that key.
pub(crate) fn put_row<T: View, P: RowTest<T>>(rows: &mut Vec<T>, same_key: &P, row: T) where
    T::V: Keyed,

    requires
        distinct_keys(views(old(rows)@)),
        same_key.passing() == with_key::<T::V>(row@.key()),
    ensures
        views(final(rows)@) == upsert(views(old(rows)@), row@),
        distinct_keys(views(final(rows)@)),
{
    let ghost before = views(rows@);
    let ghost written = row@;
    match find_row(rows, same_key) {
        Some(i) => {
            proof {
                lemma_position_is(before, i as int);
            }
            rows.set(i, row);
            proof {
                assert(views(rows@) =~= before.update(i as int, written));
            }
        },
        None => {
            proof {
                assert(!has_key(before, written.key())) by {
                    if has_key(before, written.key()) {
                        let p = position(before, written.key());
                        assert(before[p] == rows[p]@);
                    }
                }
            }
            rows.push(row);
            proof {
                assert(views(rows@) =~= before.push(written));
            }
        },
    }
    proof {
        lemma_upsert(before, written);
    }
}

/// Removes every row that fails `keep` and leaves the others in order.
pub(crate) fn retain_rows<T: View, P: RowTest<T>>(rows: &mut Vec<T>, keep: &P) -> (removed: usize)
    ensures
        views(final(rows)@) == views(old(rows)@).filter(keep.passing()),
        removed == old(rows).len() - final(rows).len(),
{
    let ghost kept = keep.passing();
    let ghost before = views(rows@);
    let ghost mut read: int = 0;
    let mut removed: usize = 0;
    let mut i: usize = 0;
    proof {
        reveal(Seq::filter);
        assert(before.take(0).filter(kept) =~= Seq::empty());
        assert(before.skip(0) =~= before);
        assert(views(rows@) =~= before.take(0).filter(kept) + before.skip(0));
    }
    while i < rows.len()
        invariant
            kept == keep.passing(),
            before.len() == old(rows).len(),
            0 <= read <= before.len(),
            i <= rows.len(),
            i == before.take(read).filter(kept).len(),
            rows.len() - i == before.len() - read,
            removed == before.len() - rows.len(),
            views(rows@) == before.take(read).filter(kept) + before.skip(read),
        decreases rows.len() - i,
    {
        proof {
            lemma_filter_step(before, kept, read);
            assert(views(rows@)[i as int] == before.skip(read)[0]);
        }
        if keep.passes(&rows[i]) {
            proof {
                assert(views(rows@) =~= before.take(read + 1).filter(kept) + before.skip(read + 1));
            }
            i += 1;
        } else {
            let ghost earlier = views(rows@);
            rows.remove(i);
            removed += 1;
            proof {
                assert(views(rows@) =~= earlier.remove(i as int));
                assert(views(rows@) =~= before.take(read + 1).filter(kept) + before.skip(read + 1));
            }
        }
        proof {
            read = read + 1;
        }
    }
    proof {
        assert(before.take(read) =~= before);
        assert(before.skip(read) =~= Seq::empty());
        assert(views(rows@) =~= before.filter(kept));
    }
    removed
}

} // verus!
