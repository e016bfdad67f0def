//! Giving the rows of one document to another: what a store does to its
//! tables when the workspace that it belongs to changes its identity.
use vstd::prelude::*;
use super::keyed::{distinct_keys, Keyed};
use super::rows::{
    ClockRow, DocClock, DocRecord, DocUpdate, PeerClock, PeerClockRow, RecordRow, UpdateRow,
};
use super::table::views;

verus! {

/// A row that belongs to a document. Its primary key is the document together
/// with the rest of the key.
pub trait OfDocument: Keyed {
    type Rest;

    /// The document that the row belongs to.
    spec fn doc_id(self) -> Seq<char>;

    /// What the primary key holds besides the document.
    spec fn rest(self) -> Self::Rest;

    /// This row, given to another document.
    spec fn renamed(self, to: Seq<char>) -> Self;

    /// Two rows share a key exactly where they share document and rest.
    proof fn lemma_key(a: Self, b: Self)
        ensures
            (a.key() == b.key()) <==> (a.doc_id() == b.doc_id() && a.rest() == b.rest()),
    ;

    /// Renaming changes the document and nothing else of the key.
    proof fn lemma_renamed(a: Self, to: Seq<char>)
        ensures
            a.renamed(to).doc_id() == to,
            a.renamed(to).rest() == a.rest(),
    ;
}

impl OfDocument for UpdateRow {
    type Rest = int;

    open spec fn doc_id(self) -> Seq<char> {
        self.doc_id
    }

    open spec fn rest(self) -> int {
        self.timestamp
    }

    open spec fn renamed(self, to: Seq<char>) -> UpdateRow {
        UpdateRow { doc_id: to, ..self }
    }

    proof fn lemma_key(a: UpdateRow, b: UpdateRow) {
    }

    proof fn lemma_renamed(a: UpdateRow, to: Seq<char>) {
    }
}

impl OfDocument for RecordRow {
    type Rest = ();

    open spec fn doc_id(self) -> Seq<char> {
        self.doc_id
    }

    open spec fn rest(self) -> () {
        ()
    }

    open spec fn renamed(self, to: Seq<char>) -> RecordRow {
        RecordRow { doc_id: to, ..self }
    }

    proof fn lemma_key(a: RecordRow, b: RecordRow) {
    }

    proof fn lemma_renamed(a: RecordRow, to: Seq<char>) {
    }
}

impl OfDocument for ClockRow {
    type Rest = ();

    open spec fn doc_id(self) -> Seq<char> {
        self.doc_id
    }

    open spec fn rest(self) -> () {
        ()
    }

    open spec fn renamed(self, to: Seq<char>) -> ClockRow {
        ClockRow { doc_id: to, ..self }
    }

    proof fn lemma_key(a: ClockRow, b: ClockRow) {
    }

    proof fn lemma_renamed(a: ClockRow, to: Seq<char>) {
    }
}

impl OfDocument for PeerClockRow {
    type Rest = Seq<char>;

    open spec fn doc_id(self) -> Seq<char> {
        self.doc_id
    }

    open spec fn rest(self) -> Seq<char> {
        self.peer
    }

    open spec fn renamed(self, to: Seq<char>) -> PeerClockRow {
        PeerClockRow { doc_id: to, ..self }
    }

    proof fn lemma_key(a: PeerClockRow, b: PeerClockRow) {
    }

    proof fn lemma_renamed(a: PeerClockRow, to: Seq<char>) {
    }
}

/// What becomes of a row when the rows of document `from` go to `to`.
pub open spec fn relabel_row<R: OfDocument>(row: R, from: Seq<char>, to: Seq<char>) -> R {
    if row.doc_id() == from {
        row.renamed(to)
    } else {
        row
    }
}

/// The table with every row of document `from` given to document `to`, each
/// row in its place.
pub open spec fn relabel<R: OfDocument>(rows: Seq<R>, from: Seq<char>, to: Seq<char>) -> Seq<R> {
    Seq::new(rows.len(), |i: int| relabel_row(rows[i], from, to))
}

/// Whether a row of `from` and a row of `to` agree in the rest of their keys,
/// so that giving the first to `to` would put both under one key.
pub open spec fn collides<R: OfDocument>(rows: Seq<R>, from: Seq<char>, to: Seq<char>) -> bool {
    exists|i: int, j: int|
        0 <= i < rows.len() && 0 <= j < rows.len() && (#[trigger] rows[i]).doc_id() == from && (
        #[trigger] rows[j]).doc_id() == to && rows[i].rest() == rows[j].rest()
}

/// Where nothing collides, the relabeled table still has distinct keys.
pub proof fn lemma_relabel_keeps_keys<R: OfDocument>(rows: Seq<R>, from: Seq<char>, to: Seq<char>)
    requires
        distinct_keys(rows),
        from != to,
        !collides(rows, from, to),
    ensures
        distinct_keys(relabel(rows, from, to)),
{
    let after = relabel(rows, from, to);
    assert forall|i: int, j: int| 0 <= i < j < after.len() implies (#[trigger] after[i]).key() != (
    #[trigger] after[j]).key() by {
        R::lemma_key(rows[i], rows[j]);
        R::lemma_key(after[i], after[j]);
        R::lemma_renamed(rows[i], to);
        R::lemma_renamed(rows[j], to);
        assert(rows[i].key() != rows[j].key());
        if rows[i].doc_id() == from && rows[j].doc_id() != from {
            if rows[j].doc_id() == to {
                assert(rows[i].rest() != rows[j].rest());
            }
        } else if rows[i].doc_id() != from && rows[j].doc_id() == from {
            if rows[i].doc_id() == to {
                assert(rows[j].rest() != rows[i].rest());
            }
        }
    }
}

/// An executable row that belongs to a document.
pub trait DocRow: View + Sized where Self::V: OfDocument {
    /// Whether the row belongs to `doc_id`.
    fn is_of(&self, doc_id: &String) -> (answer: bool)
        ensures
            answer == (self@.doc_id() == doc_id@),
    ;

    /// Whether two rows agree in what their keys hold besides the document.
    fn same_rest(&self, other: &Self) -> (answer: bool)
        ensures
            answer == (self@.rest() == other@.rest()),
    ;

    /// Gives the row to another document.
    fn rename(&mut self, to: String)
        ensures
            final(self)@ == old(self)@.renamed(to@),
    ;
}

impl DocRow for DocUpdate {
    fn is_of(&self, doc_id: &String) -> (answer: bool) {
        self.doc_id == *doc_id
    }

    fn same_rest(&self, other: &Self) -> (answer: bool) {
        self.timestamp == other.timestamp
    }

    fn rename(&mut self, to: String) {
        self.doc_id = to;
    }
}

impl DocRow for DocRecord {
    fn is_of(&self, doc_id: &String) -> (answer: bool) {
        self.doc_id == *doc_id
    }

    fn same_rest(&self, other: &Self) -> (answer: bool) {
        true
    }

    fn rename(&mut self, to: String) {
        self.doc_id = to;
    }
}

impl DocRow for DocClock {
    fn is_of(&self, doc_id: &String) -> (answer: bool) {
        self.doc_id == *doc_id
    }

    fn same_rest(&self, other: &Self) -> (answer: bool) {
        true
    }

    fn rename(&mut self, to: String) {
        self.doc_id = to;
    }
}

impl DocRow for PeerClock {
    fn is_of(&self, doc_id: &String) -> (answer: bool) {
        self.doc_id == *doc_id
    }

    fn same_rest(&self, other: &Self) -> (answer: bool) {
        self.peer == other.peer
    }

    fn rename(&mut self, to: String) {
        self.doc_id = to;
    }
}

/// Whether giving the rows of `from` to `to` would put two rows under one key.
pub(crate) fn rows_collide<T: DocRow>(rows: &Vec<T>, from: &String, to: &String) -> (answer:
    bool) where T::V: OfDocument
    ensures
        answer == collides(views(rows@), from@, to@),
{
    let ghost table = views(rows@);
    let mut i: usize = 0;
    while i < rows.len()
        invariant
            i <= rows.len(),
            table == views(rows@),
            forall|a: int, b: int|
                0 <= a < i && 0 <= b < table.len() ==> !((#[trigger] table[a]).doc_id() == from@ && (
                #[trigger] table[b]).doc_id() == to@ && table[a].rest() == table[b].rest()),
        decreases rows.len() - i,
    {
        if rows[i].is_of(from) {
            let mut j: usize = 0;
            while j < rows.len()
                invariant
                    j <= rows.len(),
                    i < rows.len(),
                    table == views(rows@),
                    table[i as int].doc_id() == from@,
                    forall|b: int|
                        0 <= b < j ==> !((#[trigger] table[b]).doc_id() == to@ && table[i as int].rest()
                            == table[b].rest()),
                decreases rows.len() - j,
            {
                if rows[j].is_of(to) && rows[i].same_rest(&rows[j]) {
                    assert(table[i as int].doc_id() == from@ && table[j as int].doc_id() == to@
                        && table[i as int].rest() == table[j as int].rest());
                    return true;
                }
                j += 1;
            }
        }
        i += 1;
    }
    false
}

/// Gives every row of `from` to `to`.
pub(crate) fn relabel_rows<T: DocRow>(rows: &mut Vec<T>, from: &String, to: &String) where
    T::V: OfDocument,

    ensures
        views(final(rows)@) == relabel(views(old(rows)@), from@, to@),
{
    let ghost before = views(rows@);
    let mut i: usize = 0;
    while i < rows.len()
        invariant
            i <= rows.len(),
            rows.len() == before.len(),
            forall|k: int| 0 <= k < i ==> (#[trigger] rows[k])@ == relabel_row(before[k], from@, to@),
            forall|k: int| i <= k < rows.len() ==> (#[trigger] rows[k])@ == before[k],
        decreases rows.len() - i,
    {
        if rows[i].is_of(from) {
            rows[i].rename(to.clone());
        }
        i += 1;
    }
    proof {
        assert(views(rows@) =~= relabel(before, from@, to@));
    }
}

} // verus!
