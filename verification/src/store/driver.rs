//! What is decided between two statements where the rows lie in a database
//! outside: the one who runs the statements asks here what to do next.
use vstd::prelude::*;
use super::schema::INIT_V2;
use super::state::MAX_PUSH_RETRIES;

verus! {

/// One try at storing an update: the timestamp that is tried, and how often
/// the timestamp was moved on before.
#[derive(Clone, Copy, Debug, PartialEq, Eq, Structural)]
pub struct Attempt {
    pub timestamp: i64,
    pub retries: i64,
}

/// The first try for an update that arrives at `now`.
pub fn first_attempt(now: i64) -> (attempt: Attempt)
    ensures
        attempt == (Attempt { timestamp: now, retries: 0 }),
{
    Attempt { timestamp: now, retries: 0 }
}

/// The try that follows one that met a conflict: one millisecond later; none
/// after `MAX_PUSH_RETRIES` such steps, and none where time itself ends.
pub fn next_attempt(failed: Attempt) -> (next: Option<Attempt>)
    ensures
        next == (if failed.retries < MAX_PUSH_RETRIES && failed.timestamp < i64::MAX {
            Some(Attempt { timestamp: (failed.timestamp + 1) as i64, retries: (failed.retries + 1) as i64 })
        } else {
            None
        }),
{
    if failed.retries < MAX_PUSH_RETRIES && failed.timestamp < i64::MAX {
        Some(Attempt { timestamp: failed.timestamp + 1, retries: failed.retries + 1 })
    } else {
        None
    }
}

/// What recording a workspace asks of the rows.
#[derive(Debug, PartialEq, Eq)]
pub enum SpaceIdChange {
    /// The store belongs to the workspace already: nothing is written.
    Keep,
    /// The store belongs to none yet: the workspace is recorded.
    Record,
    /// The store belonged to another workspace: the workspace is recorded,
    /// and the rows of the document named after the old one go to the
    /// document named after the new one.
    Relabel { from: String },
}

/// A change as the contracts see it.
pub enum ChangeView {
    Keep,
    Record,
    Relabel { from: Seq<char> },
}

impl View for SpaceIdChange {
    type V = ChangeView;

    open spec fn view(&self) -> ChangeView {
        match self {
            SpaceIdChange::Keep => ChangeView::Keep,
            SpaceIdChange::Record => ChangeView::Record,
            SpaceIdChange::Relabel { from } => ChangeView::Relabel { from: from@ },
        }
    }
}

/// What recording the workspace `wanted` asks of a store that belongs to
/// `current`.
pub fn space_id_change(current: Option<&String>, wanted: &String) -> (change: SpaceIdChange)
    ensures
        change@ == (match current {
            None => ChangeView::Record,
            Some(current) => if current@ == wanted@ {
                ChangeView::Keep
            } else {
                ChangeView::Relabel { from: current@ }
            },
        }),
{
    match current {
        None => SpaceIdChange::Record,
        Some(current) => if *current == *wanted {
            SpaceIdChange::Keep
        } else {
            SpaceIdChange::Relabel { from: current.clone() }
        },
    }
}

/// Whether a store whose oldest migration bears this name is of this schema
/// generation.
pub fn is_this_generation(oldest_migration: &str) -> (answer: bool)
    ensures
        answer == (oldest_migration@ == INIT_V2@),
{
    String::from_str(oldest_migration) == String::from_str(INIT_V2)
}

/// Whether a write of a snapshot was applied, by the number of rows that the
/// statement touched: it touches the one row of the document, or none.
pub fn snapshot_applied(rows_affected: u64) -> (applied: bool)
    ensures
        applied == (rows_affected == 1),
{
    rows_affected == 1
}

/// The number of rows that a statement removed, as the engine reports it: the
/// lowest thirty-two bits of the count.
pub fn removed_count(rows_affected: u64) -> (count: u32)
    ensures
        count == rows_affected as u32,
{
    #[verifier::truncate]
    (rows_affected as u32)
}

} // verus!
