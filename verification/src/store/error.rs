//! The failures that the engine and the pool report.
use vstd::prelude::*;

verus! {

/// Why the store refused a statement.
#[derive(Clone, Copy, Debug, PartialEq, Eq, Structural)]
pub enum StoreError {
    /// The store was closed.
    Closed,
    /// The schema is not there: the store was never connected.
    NoSchema,
    /// A write would have put two rows under one primary key.
    Conflict,
}

/// The failure of an operation.
#[derive(Clone, Copy, Debug, PartialEq, Eq, Structural)]
pub enum Error {
    /// The store refused a statement.
    Store(StoreError),
    /// The operation does not apply: the workspace was never connected.
    InvalidOperation,
}

impl Error {
    /// The failure in words, as the contracts see it.
    pub open spec fn text(self) -> Seq<char> {
        match self {
            Error::Store(StoreError::Closed) => "Sqlite Error: the store is closed"@,
            Error::Store(StoreError::NoSchema) => "Sqlite Error: the store has no schema"@,
            Error::Store(StoreError::Conflict) => "Sqlite Error: a row with this key is there already"@,
            Error::InvalidOperation => "Invalid operation"@,
        }
    }

    /// The failure in words.
    pub fn message(&self) -> (text: &'static str)
        ensures
            text@ == self.text(),
    {
        match self {
            Error::Store(StoreError::Closed) => "Sqlite Error: the store is closed",
            Error::Store(StoreError::NoSchema) => "Sqlite Error: the store has no schema",
            Error::Store(StoreError::Conflict) => "Sqlite Error: a row with this key is there already",
            Error::InvalidOperation => "Invalid operation",
        }
    }
}

} // verus!
