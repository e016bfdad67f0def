//! The storage engine of one workspace and the pool that holds one engine per
//! workspace.
pub mod driver;
pub mod error;
pub mod keyed;
pub mod laws;
pub mod pool;
pub mod relabel;
pub mod rows;
pub mod schema;
pub mod select;
pub mod state;
pub mod storage;
pub mod table;
