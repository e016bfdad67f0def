//! The native core of a local-first workspace client: the storage engine that
//! keeps a workspace's documents, and the helpers that the client's other
//! native parts share.
pub mod clock;
pub mod doc_loader;
pub mod hashcash;
pub mod media;
pub mod mobile;
pub mod store;
pub mod text;
