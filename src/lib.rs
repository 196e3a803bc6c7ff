//! Incremental indexing and non-blocking search over a local file tree.
//!
//! The library holds the decisions of the indexing pipeline (crawl, content
//! hashing, change detection, batch building, transactional upsert) and of the
//! query path. The surrounding program performs the file-system, database and
//! embedding work that each step asks for, and hands the outcomes back.

pub mod crawler;
pub mod detect;
pub mod digest;
pub mod model;
pub mod query;
pub mod store;
pub mod transaction;
