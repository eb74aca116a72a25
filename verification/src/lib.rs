//! A key-value record store layered on an append-only, position-ordered blob
//! log.
//!
//! The store is in [`database`], with its metadata in [`metadata`], its
//! records in [`record`], the classification of the log's blobs in [`blob`],
//! the walk over log positions in [`scanner`] and [`window`], the exchange
//! with the ledger in [`protocol`], and what holds of it all in [`laws`].
//! [`command`] holds the commands of the store's prompt. [`game`] and
//! [`board`] hold the rules of the chess demo that comes with the store.

pub mod blob;
pub mod board;
pub mod command;
pub mod database;
pub mod error;
pub mod game;
pub mod laws;
pub mod metadata;
pub mod namespace;
pub mod protocol;
pub mod record;
pub mod scanner;
pub mod window;
