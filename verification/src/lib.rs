//! # Rust Monero Database Library
//!
//! Read and write access to the tables of a Monero blockchain database, as
//! `monerod` lays them out in LMDB.
//!
//! The library is in layers, leaves first:
//!
//! - [`schema`] names the tables and says how each is opened and ordered;
//!   [`order`] holds the orders themselves.
//! - [`bytes`] and [`record`] are the stored form of integers and records;
//!   [`consensus`] is what the `monero` crate says of blocks and
//!   transactions.
//! - [`lazy`] is a record that may not have been decoded yet.
//! - [`lookup`] turns a question into what the engine is asked, [`answer`]
//!   turns what the engine gave into what the caller is told, and [`write`]
//!   says what an insertion stores.
//! - [`engine`] is the `lmdb` crate, and [`sub_db`] and [`monero_db`] put the
//!   layers together around it.

pub mod answer;
pub mod bytes;
pub mod consensus;
pub mod engine;
pub mod error;
pub mod lazy;
pub mod lookup;
pub mod monero_db;
pub mod order;
pub mod record;
pub mod schema;
pub mod sub_db;
pub mod write;

pub use error::Error;
pub use monero_db::MoneroDB;
