//! Collects the releases of a list of GitHub repositories into a local store.
//!
//! The library holds the logic of the collector: repository keys, release
//! records and their text forms, configuration updates, the decisions of a
//! synchronisation run, the paging of the GitHub API and the daemon's schedule.
//! Reading and writing files, the database, the network and the clock is left
//! to the program around it, which hands the results back as plain values.
pub mod cli;
pub mod config;
pub mod daemon;
pub mod db;
pub mod error;
pub mod github;
pub mod sync;
pub mod text;

pub use error::Error;

