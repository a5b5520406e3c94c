//! A store of RSS/Atom feeds organised into groups, and the engine that crawls them.
//!
//! - [`model`]: feeds, groups, their links and the entries of a feed.
//! - [`document`]: what the network returned for a feed's address, and the parsed
//!   document.
//! - [`store_view`]: the mathematical model of a store, its consistency and its
//!   operations.
//! - [`store`]: the store itself; [`snapshot`]: its contents, for saving and loading.
//! - [`crawl`]: one update cycle of one feed.
//! - [`scheduler`]: the decisions of the run-loop.
//! - [`cli`]: the management commands.
//! - [`table`]: the tables that list feeds and groups.
//! - [`error`]: the failures.
//!
//! The library neither fetches nor parses, prints nor waits: its caller hands it what
//! the network and the parser returned and the current time, and carries out what the
//! library decides.

pub mod cli;
pub mod crawl;
pub mod document;
pub mod error;
pub mod model;
pub mod scheduler;
pub mod snapshot;
pub mod store;
pub mod store_view;
pub mod table;
