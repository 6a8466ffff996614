//! Location indexing: rule-driven directory walking, checkpointed batch jobs
//! and the paired row / replication writes that record what a walk found.
//!
//! The library decides and computes; it never touches a disk, a store or a
//! clock. Whoever embeds it reads what the library asks for and hands the
//! answers back as plain values.
//!
//! - `rules`, `glob`, `codec`: the rules of a location, from their stored
//!   form to the compiled set that answers for every path.
//! - `walk`, `file_path`: from a snapshot of a directory tree to the entries
//!   that are indexed, parents before children.
//! - `job`, `manager`, `worker`, `report`, `progress`: jobs as queues of
//!   steps that stop and go on between steps, the index that holds back a
//!   second submission of the same work, and debounced progress.
//! - `indexer`, `indexer_job`, `sync`, `store`: the indexer job, what one of
//!   its steps writes, and the table that skips what is already there.
//! - `routes`, `handler`, `explorer`, `online`, `location`, `error`: what
//!   the request layer calls, from the name of a procedure to its handler
//!   and on, step by step, and how failures are told to it.

pub mod codec;
pub mod error;
pub mod explorer;
pub mod file_path;
pub mod glob;
pub mod handler;
pub mod indexer;
pub mod indexer_job;
pub mod job;
pub mod location;
pub mod manager;
pub mod online;
pub mod progress;
pub mod report;
pub mod routes;
pub mod rules;
pub mod store;
pub mod sync;
pub mod text;
pub mod walk;
pub mod worker;
