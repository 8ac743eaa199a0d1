//! Core of a batched resource downloader: a batch of source URLs tied to a
//! collection name is fetched concurrently under a counting admission gate,
//! individual failures are tolerated and aggregated, and a failure report is
//! rendered (or a stale one retired) once the batch has drained.
//!
//! All decision logic lives here, verified; the surrounding process performs
//! the actual network, filesystem and database calls and feeds their results
//! back in as plain values.

pub mod digits;
pub mod job;
pub mod worker;
pub mod batch;
pub mod report;
pub mod query;
pub mod sim;
pub mod gate;
