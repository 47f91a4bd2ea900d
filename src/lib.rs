//! Ingestion of player rankings and profiles from two federations into a
//! keyed player store: the store and its merge rules, the bounded batching
//! of fetches, the ingestion jobs as state machines that a runner drives,
//! the single-flight job supervisor and the progress tracker.

use vstd::prelude::*;

pub mod background;
pub mod dtfb;
pub mod dtfb_job;
pub mod entry;
pub mod fetcher;
pub mod ingest;
pub mod itsf;
pub mod job;
pub mod models;
pub mod national;
pub mod request;
pub mod store;
pub mod summary;
pub mod supervisor;
pub mod text;

verus! {

} // verus!
