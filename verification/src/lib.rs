//! Resumable fetcher core for large binary data assets.
//!
//! The library holds the verified logic of a chunked, resumable download
//! job: chunk-layout arithmetic, the on-disk progress descriptor and its
//! reconciliation rules, batch bookkeeping for concurrent chunk fetches,
//! digest handling, materialization of the final artifact from completed
//! chunks, and the orchestrator's strategy and state decisions.
//!
//! All network and filesystem traffic stays outside: callers hand this
//! library plain values (byte buffers, flags, response bodies) and carry
//! out the actions it decides on.

pub mod assemble;
pub mod chunking;
pub mod digest;
pub mod errors;
pub mod orchestrate;
pub mod paths;
pub mod progress;
pub mod scheduler;
