//! Link resolution and download orchestration for a streaming-service exporter.
//!
//! The crate holds the decisions of the pipeline: parsing links, building the
//! deduplicated work queue, choosing an encoding, naming files, and stepping
//! through acquisition and delivery. Network, process and file-system work is
//! left to the caller, which feeds the outcomes back in as plain values.

pub mod acquire;
pub mod delivery;
pub mod errors;
pub mod files;
pub mod ids;
pub mod kinds;
pub mod links;
pub mod naming;
pub mod orchestrator;
pub mod queue;
pub mod text;
