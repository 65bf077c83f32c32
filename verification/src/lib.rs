//! Raft with witnesses: voters that take part in elections and commits without running a full Raft
//! instance, so that a cluster of two regular voters survives the loss of one.
//!
//! - [`witness`]: how a witness answers leaders and candidates, and what it persists.
//! - [`tracker`]: what a leader tracks. Within a subterm it replicates to a replication set, which
//!   leaves out the witness, or an inactive voter for which the witness then stands in.
//! - [`quorum`]: majorities of one configuration, or of two during a membership change.
//! - [`eraftpb`] and [`confchange`]: messages, records and membership changes.
//!
//! What holds in general, over several calls or any sequence of messages, is stated and proved in
//! [`witness::laws`], [`tracker::laws`] and [`quorum::laws`]. What each operation does, field by
//! field or by counting voters, is in the `effects` modules; what its callers can rely on, in the
//! `calls` modules.

pub mod confchange;
pub mod eraftpb;
pub mod quorum;
pub mod sets;
pub mod tracker;
pub mod witness;

pub use quorum::{JointConfig, MajorityConfig};
pub use tracker::{Progress, ProgressState, ProgressTracker};
pub use witness::{Witness, WitnessResponse, WitnessStorage};
