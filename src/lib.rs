//! Verified core of an audio-analysis pipeline: the job envelope protocol,
//! the result ingestor's state machine over a transactional result store,
//! and the worker-pool supervisor's dispatch and termination protocol.

pub mod metrics;
pub mod messages;
mod ids;
pub mod progress;
pub mod store;
pub mod supervisor;
pub mod error;
pub mod url;
