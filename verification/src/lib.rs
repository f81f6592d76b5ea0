//! Core engine of a desktop application that supervises long-running worker
//! processes: it spawns a worker, demultiplexes its line-oriented output into
//! typed events, tracks it for cooperative cancellation, classifies its exit
//! status, and reconciles versioned output directories with that outcome.
//!
//! The surrounding application performs the actual I/O (spawning, signalling,
//! filesystem changes) and feeds its observations to the decision logic here.

pub mod clock;
pub mod events;
pub mod exit;
pub mod listing;
pub mod outdir;
pub mod paths;
pub mod plans;
pub mod registry;
pub mod strings;
pub mod supervisor;
