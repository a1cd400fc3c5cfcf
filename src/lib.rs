//! Live monitoring of development-tool processes: classification by name,
//! bookkeeping of tracked processes across polls with running peak usage,
//! and aggregate statistics.
pub mod classifier;
pub mod monitor;
pub mod laws;
pub mod gesture;
