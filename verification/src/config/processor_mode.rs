//! How the processor runs: from a bootstrap version, as a backfill over a
//! range of versions, or for testing.
use vstd::prelude::*;

verus! {

/// A regular run, starting no earlier than `initial_starting_version`.
#[derive(Debug, Clone, PartialEq, Eq)]
pub struct BootStrapConfig {
    pub initial_starting_version: u64,
}

/// A backfill of versions from `initial_starting_version` up to
/// `ending_version`.
#[derive(Debug, Clone, PartialEq, Eq)]
pub struct BackfillConfig {
    pub backfill_id: String,
    pub initial_starting_version: u64,
    pub ending_version: Option<u64>,
    /// Start the backfill over even if a checkpoint exists.
    pub overwrite_checkpoint: bool,
}

/// A test run over a fixed range of versions.
#[derive(Debug, Clone, PartialEq, Eq)]
pub struct TestingConfig {
    pub override_starting_version: u64,
    pub ending_version: Option<u64>,
}

/// The mode the processor runs in.
#[derive(Debug, Clone, PartialEq, Eq)]
pub enum ProcessorMode {
    Default(BootStrapConfig),
    Backfill(BackfillConfig),
    Testing(TestingConfig),
}

} // verus!
