//! The version a processor starts from.
use crate::config::processor_mode::ProcessorMode;
use crate::steps::processor_status_saver_step::{BackfillStatus, StoredBackfillStatus};
use vstd::prelude::*;

verus! {

/// The start of a run, as documented:
/// - a regular processor starts at the higher of its checkpoint
///   (`stored_last_success_version`) and the configured `starting_version`
///   (0 when not set), or at the latter when nothing is checkpointed;
/// - a backfill processor with a backfill in progress starts one past the
///   backfill's checkpoint;
/// - a backfill processor without one (nothing stored, or a complete
///   backfill) starts at the configured `starting_version` (0 when not set).
pub fn get_starting_version(
    processor_mode: &ProcessorMode,
    stored_last_success_version: Option<i64>,
    stored_backfill: Option<&StoredBackfillStatus>,
    starting_version: Option<u64>,
) -> (r: u64)
    requires
        *processor_mode is Backfill ==> (stored_backfill matches Some(s) ==> (s.backfill_status
            == BackfillStatus::InProgress ==> (s.last_success_version as u64) < u64::MAX)),
    ensures
        r == match *processor_mode {
            ProcessorMode::Backfill(_) => match stored_backfill {
                Some(s) => if s.backfill_status == BackfillStatus::InProgress {
                    (s.last_success_version as u64 + 1) as u64
                } else {
                    configured_start(starting_version)
                },
                None => configured_start(starting_version),
            },
            _ => match checkpoint_start(stored_last_success_version, starting_version) {
                Some(x) => x,
                None => configured_start(starting_version),
            },
        },
{
    match processor_mode {
        ProcessorMode::Backfill(_) => match stored_backfill {
            Some(s) => {
                if s.backfill_status == BackfillStatus::InProgress {
                    let checkpoint: u64 = #[verifier::truncate] (s.last_success_version as u64);
                    checkpoint + 1
                } else {
                    configured(starting_version)
                }
            },
            None => configured(starting_version),
        },
        _ => match get_starting_version_from_db(stored_last_success_version, starting_version) {
            Some(x) => x,
            None => configured(starting_version),
        },
    }
}

/// The configured starting version, 0 when not set.
pub open spec fn configured_start(starting_version: Option<u64>) -> u64 {
    match starting_version {
        Some(s) => s,
        None => 0,
    }
}

/// The start that a regular processor's checkpoint gives: nothing without a
/// checkpoint, else the higher of the checkpointed version and the
/// configured starting version.
pub open spec fn checkpoint_start(last_success_version: Option<i64>, starting_version: Option<u64>) -> Option<u64> {
    match last_success_version {
        None => None,
        Some(v) => Some(
            if (v as u64) >= configured_start(starting_version) {
                v as u64
            } else {
                configured_start(starting_version)
            },
        ),
    }
}

fn configured(starting_version: Option<u64>) -> (r: u64)
    ensures
        r == configured_start(starting_version),
{
    match starting_version {
        Some(s) => s,
        None => 0,
    }
}

/// The start that a checkpoint gives: nothing without a checkpoint, else
/// the higher of the checkpointed version and the configured starting
/// version (0 when not set).
pub fn get_starting_version_from_db(last_success_version: Option<i64>, starting_version: Option<u64>) -> (r:
    Option<u64>)
    ensures
        r == checkpoint_start(last_success_version, starting_version),
{
    match last_success_version {
        None => None,
        Some(v) => {
            let checkpoint: u64 = #[verifier::truncate] (v as u64);
            let configured: u64 = match starting_version {
                Some(s) => s,
                None => 0,
            };
            Some(if checkpoint >= configured { checkpoint } else { configured })
        },
    }
}

/// With a checkpoint, a regular run never starts before the configured
/// starting version, nor before its checkpoint.
pub proof fn lemma_checkpoint_start_not_before_config(v: i64, starting_version: Option<u64>)
    ensures
        checkpoint_start(Some(v), starting_version) matches Some(x) && x >= configured_start(starting_version)
            && x >= v as u64,
{
}

} // verus!
