//! Checkpointing of processed versions: what to record after a batch, and
//! where to start and end a run given what was recorded.
use crate::config::processor_mode::{BackfillConfig, BootStrapConfig, ProcessorMode, TestingConfig};
use crate::text::{concat_str, str_to_string};
use crate::utils::BlockTimestamp;
use vstd::prelude::*;

verus! {

/// Name under which the processor records its progress.
pub const PROCESSOR_NAME: &'static str = "nft_marketplace_processor";

/// A row of the processor status table.
#[derive(Debug, Clone, PartialEq, Eq)]
pub struct ProcessorStatus {
    pub processor: String,
    pub last_success_version: i64,
    pub last_transaction_timestamp: Option<BlockTimestamp>,
}

/// Progress of a backfill.
#[derive(Debug, Clone, Copy, PartialEq, Eq, Structural)]
pub enum BackfillStatus {
    InProgress,
    Complete,
}

/// A row of the backfill status table.
#[derive(Debug, Clone, PartialEq, Eq)]
pub struct BackfillProcessorStatus {
    pub backfill_alias: String,
    pub backfill_status: BackfillStatus,
    pub last_success_version: i64,
    pub last_transaction_timestamp: Option<BlockTimestamp>,
    pub backfill_start_version: i64,
    pub backfill_end_version: Option<i64>,
}

/// Where processor progress is saved: the status table of a Postgres
/// database reached through `conn_pool`.
pub enum ProcessorStatusSaverEnum<P> {
    Postgres { conn_pool: P, processor_name: String },
}

/// The status saver of the NFT marketplace processor over `conn_pool`.
pub fn get_processor_status_saver<P>(conn_pool: P) -> (r: ProcessorStatusSaverEnum<P>)
    ensures
        r matches ProcessorStatusSaverEnum::Postgres { conn_pool: c, processor_name: n } && c
            == conn_pool && n@ == PROCESSOR_NAME@,
{
    ProcessorStatusSaverEnum::Postgres {
        conn_pool,
        processor_name: str_to_string(PROCESSOR_NAME),
    }
}

impl<P> ProcessorStatusSaverEnum<P> {
    /// The status row to upsert after a batch ending at `end_version`,
    /// written only where it does not go back in versions (what the table
    /// then holds is `processor_status_after`).
    pub fn status_to_save(&self, end_version: u64, end_timestamp: Option<BlockTimestamp>) -> (r:
        ProcessorStatus)
        ensures
            r.processor@ == (match self {
                ProcessorStatusSaverEnum::Postgres { processor_name, .. } => processor_name@,
            }),
            r.last_success_version == end_version as i64,
            r.last_transaction_timestamp == end_timestamp,
    {
        match self {
            ProcessorStatusSaverEnum::Postgres { processor_name, .. } => ProcessorStatus {
                processor: processor_name.clone(),
                last_success_version: end_version as i64,
                last_transaction_timestamp: end_timestamp,
            },
        }
    }
}

/// The status saver of a processor run in a given mode.
pub struct PostgresProcessorStatusSaver<P> {
    pub processor_name: String,
    pub processor_mode: ProcessorMode,
    pub db_pool: P,
}

impl<P> PostgresProcessorStatusSaver<P> {
    pub fn new(processor_name: String, processor_mode: ProcessorMode, db_pool: P) -> (r: Self)
        ensures
            r.processor_name == processor_name,
            r.processor_mode == processor_mode,
            r.db_pool == db_pool,
    {
        PostgresProcessorStatusSaver { processor_name, processor_mode, db_pool }
    }
}

/// What saving progress writes.
#[derive(Debug, Clone, PartialEq, Eq)]
pub enum StatusWrite {
    /// Upsert this row of the processor status table, only where the stored
    /// version is not newer (`processor_status_after`).
    Regular(ProcessorStatus),
    /// Upsert this row of the backfill status table; with `only_if_newer`,
    /// only where the stored version is not newer (`backfill_status_after`).
    Backfill { status: BackfillProcessorStatus, only_if_newer: bool },
    /// Record nothing (testing).
    Nothing,
}

/// The processor status row stored after upserting `row` (for the same
/// processor) over `stored`: `row` when nothing is stored or the stored
/// version is not newer; the stored row otherwise.
pub open spec fn processor_status_after(stored: Option<ProcessorStatus>, row: ProcessorStatus) -> ProcessorStatus {
    match stored {
        Some(s) => if s.last_success_version <= row.last_success_version {
            row
        } else {
            s
        },
        None => row,
    }
}

/// The processor status row stored after upserting `rows` in order.
pub open spec fn processor_status_after_all(stored: Option<ProcessorStatus>, rows: Seq<ProcessorStatus>) -> Option<ProcessorStatus>
    decreases rows.len(),
{
    if rows.len() == 0 {
        stored
    } else {
        Some(processor_status_after(processor_status_after_all(stored, rows.drop_last()), rows.last()))
    }
}

/// The backfill status row stored after upserting `row` (for the same
/// alias) over `stored`: with `only_if_newer`, as for the processor status;
/// without it, `row` in any case.
pub open spec fn backfill_status_after(
    stored: Option<BackfillProcessorStatus>,
    row: BackfillProcessorStatus,
    only_if_newer: bool,
) -> BackfillProcessorStatus {
    match stored {
        Some(s) => if !only_if_newer || s.last_success_version <= row.last_success_version {
            row
        } else {
            s
        },
        None => row,
    }
}

/// Saving progress never takes the recorded version back: after an upsert
/// the stored version is the later of the stored one and the written one,
/// and writing the same row again changes nothing.
pub proof fn lemma_processor_status_never_goes_back(stored: Option<ProcessorStatus>, row: ProcessorStatus)
    ensures
        processor_status_after(stored, row).last_success_version >= row.last_success_version,
        stored matches Some(s) ==> processor_status_after(stored, row).last_success_version
            >= s.last_success_version,
        stored matches Some(s) ==> (processor_status_after(stored, row) == row <==> s.last_success_version
            <= row.last_success_version || s == row),
        processor_status_after(Some(processor_status_after(stored, row)), row) == processor_status_after(
            stored,
            row,
        ),
{
}

/// Over any run of saves, the recorded version never decreases: after the
/// first `j` upserts it is no later than after the first `k >= j`, and
/// after all of them it is at least every written version.
pub proof fn lemma_processor_status_monotonic(
    stored: Option<ProcessorStatus>,
    rows: Seq<ProcessorStatus>,
    j: int,
    k: int,
)
    requires
        0 <= j <= k <= rows.len(),
        processor_status_after_all(stored, rows.take(j)) is Some,
    ensures
        processor_status_after_all(stored, rows.take(k)) matches Some(b)
            && b.last_success_version >= processor_status_after_all(stored, rows.take(j))->0.last_success_version,
        0 < k ==> processor_status_after_all(stored, rows.take(k))->0.last_success_version
            >= rows[k - 1].last_success_version,
    decreases k - j,
{
    if j < k {
        lemma_processor_status_monotonic(stored, rows, j, k - 1);
        assert(rows.take(k).drop_last() =~= rows.take(k - 1));
        assert(rows.take(k).last() == rows[k - 1]);
    } else if 0 < k {
        assert(rows.take(k).drop_last() =~= rows.take(k - 1));
        assert(rows.take(k).last() == rows[k - 1]);
    }
}

/// A backfill that may not overwrite its checkpoint never takes it back; one
/// that may always records the written row.
pub proof fn lemma_backfill_status_after(
    stored: Option<BackfillProcessorStatus>,
    row: BackfillProcessorStatus,
    only_if_newer: bool,
)
    ensures
        only_if_newer ==> backfill_status_after(stored, row, only_if_newer).last_success_version
            >= row.last_success_version,
        only_if_newer ==> (stored matches Some(s) ==> backfill_status_after(stored, row, only_if_newer).last_success_version
            >= s.last_success_version),
        !only_if_newer ==> backfill_status_after(stored, row, only_if_newer) == row,
{
}

/// Whether a backfill that reached `last_success_version` is complete.
pub open spec fn backfill_complete(last_success_version: i64, ending_version: Option<u64>) -> bool {
    ending_version matches Some(e) && last_success_version >= e as i64
}

/// The alias under which a backfill records its progress.
pub open spec fn backfill_alias(processor_id: Seq<char>, backfill_id: Seq<char>) -> Seq<char> {
    processor_id + "_"@ + backfill_id
}

/// What to record after a batch that ended at `end_version` (at
/// `end_timestamp`): the processor status in default mode; the backfill
/// status, complete once `ending_version` is reached, in backfill mode;
/// nothing in testing mode.
pub fn save_processor_status(
    processor_id: &str,
    processor_mode: &ProcessorMode,
    end_version: u64,
    end_timestamp: Option<BlockTimestamp>,
) -> (r: StatusWrite)
    ensures
        match *processor_mode {
            ProcessorMode::Default(_) => r == StatusWrite::Regular(
                ProcessorStatus {
                    processor: r->Regular_0.processor,
                    last_success_version: end_version as i64,
                    last_transaction_timestamp: end_timestamp,
                },
            ) && r->Regular_0.processor@ == processor_id@,
            ProcessorMode::Backfill(c) => r matches StatusWrite::Backfill { status, only_if_newer }
                && only_if_newer == !c.overwrite_checkpoint && status.backfill_alias@
                == backfill_alias(processor_id@, c.backfill_id@) && status.backfill_status == (
            if backfill_complete(end_version as i64, c.ending_version) {
                BackfillStatus::Complete
            } else {
                BackfillStatus::InProgress
            }) && status.last_success_version == end_version as i64
                && status.last_transaction_timestamp == end_timestamp
                && status.backfill_start_version == c.initial_starting_version as i64
                && status.backfill_end_version == (match c.ending_version {
                Some(e) => Some(e as i64),
                None => None,
            }),
            ProcessorMode::Testing(_) => r == StatusWrite::Nothing,
        },
{
    let last_success_version: i64 = end_version as i64;
    match processor_mode {
        ProcessorMode::Default(_) => StatusWrite::Regular(
            ProcessorStatus {
                processor: str_to_string(processor_id),
                last_success_version,
                last_transaction_timestamp: end_timestamp,
            },
        ),
        ProcessorMode::Backfill(c) => {
            let mut alias = concat_str(processor_id, "_");
            alias.append(c.backfill_id.as_str());
            let complete = match c.ending_version {
                Some(e) => last_success_version >= e as i64,
                None => false,
            };
            let status = BackfillProcessorStatus {
                backfill_alias: alias,
                backfill_status: if complete {
                    BackfillStatus::Complete
                } else {
                    BackfillStatus::InProgress
                },
                last_success_version,
                last_transaction_timestamp: end_timestamp,
                backfill_start_version: c.initial_starting_version as i64,
                backfill_end_version: match c.ending_version {
                    Some(e) => Some(e as i64),
                    None => None,
                },
            };
            StatusWrite::Backfill { status, only_if_newer: !c.overwrite_checkpoint }
        },
        ProcessorMode::Testing(_) => StatusWrite::Nothing,
    }
}

/// A stored backfill status as read back.
#[derive(Debug, Clone, PartialEq, Eq)]
pub struct StoredBackfillStatus {
    pub backfill_alias: String,
    pub backfill_status: BackfillStatus,
    pub last_success_version: i64,
}

/// Where a run starts, and what it records first.
#[derive(Debug, Clone, PartialEq, Eq)]
pub struct StartingVersionPlan {
    /// The first version to process (`None`: nothing to process).
    pub starting_version: Option<u64>,
    /// A backfill status to write before starting (a backfill started over).
    pub reset_backfill: Option<BackfillProcessorStatus>,
    /// A backfill resumed from a checkpoint at this version.
    pub resumed_at: Option<u64>,
}

/// The version a run ends at: none in default mode; for a backfill, its
/// configured ending version, else the processor's recorded progress; for a
/// test run, its ending version, else its single starting version.
pub open spec fn end_version_spec(mode: ProcessorMode, stored_last_success_version: Option<i64>) -> Option<u64> {
    match mode {
        ProcessorMode::Default(_) => None,
        ProcessorMode::Backfill(c) => match c.ending_version {
            Some(e) => Some(e),
            None => match stored_last_success_version {
                Some(v) => Some(v as u64),
                None => None,
            },
        },
        ProcessorMode::Testing(c) => Some(
            match c.ending_version {
                Some(e) => e,
                None => c.override_starting_version,
            },
        ),
    }
}

/// The version a run ends at: none in default mode; the configured ending
/// version of a backfill, else the processor's recorded progress
/// (`stored_last_success_version`); the ending version of a test run, else
/// its single starting version.
pub fn get_end_version(processor_mode: &ProcessorMode, stored_last_success_version: Option<i64>) -> (r:
    Option<u64>)
    ensures
        r == end_version_spec(*processor_mode, stored_last_success_version),
{
    match processor_mode {
        ProcessorMode::Default(_) => None,
        ProcessorMode::Backfill(c) => match c.ending_version {
            Some(e) => Some(e),
            None => match stored_last_success_version {
                Some(v) => Some(v as u64),
                None => None,
            },
        },
        ProcessorMode::Testing(c) => Some(
            match c.ending_version {
                Some(e) => e,
                None => c.override_starting_version,
            },
        ),
    }
}

/// Where a run starts, given the processor's recorded progress
/// (`stored_last_success_version`) and the stored status of this backfill:
/// - default mode: the later of the recorded version and the configured
///   initial version;
/// - backfill mode: the configured initial version when nothing is stored;
///   the configured ending version when the stored backfill is complete and
///   may not be overwritten; the initial version, after resetting the stored
///   status, when it may be overwritten; otherwise one past the stored
///   version;
/// - testing mode: the configured starting version.
pub fn get_starting_version(
    processor_mode: &ProcessorMode,
    stored_last_success_version: Option<i64>,
    stored_backfill: Option<&StoredBackfillStatus>,
) -> (r: StartingVersionPlan)
    requires
        *processor_mode matches ProcessorMode::Backfill(c) ==> (stored_backfill matches Some(s) ==> (
        s.backfill_status == BackfillStatus::InProgress && !c.overwrite_checkpoint ==> (
        s.last_success_version as u64) < u64::MAX)),
    ensures
        match *processor_mode {
            ProcessorMode::Default(c) => r.starting_version == Some(
                match stored_last_success_version {
                    Some(v) => if (v as u64) > c.initial_starting_version {
                        v as u64
                    } else {
                        c.initial_starting_version
                    },
                    None => c.initial_starting_version,
                },
            ) && r.reset_backfill is None && r.resumed_at is None,
            ProcessorMode::Backfill(c) => match stored_backfill {
                None => r.starting_version == Some(c.initial_starting_version)
                    && r.reset_backfill is None && r.resumed_at is None,
                Some(s) => if s.backfill_status == BackfillStatus::Complete
                    && !c.overwrite_checkpoint {
                    r.starting_version == c.ending_version && r.reset_backfill is None
                        && r.resumed_at is None
                } else if c.overwrite_checkpoint {
                    &&& r.starting_version == Some(c.initial_starting_version)
                    &&& r.resumed_at is None
                    &&& r.reset_backfill matches Some(b) && b.backfill_alias == s.backfill_alias
                        && b.backfill_status == BackfillStatus::InProgress
                        && b.last_success_version == 0 && b.last_transaction_timestamp is None
                        && b.backfill_start_version == c.initial_starting_version as i64
                        && b.backfill_end_version == (match end_version_spec(
                        *processor_mode,
                        stored_last_success_version,
                    ) {
                        Some(e) => Some(e as i64),
                        None => None,
                    })
                } else {
                    r.starting_version == Some((s.last_success_version as u64 + 1) as u64)
                        && r.resumed_at == r.starting_version && r.reset_backfill is None
                },
            },
            ProcessorMode::Testing(c) => r.starting_version == Some(c.override_starting_version)
                && r.reset_backfill is None && r.resumed_at is None,
        },
{
    match processor_mode {
        ProcessorMode::Default(c) => {
            let v: u64 = match stored_last_success_version {
                Some(v) => if (v as u64) > c.initial_starting_version {
                    v as u64
                } else {
                    c.initial_starting_version
                },
                None => c.initial_starting_version,
            };
            StartingVersionPlan { starting_version: Some(v), reset_backfill: None, resumed_at: None }
        },
        ProcessorMode::Backfill(c) => match stored_backfill {
            None => StartingVersionPlan {
                starting_version: Some(c.initial_starting_version),
                reset_backfill: None,
                resumed_at: None,
            },
            Some(s) => {
                if s.backfill_status == BackfillStatus::Complete && !c.overwrite_checkpoint {
                    return StartingVersionPlan {
                        starting_version: c.ending_version,
                        reset_backfill: None,
                        resumed_at: None,
                    };
                }
                if c.overwrite_checkpoint {
                    let end = get_end_version(processor_mode, stored_last_success_version);
                    let status = BackfillProcessorStatus {
                        backfill_alias: s.backfill_alias.clone(),
                        backfill_status: BackfillStatus::InProgress,
                        last_success_version: 0,
                        last_transaction_timestamp: None,
                        backfill_start_version: c.initial_starting_version as i64,
                        backfill_end_version: match end {
                            Some(e) => Some(e as i64),
                            None => None,
                        },
                    };
                    return StartingVersionPlan {
                        starting_version: Some(c.initial_starting_version),
                        reset_backfill: Some(status),
                        resumed_at: None,
                    };
                }
                let starting_version: u64 = s.last_success_version as u64 + 1;
                StartingVersionPlan {
                    starting_version: Some(starting_version),
                    reset_backfill: None,
                    resumed_at: Some(starting_version),
                }
            },
        },
        ProcessorMode::Testing(c) => StartingVersionPlan {
            starting_version: Some(c.override_starting_version),
            reset_backfill: None,
            resumed_at: None,
        },
    }
}

/// A regular run never starts before its configured initial version.
pub proof fn lemma_default_start_not_before_initial(
    c: BootStrapConfig,
    stored: Option<i64>,
    r: StartingVersionPlan,
)
    requires
        r.starting_version == Some(
            match stored {
                Some(v) => if (v as u64) > c.initial_starting_version {
                    v as u64
                } else {
                    c.initial_starting_version
                },
                None => c.initial_starting_version,
            },
        ),
    ensures
        r.starting_version matches Some(v) && v >= c.initial_starting_version,
        stored matches Some(v) ==> r.starting_version->0 >= v as u64,
{
}

/// A backfill whose checkpoint reaches its ending version is recorded as
/// complete, and one without an ending version never is.
pub proof fn lemma_backfill_complete_iff_reached(last: i64, c: BackfillConfig)
    ensures
        c.ending_version is None ==> !backfill_complete(last, c.ending_version),
        c.ending_version matches Some(e) ==> (backfill_complete(last, c.ending_version) <==> last
            >= e as i64),
{
}

} // verus!
