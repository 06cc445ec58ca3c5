//! Where a processor records its progress: the processor status table for a
//! regular run; nothing yet for a backfill.
use crate::steps::processor_status_saver_step::ProcessorStatus;
use crate::utils::BlockTimestamp;
use vstd::prelude::*;

verus! {

/// Where progress is saved, through the database pool `P`.
pub enum ProcessorStatusSaverEnum<P> {
    /// The processor status table, under the processor's name.
    Postgres { conn_pool: P, processor_name: String },
    /// A backfill of the versions between the given bounds, under its alias.
    Backfill {
        conn_pool: P,
        backfill_alias: String,
        backfill_start_version: Option<u64>,
        backfill_end_version: Option<u64>,
    },
}

/// The saver of a processor: a backfill saver when the configuration has a
/// backfill alias (with the stream's starting and ending versions as its
/// bounds), else the saver of the processor status table.
pub fn get_processor_status_saver<P>(
    conn_pool: P,
    processor_name: String,
    backfill_alias: Option<String>,
    starting_version: Option<u64>,
    request_ending_version: Option<u64>,
) -> (r: ProcessorStatusSaverEnum<P>)
    ensures
        backfill_alias is None ==> r == (ProcessorStatusSaverEnum::Postgres { conn_pool, processor_name }),
        backfill_alias matches Some(a) ==> r == (ProcessorStatusSaverEnum::Backfill {
            conn_pool,
            backfill_alias: a,
            backfill_start_version: starting_version,
            backfill_end_version: request_ending_version,
        }),
{
    match backfill_alias {
        Some(alias) => ProcessorStatusSaverEnum::Backfill {
            conn_pool,
            backfill_alias: alias,
            backfill_start_version: starting_version,
            backfill_end_version: request_ending_version,
        },
        None => ProcessorStatusSaverEnum::Postgres { conn_pool, processor_name },
    }
}

impl<P> ProcessorStatusSaverEnum<P> {
    /// The status row to upsert after a batch that ended at `end_version`
    /// (block time `end_timestamp`), written only where it does not go back
    /// in versions (what the table then holds is `processor_status_after`);
    /// nothing for a backfill.
    pub fn save_processor_status_with_optional_table_names(
        &self,
        end_version: u64,
        end_timestamp: Option<BlockTimestamp>,
        table_name: Option<String>,
    ) -> (r: Option<ProcessorStatus>)
        ensures
            (r is Some) == (self is Postgres),
            (self is Postgres) ==> (r->0.processor@ == self->processor_name@
                && r->0.last_success_version == end_version as i64
                && r->0.last_transaction_timestamp == end_timestamp),
    {
        match self {
            ProcessorStatusSaverEnum::Postgres { processor_name, .. } => Some(
                ProcessorStatus {
                    processor: processor_name.clone(),
                    last_success_version: #[verifier::truncate] (end_version as i64),
                    last_transaction_timestamp: end_timestamp,
                },
            ),
            ProcessorStatusSaverEnum::Backfill { .. } => None,
        }
    }
}

} // verus!
