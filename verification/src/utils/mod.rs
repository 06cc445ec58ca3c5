//! Block timestamps and helpers for marketplace resources.
use vstd::prelude::*;

pub mod marketplace_resource_utils;
pub mod processor_status_saver;
pub mod starting_version;

verus! {

/// Latest timestamp (in seconds) a block may carry: 9999-12-31 23:59:59.
pub const MAX_TIMESTAMP_SECS: i64 = 253_402_300_799;

/// A transaction timestamp as the chain reports it.
#[derive(Debug, Clone, Copy, PartialEq, Eq)]
pub struct Timestamp {
    pub seconds: i64,
    pub nanos: i32,
}

/// Whether chrono accepts `secs` seconds and `nanos` nanoseconds since the
/// Unix epoch as a date and time.
pub uninterp spec fn naive_datetime_valid(secs: i64, nanos: u32) -> bool;

/// chrono's text for the date and time `secs`/`nanos` after the Unix epoch
/// (`NaiveDateTime`'s `Display`).
pub uninterp spec fn naive_datetime_text(secs: i64, nanos: u32) -> Seq<char>;

/// Asks `chrono::NaiveDateTime::from_timestamp_opt` whether it accepts the
/// time. The contract names the answer, and states what chrono's code checks
/// of the time of day (`NaiveTime::from_num_seconds_from_midnight_opt`: a
/// nanosecond count below two seconds, past one second only in the last
/// second of a minute) and that every time in the years 1 to 9999 has a
/// date. The exact bounds of chrono's date range (about 262,000 years either
/// side of the common era) are not stated.
#[verifier::external_body]
fn chrono_accepts(secs: i64, nanos: u32) -> (r: bool)
    ensures
        r == naive_datetime_valid(secs, nanos),
        r ==> nanos < 2_000_000_000 && (nanos >= 1_000_000_000 ==> secs % 60 == 59),
        -62_135_596_800 <= secs <= 253_402_300_799 && nanos < 2_000_000_000 && (nanos
            >= 1_000_000_000 ==> secs % 60 == 59) ==> r,
{
    #[allow(deprecated)]
    chrono::NaiveDateTime::from_timestamp_opt(secs, nanos).is_some()
}

/// Formats the time with chrono's `Display` for `NaiveDateTime`. The
/// contract names the text; its format is chrono's.
#[verifier::external_body]
fn chrono_text(secs: i64, nanos: u32) -> (r: String)
    requires
        naive_datetime_valid(secs, nanos),
    ensures
        r@ == naive_datetime_text(secs, nanos),
{
    #[allow(deprecated)]
    chrono::NaiveDateTime::from_timestamp_opt(secs, nanos).unwrap().to_string()
}

/// chrono's `Debug` text for the date and time `secs`/`nanos` after the
/// Unix epoch, which is also how it serializes a `NaiveDateTime`.
pub uninterp spec fn naive_datetime_debug_text(secs: i64, nanos: u32) -> Seq<char>;

/// Formats the time with chrono's `Debug` for `NaiveDateTime`. The contract
/// names the text; its format is chrono's.
#[verifier::external_body]
fn chrono_debug_text(secs: i64, nanos: u32) -> (r: String)
    requires
        naive_datetime_valid(secs, nanos),
    ensures
        r@ == naive_datetime_debug_text(secs, nanos),
{
    #[allow(deprecated)]
    format!("{:?}", chrono::NaiveDateTime::from_timestamp_opt(secs, nanos).unwrap())
}

/// A block time that chrono accepts: seconds and nanoseconds since the Unix
/// epoch.
#[derive(Debug, Clone, Copy, PartialEq, Eq)]
pub struct BlockTimestamp {
    seconds: i64,
    nanos: u32,
}

impl BlockTimestamp {
    #[verifier::type_invariant]
    spec fn inv(self) -> bool {
        naive_datetime_valid(self.seconds, self.nanos)
    }

    pub closed spec fn secs(self) -> i64 {
        self.seconds
    }

    pub closed spec fn nsecs(self) -> u32 {
        self.nanos
    }

    /// The time `seconds`/`nanos`, if chrono accepts it.
    pub fn new(seconds: i64, nanos: u32) -> (r: Option<BlockTimestamp>)
        ensures
            r is Some <==> naive_datetime_valid(seconds, nanos),
            r matches Some(t) ==> t.secs() == seconds && t.nsecs() == nanos,
    {
        if chrono_accepts(seconds, nanos) {
            Some(BlockTimestamp { seconds, nanos })
        } else {
            None
        }
    }

    /// Whole seconds since the Unix epoch.
    pub fn seconds(&self) -> (r: i64)
        ensures
            r == self.secs(),
    {
        self.seconds
    }

    /// Nanoseconds past the second.
    pub fn nanos(&self) -> (r: u32)
        ensures
            r == self.nsecs(),
    {
        self.nanos
    }

    /// chrono's `Debug` text for this time.
    pub fn to_debug_string(&self) -> (r: String)
        ensures
            r@ == naive_datetime_debug_text(self.secs(), self.nsecs()),
    {
        proof {
            use_type_invariant(self);
        }
        chrono_debug_text(self.seconds, self.nanos)
    }

    /// chrono's text for this time.
    pub fn to_string(&self) -> (r: String)
        ensures
            r@ == naive_datetime_text(self.secs(), self.nsecs()),
    {
        proof {
            use_type_invariant(self);
        }
        chrono_text(self.seconds, self.nanos)
    }
}

/// Two block times with the same seconds and nanoseconds are the same.
pub proof fn lemma_block_timestamp_ext(a: BlockTimestamp, b: BlockTimestamp)
    requires
        a.secs() == b.secs(),
        a.nsecs() == b.nsecs(),
    ensures
        a == b,
{
}

/// The block time of a transaction timestamp that `parse_timestamp`
/// accepts.
pub open spec fn block_time_of(ts: Timestamp) -> BlockTimestamp {
    choose|t: BlockTimestamp| t.secs() == clamped_timestamp(ts).0 && t.nsecs() == clamped_timestamp(ts).1
}

/// The seconds and nanoseconds that `parse_timestamp` hands to chrono: a
/// timestamp at or past `MAX_TIMESTAMP_SECS` becomes exactly that second.
pub open spec fn clamped_timestamp(ts: Timestamp) -> (i64, u32) {
    if ts.seconds >= MAX_TIMESTAMP_SECS {
        (MAX_TIMESTAMP_SECS, 0)
    } else {
        (ts.seconds, ts.nanos as u32)
    }
}

/// Whether `parse_timestamp` accepts `ts`.
pub open spec fn timestamp_parses(ts: Timestamp) -> bool {
    naive_datetime_valid(clamped_timestamp(ts).0, clamped_timestamp(ts).1)
}

/// The block time of a transaction timestamp: times at or past
/// `MAX_TIMESTAMP_SECS` are clamped to it. The timestamp must be one chrono
/// accepts (after clamping).
pub fn parse_timestamp(ts: &Timestamp, version: i64) -> (r: BlockTimestamp)
    requires
        timestamp_parses(*ts),
    ensures
        r.secs() == clamped_timestamp(*ts).0,
        r.nsecs() == clamped_timestamp(*ts).1,
        r == block_time_of(*ts),
{
    match try_parse_timestamp(ts) {
        Some(t) => {
            proof {
                let c = block_time_of(*ts);
                assert(t.secs() == clamped_timestamp(*ts).0 && t.nsecs() == clamped_timestamp(*ts).1);
                lemma_block_timestamp_ext(t, c);
            }
            t
        },
        None => {
            assert(false);
            BlockTimestamp::new(0, 0).unwrap()
        },
    }
}

/// `parse_timestamp`, or `None` where chrono refuses the (clamped) time.
pub fn try_parse_timestamp(ts: &Timestamp) -> (r: Option<BlockTimestamp>)
    ensures
        r is Some <==> timestamp_parses(*ts),
        r matches Some(t) ==> t.secs() == clamped_timestamp(*ts).0 && t.nsecs()
            == clamped_timestamp(*ts).1,
{
    if ts.seconds >= MAX_TIMESTAMP_SECS {
        BlockTimestamp::new(MAX_TIMESTAMP_SECS, 0)
    } else {
        BlockTimestamp::new(ts.seconds, ts.nanos as u32)
    }
}

} // verus!
