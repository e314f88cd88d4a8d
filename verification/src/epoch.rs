//! The reader's clock and Unix time.
//!
//! The reader counts seconds from 2001-01-01T00:00:00Z. Everything else in
//! the crate works in Unix seconds, held in a [`Timestamp`] that is known to
//! name a representable calendar date.

use vstd::prelude::*;

verus! {

/// Seconds from the Unix epoch to 2001-01-01T00:00:00Z.
pub const CORE_EPOCH_OFFSET: i64 = 978_307_200;

/// Unix seconds of the first representable instant, -262143-01-01T00:00:00Z.
pub const MIN_UNIX_SECONDS: i64 = -8_334_601_228_800;

/// Unix seconds of the last representable instant, +262142-12-31T23:59:59Z.
pub const MAX_UNIX_SECONDS: i64 = 8_210_266_876_799;

/// Unix seconds of an instant that the reader's clock shows as `core_seconds`.
pub open spec fn to_unix(core_seconds: int) -> int {
    core_seconds + CORE_EPOCH_OFFSET
}

/// What the reader's clock shows at the instant `unix_seconds`.
pub open spec fn to_core_epoch(unix_seconds: int) -> int {
    unix_seconds - CORE_EPOCH_OFFSET
}

/// Whether `unix_seconds` names an instant that has a calendar date.
pub open spec fn representable(unix_seconds: int) -> bool {
    MIN_UNIX_SECONDS <= unix_seconds <= MAX_UNIX_SECONDS
}

/// An instant in UTC with second precision, always representable.
#[derive(Clone, Copy, Debug)]
pub struct Timestamp {
    secs: i64,
}

impl View for Timestamp {
    type V = int;

    closed spec fn view(&self) -> int {
        self.secs as int
    }
}

impl DeepView for Timestamp {
    type V = int;

    open spec fn deep_view(&self) -> int {
        self@
    }
}

impl Timestamp {
    #[verifier::type_invariant]
    spec fn in_range(self) -> bool {
        representable(self.secs as int)
    }

    /// The instant `secs` seconds after the Unix epoch, if it is representable.
    pub fn from_unix(secs: i64) -> (r: Option<Timestamp>)
        ensures
            r is Some <==> representable(secs as int),
            r matches Some(t) ==> t@ == secs,
    {
        if MIN_UNIX_SECONDS <= secs && secs <= MAX_UNIX_SECONDS {
            Some(Timestamp { secs })
        } else {
            None
        }
    }

    /// Seconds from the Unix epoch to this instant.
    pub fn unix_seconds(&self) -> (secs: i64)
        ensures
            secs == self@,
            representable(secs as int),
    {
        proof {
            use_type_invariant(self);
        }
        self.secs
    }

    /// What the reader's clock shows at this instant.
    pub fn core_seconds(&self) -> (core: i64)
        ensures
            core == to_core_epoch(self@),
    {
        timestamp_to_core_data(self.unix_seconds())
    }

    /// Whether this instant is strictly later than `other`.
    pub fn is_after(&self, other: &Timestamp) -> (later: bool)
        ensures
            later == (self@ > other@),
    {
        self.secs > other.secs
    }
}

/// The reader's clock at the instant `ts` seconds after the Unix epoch.
pub fn timestamp_to_core_data(ts: i64) -> (core: i64)
    requires
        i64::MIN <= to_core_epoch(ts as int),
    ensures
        core == to_core_epoch(ts as int),
{
    ts - CORE_EPOCH_OFFSET
}

/// The instant at which the reader's clock shows `ts`.
pub fn core_data_to_timestamp(ts: i64) -> (t: Timestamp)
    requires
        representable(to_unix(ts as int)),
    ensures
        t@ == to_unix(ts as int),
{
    Timestamp { secs: ts + CORE_EPOCH_OFFSET }
}

/// The instant at which the reader's clock shows `ts`, or `None` where that
/// instant is not representable.
pub fn checked_core_data_to_timestamp(ts: i64) -> (r: Option<Timestamp>)
    ensures
        r is Some <==> representable(to_unix(ts as int)),
        r matches Some(t) ==> t@ == to_unix(ts as int),
{
    if MIN_UNIX_SECONDS - CORE_EPOCH_OFFSET <= ts && ts <= MAX_UNIX_SECONDS - CORE_EPOCH_OFFSET {
        Some(core_data_to_timestamp(ts))
    } else {
        None
    }
}

/// Converting a count of the reader's clock to Unix time and back gives the
/// count again, and so does the other direction.
pub proof fn lemma_epoch_round_trip(x: int)
    ensures
        to_core_epoch(to_unix(x)) == x,
        to_unix(to_core_epoch(x)) == x,
{
}

} // verus!
