//! Wall-clock readings as plain numbers: whole seconds since the Unix epoch
//! and the nanoseconds of the running second.
use std::time::{Duration, SystemTime, SystemTimeError};
use vstd::prelude::*;

verus! {

/// The last second of the year 9999, counted from the Unix epoch. Later
/// readings are clamped to it, so that a time always has a four-digit year.
pub const MAX_EPOCH_SECS: u64 = 253_402_300_799;

/// The number of nanoseconds in a second.
pub const NANOS_PER_SEC: u32 = 1_000_000_000;

/// `std::time::SystemTime`: a reading of the system clock, handed on
/// without a look inside.
#[verifier::external_type_specification]
#[verifier::external_body]
pub struct ExSystemTime(SystemTime);

/// `std::time::SystemTimeError`: what `duration_since` returns for a clock
/// that stands before the instant it is measured against.
#[verifier::external_type_specification]
#[verifier::external_body]
pub struct ExSystemTimeError(SystemTimeError);

/// `SystemTime::now`: the reading of the system clock. Nothing is known of it.
pub assume_specification[ SystemTime::now ]() -> SystemTime;

/// `SystemTime::duration_since` against `UNIX_EPOCH`: the time elapsed since
/// the epoch, or an error when the clock stands before it.
#[verifier::external_body]
fn since_unix_epoch(time: &SystemTime) -> Result<Duration, SystemTimeError> {
    time.duration_since(std::time::UNIX_EPOCH)
}

/// `Duration::as_secs`: the whole seconds of a duration.
pub assume_specification[ Duration::as_secs ](duration: &Duration) -> u64;

/// `Duration::subsec_nanos`: the fractional part of a duration in
/// nanoseconds, which std documents to be less than one second.
pub assume_specification[ Duration::subsec_nanos ](duration: &Duration) -> (nanos: u32)
    ensures
        nanos < NANOS_PER_SEC,
;

/// A point in time between the Unix epoch and the end of the year 9999.
#[derive(Clone, Copy, Debug)]
pub struct EpochTime {
    secs: u64,
    subsec_nanos: u32,
}

impl EpochTime {
    #[verifier::type_invariant]
    spec fn in_range(self) -> bool {
        self.secs <= MAX_EPOCH_SECS && self.subsec_nanos < NANOS_PER_SEC
    }

    /// Whole seconds since the Unix epoch.
    pub closed spec fn spec_secs(self) -> u64 {
        self.secs
    }

    /// Nanoseconds of the running second.
    pub closed spec fn spec_subsec_nanos(self) -> u32 {
        self.subsec_nanos
    }

    /// The time `secs` seconds and `subsec_nanos` nanoseconds after the
    /// epoch, if it lies in range.
    pub fn new(secs: u64, subsec_nanos: u32) -> (time: Option<EpochTime>)
        ensures
            time is Some <==> secs <= MAX_EPOCH_SECS && subsec_nanos < NANOS_PER_SEC,
            time matches Some(t) ==> t.spec_secs() == secs && t.spec_subsec_nanos()
                == subsec_nanos,
    {
        if secs <= MAX_EPOCH_SECS && subsec_nanos < NANOS_PER_SEC {
            Some(EpochTime { secs, subsec_nanos })
        } else {
            None
        }
    }

    /// The time of a clock reading: the reading itself where it lies in
    /// range, the last representable instant where it lies beyond.
    pub fn clamped(secs: u64, subsec_nanos: u32) -> (time: EpochTime)
        requires
            subsec_nanos < NANOS_PER_SEC,
        ensures
            secs <= MAX_EPOCH_SECS ==> time.spec_secs() == secs && time.spec_subsec_nanos()
                == subsec_nanos,
            secs > MAX_EPOCH_SECS ==> time.spec_secs() == MAX_EPOCH_SECS
                && time.spec_subsec_nanos() == NANOS_PER_SEC - 1,
    {
        if secs <= MAX_EPOCH_SECS {
            EpochTime { secs, subsec_nanos }
        } else {
            EpochTime { secs: MAX_EPOCH_SECS, subsec_nanos: NANOS_PER_SEC - 1 }
        }
    }

    /// The Unix epoch itself.
    pub fn epoch() -> (time: EpochTime)
        ensures
            time.spec_secs() == 0,
            time.spec_subsec_nanos() == 0,
    {
        EpochTime { secs: 0, subsec_nanos: 0 }
    }

    /// The current reading of the system clock. A clock that stands before
    /// the epoch reads as the epoch, one that stands beyond the year 9999
    /// as the last instant of that year: whatever the clock says, the time
    /// lies between the two.
    pub fn now() -> (time: EpochTime)
        ensures
            time.spec_secs() <= MAX_EPOCH_SECS,
            time.spec_subsec_nanos() < NANOS_PER_SEC,
    {
        let reading = SystemTime::now();
        match since_unix_epoch(&reading) {
            Ok(elapsed) => EpochTime::clamped(elapsed.as_secs(), elapsed.subsec_nanos()),
            Err(_) => EpochTime::epoch(),
        }
    }

    #[verifier::when_used_as_spec(spec_secs)]
    pub fn secs(self) -> (secs: u64)
        ensures
            secs == self.spec_secs(),
            secs <= MAX_EPOCH_SECS,
    {
        proof {
            use_type_invariant(self);
        }
        self.secs
    }

    #[verifier::when_used_as_spec(spec_subsec_nanos)]
    pub fn subsec_nanos(self) -> (nanos: u32)
        ensures
            nanos == self.spec_subsec_nanos(),
            nanos < NANOS_PER_SEC,
    {
        proof {
            use_type_invariant(self);
        }
        self.subsec_nanos
    }
}

} // verus!
