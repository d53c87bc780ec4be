//! The clock that stamps records, in whole seconds since the Unix epoch.
use std::time::{SystemTime, UNIX_EPOCH};
use vstd::prelude::*;

verus! {

/// Reads the system clock with `SystemTime::now` and measures it against
/// `UNIX_EPOCH` with `SystemTime::duration_since`: the whole seconds since
/// the epoch, or, as the error, the whole seconds by which the clock stands
/// before it. Nothing is claimed of the reading.
#[verifier::external_body]
fn read_clock() -> Result<u64, u64> {
    match SystemTime::now().duration_since(UNIX_EPOCH) {
        Ok(since) => Ok(since.as_secs()),
        Err(before) => Err(before.duration().as_secs()),
    }
}

/// The time stamp for a clock reading: the seconds since the epoch, negative
/// for a clock that stands before it, and held inside `i64`.
pub open spec fn stamp_of(reading: Result<u64, u64>) -> i64 {
    match reading {
        Ok(since) => if since <= i64::MAX as u64 {
            since as i64
        } else {
            i64::MAX
        },
        Err(before) => if before <= i64::MAX as u64 {
            (-(before as int)) as i64
        } else {
            i64::MIN
        },
    }
}

/// The time stamp for a clock reading.
pub fn stamp(reading: Result<u64, u64>) -> (seconds: i64)
    ensures
        seconds == stamp_of(reading),
{
    match reading {
        Ok(since) => {
            if since <= i64::MAX as u64 {
                since as i64
            } else {
                i64::MAX
            }
        },
        Err(before) => {
            if before <= i64::MAX as u64 {
                let back: i64 = before as i64;
                -back
            } else {
                i64::MIN
            }
        },
    }
}

/// The current time in whole seconds since the Unix epoch.
pub fn epoch() -> i64 {
    stamp(read_clock())
}

} // verus!
