use vstd::prelude::*;

pub mod command;

verus! {

/// Nanoseconds in a second.
pub const NANOS_PER_SEC: u128 = 1_000_000_000;

/// Why an admin command's argument was refused.
#[derive(Clone, Copy, Debug, PartialEq, Eq, Structural)]
pub enum AdminError {
    /// The timeframe reaches back before the unix epoch, or its start cannot be written as
    /// seconds in a `u64`.
    TimeframeNotRepresentable,
}

/// The unix time, in whole seconds, `duration_nanos` before the instant `now_nanos`
/// (nanoseconds since the unix epoch).
pub open spec fn secs_before_spec(now_nanos: int, duration_nanos: int) -> Result<u64, AdminError> {
    if duration_nanos > now_nanos || (now_nanos - duration_nanos) / (NANOS_PER_SEC as int) > u64::MAX {
        Err(AdminError::TimeframeNotRepresentable)
    } else {
        Ok(((now_nanos - duration_nanos) / (NANOS_PER_SEC as int)) as u64)
    }
}

/// The start of a timeframe that ends now, as unix seconds: `now_nanos` is the current time
/// in nanoseconds since the unix epoch, `duration_nanos` the timeframe's length.
pub fn unix_secs_from_duration(now_nanos: u128, duration_nanos: u128) -> (r: Result<u64, AdminError>)
    ensures
        r == secs_before_spec(now_nanos as int, duration_nanos as int),
{
    if duration_nanos > now_nanos {
        return Err(AdminError::TimeframeNotRepresentable);
    }
    let secs = (now_nanos - duration_nanos) / NANOS_PER_SEC;
    if secs > u64::MAX as u128 {
        return Err(AdminError::TimeframeNotRepresentable);
    }
    Ok(secs as u64)
}

} // verus!
