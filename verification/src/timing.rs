//! Timing arithmetic for the measurement bracket around each kernel.
//!
//! Two clock readings taken immediately before and after a kernel give the
//! elapsed nanosecond count; a repetition loop divides the total by the
//! repetition count to report the average. The clock reading itself comes
//! from the platform and nothing can be promised of its value; everything
//! computed from the two readings is verified.

use vstd::prelude::*;

verus! {

/// Platform clock timestamps; the value is opaque to verification and only
/// carried from the clock to the nanosecond conversion.
#[verifier::external_type_specification]
#[verifier::external_body]
pub struct ExSystemTime(std::time::SystemTime);

/// Relies on std::time::SystemTime::now to read the platform clock; the
/// value depends on the moment of the call and nothing is promised of it.
#[verifier::external_body]
fn sys_now() -> std::time::SystemTime {
    std::time::SystemTime::now()
}

/// Relies on std::time::SystemTime::duration_since: the distance from the
/// Unix epoch to `t` in nanoseconds, or zero when `t` lies before the
/// epoch; the value depends on the timestamp alone but the timestamp came
/// from the clock, so nothing is promised of it.
#[verifier::external_body]
fn nanos_since_epoch(t: &std::time::SystemTime) -> u128 {
    match t.duration_since(std::time::UNIX_EPOCH) {
        Ok(d) => d.as_nanos(),
        Err(_) => 0,
    }
}

/// Reads the clock as nanoseconds since the Unix epoch; one reading before
/// and one after a kernel bracket its measurement.
pub fn now_ns() -> u128 {
    let t = sys_now();
    nanos_since_epoch(&t)
}

/// The elapsed nanoseconds between two clock readings: their difference,
/// clamped to zero if the clock stepped backwards and to `u64::MAX` if the
/// difference does not fit.
pub open spec fn spec_elapsed_ns(start: u128, end: u128) -> u64 {
    if end <= start {
        0
    } else if end - start > u64::MAX {
        u64::MAX
    } else {
        (end - start) as u64
    }
}

/// Computes the elapsed nanoseconds between the readings `start` and `end`.
pub fn elapsed_ns(start: u128, end: u128) -> (d: u64)
    ensures
        d == spec_elapsed_ns(start, end),
{
    if end <= start {
        0
    } else {
        let d = end - start;
        if d > u64::MAX as u128 {
            u64::MAX
        } else {
            d as u64
        }
    }
}

/// Divides a total elapsed time by the repetition count to the average per
/// repetition, treating a zero count as a single repetition.
pub fn average_ns(total_ns: u64, reps: u64) -> (avg: u64)
    ensures
        avg == total_ns as nat / (if reps == 0 {
            1nat
        } else {
            reps as nat
        }),
{
    if reps == 0 {
        total_ns
    } else {
        total_ns / reps
    }
}

/// Normalizes a repetition-count override: a non-positive request means the
/// documented default, any positive request stands.
pub fn replications(requested: u64, default: u64) -> (r: u64)
    ensures
        r == if requested == 0 {
            default
        } else {
            requested
        },
{
    if requested == 0 {
        default
    } else {
        requested
    }
}

} // verus!
