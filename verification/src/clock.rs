//! The clock.

use vstd::prelude::*;

verus! {

/// A point in time, as `std::time` has it.
#[verifier::external_type_specification]
#[verifier::external_body]
pub struct ExSystemTime(std::time::SystemTime);

/// `SystemTime::now` reads the machine's clock; nothing is known of what it
/// shows.
pub assume_specification[ std::time::SystemTime::now ]() -> std::time::SystemTime;

/// `SystemTime::duration_since`, asked for the time since the Unix epoch, gives
/// an error where the clock stands before it. Nothing is claimed of the result,
/// which rests on the clock.
#[verifier::external_body]
fn since_epoch(t: std::time::SystemTime) -> (r: Result<std::time::Duration, String>) {
    t.duration_since(std::time::UNIX_EPOCH).map_err(|e| e.to_string())
}

/// `Duration::as_secs` gives the whole seconds of a duration; nothing is claimed
/// of them, since a duration here always comes from the clock.
pub assume_specification[ std::time::Duration::as_secs ](d: &std::time::Duration) -> u64;

/// `Duration::subsec_nanos` gives the part of a duration below one second, in
/// nanoseconds, which is always less than a billion.
pub assume_specification[ std::time::Duration::subsec_nanos ](d: &std::time::Duration) -> (r: u32)
    ensures
        r < 1_000_000_000,
;

/// Seconds and nanoseconds of a time since the Unix epoch, or why they cannot be
/// told.
pub fn reading(since: Result<std::time::Duration, String>) -> (r: Result<(u64, u32), String>)
    ensures
        match since {
            Ok(d) => {
                &&& r matches Ok(t) && t.1 < 1_000_000_000
                &&& call_ensures(std::time::Duration::as_secs, (&d,), r->Ok_0.0)
                &&& call_ensures(std::time::Duration::subsec_nanos, (&d,), r->Ok_0.1)
            },
            Err(e) => r == Err::<(u64, u32), String>(e),
        },
{
    match since {
        Ok(d) => Ok((d.as_secs(), d.subsec_nanos())),
        Err(e) => Err(e),
    }
}

/// The clock was read and gave `r`: there was a point in time that it showed, and
/// `r` tells the time from the Unix epoch to that point, or why it cannot.
pub closed spec fn was_read(r: Result<(u64, u32), String>) -> bool {
    exists|t: std::time::SystemTime, since: Result<std::time::Duration, String>|
        #![trigger call_ensures(since_epoch, (t,), since)]
        {
            &&& call_ensures(std::time::SystemTime::now, (), t)
            &&& call_ensures(since_epoch, (t,), since)
            &&& call_ensures(reading, (since,), r)
        }
}

/// Seconds and nanoseconds since the Unix epoch, or why they cannot be told: the
/// clock may stand before the epoch.
pub fn unix_time() -> (r: Result<(u64, u32), String>)
    ensures
        was_read(r),
        r matches Ok(t) ==> t.1 < 1_000_000_000,
{
    let t = std::time::SystemTime::now();
    let since = since_epoch(t);
    let ghost told = since;
    let r = reading(since);
    assert(call_ensures(std::time::SystemTime::now, (), t));
    assert(call_ensures(since_epoch, (t,), told));
    assert(call_ensures(reading, (told,), r));
    r
}

} // verus!
