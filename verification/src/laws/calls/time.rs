//! Calls on points in time and spans.

use crate::time::{Duration, Timestamp};
use vstd::prelude::*;

verus! {

/// A span of whole seconds is that long.
pub proof fn law_from_secs(secs: u64, r: Duration)
    requires
        call_ensures(Duration::from_secs, (secs,), r),
    ensures
        r.valid(),
        r.total_nanos() == secs * 1_000_000_000,
{
}

/// A span is shorter than another by its seconds, and within a second by its nanoseconds.
pub proof fn law_shorter_than(a: Duration, b: Duration, r: bool)
    requires
        a.valid(),
        b.valid(),
        call_ensures(Duration::shorter_than, (a, b), r),
    ensures
        r <==> a.secs < b.secs || (a.secs == b.secs && a.nanos < b.nanos),
{
}

/// The calendar covers the points from the beginning of the year -262143 to the end of the year
/// 262142, to the nanosecond.
pub proof fn law_is_valid(t: Timestamp, r: bool)
    requires
        call_ensures(Timestamp::is_valid, (t,), r),
    ensures
        r <==> -8_334_601_228_800 <= t.secs < 8_210_266_876_800 && t.nanos < 1_000_000_000,
{
}

} // verus!
