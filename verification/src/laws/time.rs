//! Points in time and spans: their order, and how far they are apart.

use crate::time::{Duration, Timestamp};
use vstd::prelude::*;

verus! {

/// Points in time are ordered by their seconds, and within a second by their nanoseconds.
pub proof fn law_order_of_points(a: Timestamp, b: Timestamp)
    requires
        a.valid(),
        b.valid(),
    ensures
        a.total_nanos() < b.total_nanos() <==> a.secs < b.secs || (a.secs == b.secs && a.nanos
            < b.nanos),
        a.total_nanos() == b.total_nanos() <==> a == b,
{
}

/// A point that is so many seconds and nanoseconds after another is as far from it as the span of
/// these seconds and nanoseconds is long.
pub proof fn law_distance_is_the_span_between(a: Timestamp, b: Timestamp, d: Duration)
    requires
        a.valid(),
        b.valid(),
        d.valid(),
    ensures
        b.total_nanos() - a.total_nanos() == d.total_nanos() <==> {
            ||| b.secs == a.secs + d.secs && b.nanos == a.nanos + d.nanos
            ||| b.secs == a.secs + d.secs + 1 && b.nanos + 1_000_000_000 == a.nanos + d.nanos
        },
{
}

/// Spans are ordered by their seconds, and within a second by their nanoseconds.
pub proof fn law_order_of_spans(a: Duration, b: Duration)
    requires
        a.valid(),
        b.valid(),
    ensures
        a.total_nanos() < b.total_nanos() <==> a.secs < b.secs || (a.secs == b.secs && a.nanos
            < b.nanos),
        a.total_nanos() == b.total_nanos() <==> a == b,
{
}

} // verus!
