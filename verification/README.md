# cocapn-fleet

A file fleet manager. Every volume of a library belongs to a storage tier; when a volume runs full,
its files move to the next tier before anyone has to act.

- A **deadband** per volume turns free space and speed into `Normal`, `Approaching` or `Exceeded`.
- A **stripe** knows which healthy volumes can take over from one that fails.
- The **escalation** engine plans migrations away from volumes that are critically full.
- A **handoff** takes one migration from `Stable` over `Draining`, `Migrating` and `Settling` to
  `Complete`.
- The **fleet manager** runs the health check that ties these together and reports what it did.

## Layout

- `src/` is the library, verified with [Verus](https://github.com/verus-lang/verus). Each function
  states in its contract what it returns, and functions named `law_..` prove what holds of the
  library as a whole.
- `src/binary64/` is IEEE 754 double precision on integers, bit for bit: thresholds and progress
  are rounded as the machine rounds them, and contracts can speak of the rounded numbers.
- `app/` is the asynchronous front: UUIDs, machine floats, locks, the event channel and the loop
  that checks at intervals.
- `tests/` run the library, among others against the floating point of the machine.

What depends on the clock or on the order in which a hash map is walked takes the time and the
order as arguments (`check_health_at`, `process_deadband_at`, `fallback_path_along`, ..); the
function of the same name without the ending asks the clock and the map.

## What is trusted

The library takes these on trust, as declared next to the calls: `chrono::Utc::now`, the difference
of two `chrono::DateTime`s, `Arc::clone`, and that clones of paths and JSON values are equal to what
was cloned.
