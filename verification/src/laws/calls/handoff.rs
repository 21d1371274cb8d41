//! Calls on a handoff.

use crate::binary64::laws::is_share;
use crate::binary64::{at_most, below, decimal, quotient, unit_clamped, Binary64};
use crate::handoff::{StorageHandoff, StorageHandoffState};
use crate::internal::sd_core::Id;
use crate::laws::handoff::{
    law_byte_progress_is_the_fraction, law_first_step_is_the_fraction_of_time,
    law_no_time_no_progress, law_phases, law_states_are_named, same_migration,
};
use crate::time::Duration;
use vstd::prelude::*;

verus! {

/// A new handoff is between the given volumes, of so many bytes and for so long; nothing of it has
/// happened.
pub proof fn law_new_handoff(
    from_volume: Id,
    to_volume: Id,
    total_bytes: u64,
    transition_duration: Duration,
    handoff: StorageHandoff,
)
    requires
        call_ensures(
            StorageHandoff::new,
            (from_volume, to_volume, total_bytes, transition_duration),
            handoff,
        ),
    ensures
        handoff@.from_volume == from_volume,
        handoff@.to_volume == to_volume,
        handoff@.total_bytes == total_bytes,
        handoff@.transition_duration == transition_duration,
        handoff@.state == StorageHandoffState::Stable,
        handoff@.migrated_bytes == 0,
        handoff@.entries.len() == 0,
        handoff@.progress_weight == decimal(0, 1),
{
}

/// A stable handoff, and no other, can begin; then it is draining from the start. One that cannot
/// says which state it is in and stays as it is.
pub proof fn law_begin(handoff: &mut StorageHandoff, r: Result<(), String>)
    requires
        call_ensures(StorageHandoff::begin, (handoff,), r),
    ensures
        r is Ok <==> old(handoff)@.state == StorageHandoffState::Stable,
        r is Ok ==> {
            &&& final(handoff)@.state == StorageHandoffState::Draining
            &&& final(handoff)@.progress_weight == decimal(0, 1)
            &&& final(handoff)@.migrated_bytes == old(handoff)@.migrated_bytes
            &&& same_migration(old(handoff)@, final(handoff)@)
        },
        r matches Err(text) ==> *final(handoff) == *old(handoff) && text@
            == "Cannot begin handoff from state "@ + match old(handoff)@.state {
            StorageHandoffState::Stable => "Stable"@,
            StorageHandoffState::Draining => "Draining"@,
            StorageHandoffState::Migrating => "Migrating"@,
            StorageHandoffState::Settling => "Settling"@,
            StorageHandoffState::Complete => "Complete"@,
            StorageHandoffState::Cancelled => "Cancelled"@,
        },
{
    law_states_are_named(old(handoff)@.state);
}

/// A step never goes back and never beyond the end; it says how far the handoff is, and the state
/// follows from that: draining below 0.33, migrating below 0.66, settling below 1, complete at 1.
/// The bytes add up. A step of no time leaves the handoff as far as it was, and a first step of
/// whole seconds brings it as far as the fraction of the time that has passed.
pub proof fn law_progress(
    handoff: &mut StorageHandoff,
    delta: Duration,
    additional: u64,
    r: Binary64,
)
    requires
        old(handoff).wf(),
        delta.valid(),
        call_ensures(StorageHandoff::progress, (handoff, delta, additional), r),
    ensures
        same_migration(old(handoff)@, final(handoff)@),
        final(handoff)@.progress_weight == r,
        is_share(r),
        at_most(old(handoff)@.progress_weight, r),
        final(handoff)@.state == StorageHandoffState::Draining <==> below(r, decimal(33, 100)),
        final(handoff)@.state == StorageHandoffState::Migrating <==> at_most(decimal(33, 100), r)
            && below(r, decimal(66, 100)),
        final(handoff)@.state == StorageHandoffState::Settling <==> at_most(decimal(66, 100), r)
            && r != decimal(1, 1),
        final(handoff)@.state == StorageHandoffState::Complete <==> r == decimal(1, 1),
        old(handoff)@.migrated_bytes + additional <= u64::MAX ==> final(handoff)@.migrated_bytes
            == old(handoff)@.migrated_bytes + additional,
        old(handoff)@.migrated_bytes + additional > u64::MAX ==> final(handoff)@.migrated_bytes
            == u64::MAX,
        delta.total_nanos() == 0 ==> r == old(handoff)@.progress_weight,
        old(handoff)@.progress_weight == decimal(0, 1) && delta.nanos == 0 && old(
            handoff,
        )@.transition_duration.nanos == 0 && delta.secs <= old(
            handoff,
        )@.transition_duration.secs && 0 < old(handoff)@.transition_duration.secs
            < 0x20_0000_0000_0000 ==> r == decimal(
            delta.secs as nat,
            old(handoff)@.transition_duration.secs as nat,
        ),
{
    let before = old(handoff)@;
    law_phases(r);
    if delta.total_nanos() == 0 {
        law_no_time_no_progress(before.progress_weight, before.transition_duration);
        assert(delta == (Duration { secs: 0, nanos: 0 }));
    }
    if before.progress_weight == decimal(0, 1) && delta.nanos == 0
        && before.transition_duration.nanos == 0 && delta.secs <= before.transition_duration.secs
        && 0 < before.transition_duration.secs < 0x20_0000_0000_0000 {
        law_first_step_is_the_fraction_of_time(delta.secs, before.transition_duration.secs);
        assert(delta == (Duration { secs: delta.secs, nanos: 0 }));
        assert(before.transition_duration == (Duration {
            secs: before.transition_duration.secs,
            nanos: 0,
        }));
    }
}

/// Every handoff but a complete one can be cancelled, which forgets all progress; a complete one
/// stays as it is.
pub proof fn law_cancel(handoff: &mut StorageHandoff, r: Result<(), String>)
    requires
        call_ensures(StorageHandoff::cancel, (handoff,), r),
    ensures
        r is Err <==> old(handoff)@.state == StorageHandoffState::Complete,
        r is Ok ==> {
            &&& final(handoff)@.state == StorageHandoffState::Cancelled
            &&& final(handoff)@.progress_weight == decimal(0, 1)
            &&& final(handoff)@.migrated_bytes == 0
            &&& same_migration(old(handoff)@, final(handoff)@)
        },
        r matches Err(text) ==> *final(handoff) == *old(handoff) && text@
            == "Cannot cancel a completed handoff"@,
{
}

/// Who serves the files of a handoff: the source alone before the crossfade and after a cancel,
/// both while migrating, the destination alone while settling. At the end, and only then, the
/// handoff says that it is complete, and serves nothing from either.
pub proof fn law_serving(
    handoff: &StorageHandoff,
    source: bool,
    destination: bool,
    complete: bool,
    state: StorageHandoffState,
)
    requires
        call_ensures(StorageHandoff::active_on_source, (handoff,), source),
        call_ensures(StorageHandoff::active_on_destination, (handoff,), destination),
        call_ensures(StorageHandoff::is_complete, (handoff,), complete),
        call_ensures(StorageHandoff::current_state, (handoff,), state),
    ensures
        state == handoff@.state,
        match state {
            StorageHandoffState::Stable => source && !destination && !complete,
            StorageHandoffState::Draining => source && !destination && !complete,
            StorageHandoffState::Migrating => source && destination && !complete,
            StorageHandoffState::Settling => !source && destination && !complete,
            StorageHandoffState::Complete => !source && !destination && complete,
            StorageHandoffState::Cancelled => source && !destination && !complete,
        },
{
}

/// The byte progress is the fraction of the bytes that are migrated, no more than 1, and 1 where
/// there is nothing to migrate.
pub proof fn law_byte_progress_call(handoff: &StorageHandoff, r: Binary64)
    requires
        call_ensures(StorageHandoff::byte_progress, (handoff,), r),
    ensures
        handoff@.total_bytes == 0 ==> r == decimal(1, 1),
        handoff@.total_bytes > 0 ==> r == unit_clamped(
            quotient(
                decimal(handoff@.migrated_bytes as nat, 1),
                decimal(handoff@.total_bytes as nat, 1),
            ),
        ),
        handoff@.migrated_bytes <= handoff@.total_bytes < 0x20_0000_0000_0000
            && handoff@.total_bytes > 0 ==> r == decimal(
            handoff@.migrated_bytes as nat,
            handoff@.total_bytes as nat,
        ),
{
    if handoff@.migrated_bytes <= handoff@.total_bytes < 0x20_0000_0000_0000
        && handoff@.total_bytes > 0 {
        law_byte_progress_is_the_fraction(handoff@.migrated_bytes, handoff@.total_bytes);
    }
}

/// A state is called by its name.
pub proof fn law_state_name(state: &StorageHandoffState, r: &'static str)
    requires
        call_ensures(StorageHandoffState::name, (state,), r),
    ensures
        r@ == match *state {
            StorageHandoffState::Stable => "Stable"@,
            StorageHandoffState::Draining => "Draining"@,
            StorageHandoffState::Migrating => "Migrating"@,
            StorageHandoffState::Settling => "Settling"@,
            StorageHandoffState::Complete => "Complete"@,
            StorageHandoffState::Cancelled => "Cancelled"@,
        },
{
}

} // verus!
