//! Calls on a fleet manager.

use crate::binary64::decimal;
use crate::deadband::{states_of, StorageDeadband, StorageDeadbandState};
use crate::escalation::{EscalationAction, EscalationEngine};
use crate::fleet::{
    action_events, deadband_events, listed, views, FleetConfig, FleetEvent, FleetEventView,
    FleetManager,
};
use crate::handoff::{StorageHandoff, StorageHandoffState};
use crate::internal::cocapn_core::DeadbandState;
use crate::internal::sd_core::{Id, Volume, VolumeType};
use crate::laws::fleet::{
    law_events_say_what_they_hold, law_handoff_of_each_migration, law_other_handoffs_stay,
    law_registering, law_summary_agrees_with_the_report, law_summary_counts_volumes,
    law_what_a_check_leaves_alone,
};
use crate::laws::stripe::{law_failing_changes_health_alone, usable};
use crate::stripe::StorageStripe;
use crate::tiering::StorageTier;
use crate::time::{Duration, Timestamp};
use crate::walk::is_walk;
use std::sync::Arc;
use vstd::prelude::*;

verus! {

/// A new manager goes by the given configuration, in each of its parts, and manages nothing yet.
pub proof fn law_new_manager(
    config: FleetConfig,
    manager: FleetManager,
    interval: Duration,
    id: Id,
    handoff: Option<&StorageHandoff>,
)
    requires
        call_ensures(FleetManager::new, (config,), manager),
        call_ensures(FleetManager::check_interval, (&manager,), interval),
        call_ensures(FleetManager::active_handoff, (&manager, id), handoff),
    ensures
        manager.wf(),
        manager.profiles_agree(),
        manager.config() == config,
        manager.deadband().configs() == config.volume_deadband_configs@,
        !manager.deadband().fired(),
        manager.engine().config() == config.escalation,
        !manager.engine().last().contains_key(id),
        !manager.volumes().contains_key(id),
        !manager.stripe()@.contains_key(id),
        handoff is None,
        interval == config.check_interval,
{
}

/// The handoff of a volume is the one that was begun for it, if there is one.
pub proof fn law_active_handoff(manager: &FleetManager, id: Id, r: Option<&StorageHandoff>)
    requires
        call_ensures(FleetManager::active_handoff, (manager, id), r),
    ensures
        r is Some <==> manager.handoffs().contains_key(id),
        r matches Some(handoff) ==> *handoff == manager.handoffs()[id],
{
}

/// A volume that is registered is managed and put to use as it reports itself, also one that had
/// failed. No other volume is touched, nor anything else of the manager.
pub proof fn law_register(manager: &mut FleetManager, volume: Arc<Volume>, other: Id)
    requires
        old(manager).wf(),
        call_ensures(FleetManager::register_volume, (manager, volume), ()),
    ensures
        final(manager).wf(),
        old(manager).profiles_agree() ==> final(manager).profiles_agree(),
        final(manager).volumes().contains_key(volume.id),
        final(manager).volumes()[volume.id] == volume,
        usable(final(manager).stripe()@, volume.id),
        ({
            let profile = final(manager).stripe()@[volume.id];
            &&& profile.volume_id == volume.id
            &&& profile.volume_name == volume.name
            &&& profile.free_bytes == volume.available_space
            &&& profile.total_bytes == volume.total_capacity
            &&& profile.escalation_targets@.len() == 0
            &&& profile.storage_tier == StorageTier::Hot <==> (volume.volume_type
                == VolumeType::Primary || volume.volume_type == VolumeType::UserData
                || volume.volume_type == VolumeType::System)
            &&& profile.storage_tier == StorageTier::Archive <==> volume.volume_type
                == VolumeType::Cloud
            &&& profile.storage_tier == StorageTier::Offload <==> volume.volume_type
                == VolumeType::External
        }),
        other != volume.id ==> {
            let (before, after) = (*old(manager), *final(manager));
            &&& after.volumes().contains_key(other) == before.volumes().contains_key(other)
            &&& after.volumes()[other] == before.volumes()[other]
            &&& after.stripe()@.contains_key(other) == before.stripe()@.contains_key(other)
            &&& after.stripe()@[other] == before.stripe()@[other]
        },
        final(manager).config() == old(manager).config(),
        final(manager).deadband() == old(manager).deadband(),
        final(manager).engine() == old(manager).engine(),
        final(manager).handoffs() == old(manager).handoffs(),
{
    law_registering(old(manager).stripe()@, final(manager).stripe()@, &*volume, other);
}

/// A volume that is unregistered is no longer managed, and is out of use in the stripe. No other
/// volume is touched, nor anything else of the manager.
pub proof fn law_unregister(manager: &mut FleetManager, id: Id, other: Id)
    requires
        old(manager).wf(),
        call_ensures(FleetManager::unregister_volume, (manager, id), ()),
    ensures
        final(manager).wf(),
        !final(manager).volumes().contains_key(id),
        !usable(final(manager).stripe()@, id),
        other != id ==> {
            let (before, after) = (*old(manager), *final(manager));
            &&& after.volumes().contains_key(other) == before.volumes().contains_key(other)
            &&& after.volumes()[other] == before.volumes()[other]
            &&& after.stripe()@.contains_key(other) == before.stripe()@.contains_key(other)
            &&& after.stripe()@[other] == before.stripe()@[other]
        },
        final(manager).config() == old(manager).config(),
        final(manager).deadband() == old(manager).deadband(),
        final(manager).engine() == old(manager).engine(),
        final(manager).handoffs() == old(manager).handoffs(),
{
    law_failing_changes_health_alone(old(manager).stripe()@, id);
    assert(old(manager).stripe()@.dom().contains(other) == final(
        manager).stripe()@.dom().contains(other));
}

/// As many events say something as there are.
proof fn lemma_views_filter(
    events: Seq<FleetEvent>,
    says: spec_fn(FleetEventView) -> bool,
    holds: spec_fn(FleetEvent) -> bool,
)
    requires
        forall|e: FleetEvent| #[trigger] holds(e) == says(e@),
    ensures
        views(events).filter(says).len() == events.filter(holds).len(),
    decreases events.len(),
{
    reveal(Seq::filter);
    if events.len() > 0 {
        assert(views(events).drop_last() =~= views(events.drop_last()));
        assert(views(events).last() == events.last()@);
        assert(holds(events.last()) == says(events.last()@));
        lemma_views_filter(events.drop_last(), says, holds);
    }
}

/// Whether some events end with one summary that agrees with them: it counts so many volumes; as
/// critical those whose alarm says that they are exceeded, as warnings those whose alarm says that
/// they are approaching, and as healthy the rest. Alarms come before everything else.
pub open spec fn well_summarised(events: Seq<FleetEvent>, checked: nat) -> bool {
    &&& events.len() > 0
    &&& forall|i: int| 0 <= i < events.len() - 1 ==> !((#[trigger] events[i]) is HealthCheck)
    &&& forall|i: int, j: int|
        0 <= i < j < events.len() && ((#[trigger] events[j]) is DeadbandExceeded
            || events[j] is DeadbandWarn) ==> (#[trigger] events[i]) is DeadbandExceeded
            || events[i] is DeadbandWarn
    &&& events[events.len() - 1] matches FleetEvent::HealthCheck {
        total_volumes,
        healthy,
        warning,
        critical,
    }
    &&& total_volumes == checked
    &&& critical == events.filter(|e: FleetEvent| e is DeadbandExceeded).len()
    &&& warning == events.filter(|e: FleetEvent| e is DeadbandWarn).len()
    &&& healthy + warning + critical == total_volumes
}

/// What is reported of a health check is well summarised.
proof fn lemma_well_summarised(
    manager: FleetManager,
    now: Timestamp,
    volume_walk: Seq<Id>,
    stripe_walk: Seq<Id>,
    r: Seq<FleetEvent>,
)
    requires
        is_walk(manager.volumes(), volume_walk),
        views(r) == manager.outcome(now, volume_walk, stripe_walk).events(manager.volumes()),
    ensures
        well_summarised(r, manager.volumes().dom().len()),
{
    let outcome = manager.outcome(now, volume_walk, stripe_walk);
    let events = outcome.events(manager.volumes());
    assert(events.len() == r.len());
    law_summary_agrees_with_the_report(outcome, manager.volumes());
    law_summary_counts_volumes(manager, now, volume_walk, stripe_walk);
    lemma_parts(states_of(manager.deadband().configs(), listed(manager.volumes(), volume_walk)));
    assert forall|i: int| 0 <= i < r.len() implies {
        let (e, v) = (#[trigger] r[i], events[i]);
        &&& v == e@
        &&& v is HealthCheck == e is HealthCheck
        &&& v is DeadbandWarn == e is DeadbandWarn
        &&& v is DeadbandExceeded == e is DeadbandExceeded
    } by {
        assert(views(r)[i] == r[i]@);
        law_events_say_what_they_hold(r[i]);
    }
    law_events_say_what_they_hold(r[r.len() - 1]);
    lemma_views_filter(
        r,
        |e: FleetEventView| e is DeadbandExceeded,
        |e: FleetEvent| e is DeadbandExceeded,
    );
    lemma_views_filter(
        r,
        |e: FleetEventView| e is DeadbandWarn,
        |e: FleetEvent| e is DeadbandWarn,
    );
}

/// What a health check reports ends with a summary of all volumes, which agrees with the alarms
/// that come before it.
pub proof fn law_check_health_summary(
    manager: &mut FleetManager,
    now: Timestamp,
    volume_walk: &[Id],
    stripe_walk: &[Id],
    r: Vec<FleetEvent>,
)
    requires
        old(manager).wf(),
        now.valid(),
        is_walk(old(manager).volumes(), volume_walk@),
        call_ensures(
            FleetManager::check_health_at,
            (manager, now, volume_walk, stripe_walk),
            r,
        ),
    ensures
        well_summarised(r@, old(manager).volumes().dom().len()),
{
    lemma_well_summarised(*old(manager), now, volume_walk@, stripe_walk@, r@);
}

/// So does what a health check by the clock reports; and it leaves the volumes and the
/// configuration alone.
pub proof fn law_check_health_by_the_clock(manager: &mut FleetManager, r: Vec<FleetEvent>)
    requires
        old(manager).wf(),
        call_ensures(FleetManager::check_health, (manager,), r),
    ensures
        well_summarised(r@, old(manager).volumes().dom().len()),
        final(manager).wf(),
        final(manager).config() == old(manager).config(),
        final(manager).volumes() == old(manager).volumes(),
        old(manager).config().dry_run ==> final(manager).handoffs() == old(manager).handoffs(),
        old(manager).deadband().fired() ==> final(manager).deadband().fired(),
{
    let before = *old(manager);
    let (now, volume_walk, stripe_walk) = choose|
        now: Timestamp,
        volume_walk: Seq<Id>,
        stripe_walk: Seq<Id>,
    |
        #![trigger before.outcome(now, volume_walk, stripe_walk)]
        {
            let outcome = before.outcome(now, volume_walk, stripe_walk);
            &&& now.valid()
            &&& is_walk(before.volumes(), volume_walk)
            &&& is_walk(before.stripe()@, stripe_walk)
            &&& before.checked_into(final(manager), outcome)
            &&& views(r@) == outcome.events(before.volumes())
        };
    lemma_well_summarised(before, now, volume_walk, stripe_walk, r@);
}

/// A health check finds what the deadband finds of the checked volumes, does to the stripe what the
/// escalation engine makes of that, and reports both. Outside a dry run a handoff begins for each
/// planned migration, in place of an earlier one from the same volume; all other handoffs stay.
pub proof fn law_check_health_in_parts(
    manager: &mut FleetManager,
    now: Timestamp,
    volume_walk: &[Id],
    stripe_walk: &[Id],
    r: Vec<FleetEvent>,
    deadband: &mut StorageDeadband,
    checked: &[Arc<Volume>],
    found: Vec<StorageDeadbandState>,
    states: &[StorageDeadbandState],
    engine: &mut EscalationEngine,
    stripe: &mut StorageStripe,
    actions: Vec<EscalationAction>,
    k: int,
    id: Id,
)
    requires
        old(manager).wf(),
        now.valid(),
        call_ensures(
            FleetManager::check_health_at,
            (manager, now, volume_walk, stripe_walk),
            r,
        ),
        *old(deadband) == old(manager).deadband(),
        checked@ == listed(old(manager).volumes(), volume_walk@),
        call_ensures(StorageDeadband::check_all, (deadband, checked), found),
        states@ == found@,
        *old(engine) == old(manager).engine(),
        *old(stripe) == old(manager).stripe(),
        call_ensures(
            EscalationEngine::process_deadband_at,
            (engine, now, stripe_walk, states, stripe),
            actions,
        ),
    ensures
        final(manager).deadband().fired() == final(deadband).fired(),
        final(manager).deadband().configs() == final(deadband).configs(),
        final(manager).stripe()@ == final(stripe)@,
        final(manager).engine().last() == final(engine).last(),
        views(r@).drop_last() == deadband_events(found@) + action_events(
            old(manager).volumes(),
            actions@,
        ),
        // A planned migration, the last one from its volume, begins.
        !old(manager).config().dry_run && 0 <= k < actions@.len() && actions@[k] is Migrate && (
        forall|l: int|
            k < l < actions@.len() && (#[trigger] actions@[l]) is Migrate
                ==> actions@[l]->from_volume != actions@[k]->from_volume) ==> {
            let from = actions@[k]->from_volume;
            let handoff = final(manager).handoffs()[from]@;
            &&& final(manager).handoffs().contains_key(from)
            &&& handoff.from_volume == from
            &&& handoff.to_volume == actions@[k]->to_volume
            &&& handoff.total_bytes == actions@[k]->total_bytes
            &&& handoff.state == StorageHandoffState::Draining
            &&& handoff.migrated_bytes == 0
            &&& handoff.progress_weight == decimal(0, 1)
            &&& handoff.transition_duration.total_nanos() == 300 * 1_000_000_000
        },
        // Nothing else begins or ends.
        old(manager).config().dry_run || (forall|l: int|
            0 <= l < actions@.len() && (#[trigger] actions@[l]) is Migrate
                ==> actions@[l]->from_volume != id) ==> {
            let (before, after) = (old(manager).handoffs(), final(manager).handoffs());
            &&& after.contains_key(id) == before.contains_key(id)
            &&& after.contains_key(id) ==> after[id] == before[id]
        },
{
    let before = *old(manager);
    let outcome = before.outcome(now, volume_walk@, stripe_walk@);
    assert(found@ == outcome.states);
    assert(actions@ == outcome.actions());
    assert(views(r@).drop_last() =~= deadband_events(found@) + action_events(
        before.volumes(),
        actions@,
    ));
    let dry_run = before.config().dry_run;
    if !dry_run && 0 <= k < actions@.len() && actions@[k] is Migrate && (forall|l: int|
        k < l < actions@.len() && (#[trigger] actions@[l]) is Migrate ==> actions@[l]->from_volume
            != actions@[k]->from_volume) {
        law_handoff_of_each_migration(before.handoffs(), final(manager).handoffs(), actions@, k);
    }
    if dry_run || (forall|l: int|
        0 <= l < actions@.len() && (#[trigger] actions@[l]) is Migrate ==> actions@[l]->from_volume
            != id) {
        law_other_handoffs_stay(
            before.handoffs(),
            final(manager).handoffs(),
            actions@,
            dry_run,
            id,
        );
    }
}

/// Every state is one of three.
proof fn lemma_parts(states: Seq<StorageDeadbandState>)
    ensures
        states.filter(
            |s: StorageDeadbandState| s.deadband_state == DeadbandState::Exceeded,
        ).len() + states.filter(
            |s: StorageDeadbandState| s.deadband_state == DeadbandState::Approaching,
        ).len() + states.filter(
            |s: StorageDeadbandState| s.deadband_state == DeadbandState::Normal,
        ).len() == states.len(),
    decreases states.len(),
{
    reveal(Seq::filter);
    if states.len() > 0 {
        lemma_parts(states.drop_last());
    }
}

/// What a health check leaves alone, and when the deadband of the manager has fired after it.
pub proof fn law_check_health_keeps(
    manager: &mut FleetManager,
    now: Timestamp,
    volume_walk: &[Id],
    stripe_walk: &[Id],
    r: Vec<FleetEvent>,
    id: Id,
)
    requires
        old(manager).wf(),
        now.valid(),
        call_ensures(
            FleetManager::check_health_at,
            (manager, now, volume_walk, stripe_walk),
            r,
        ),
    ensures
        final(manager).wf(),
        final(manager).config() == old(manager).config(),
        final(manager).volumes() == old(manager).volumes(),
        final(manager).deadband().configs() == old(manager).deadband().configs(),
        final(manager).engine().config() == old(manager).engine().config(),
        final(manager).stripe()@.contains_key(id) == old(manager).stripe()@.contains_key(id),
        final(manager).stripe()@.contains_key(id) ==> {
            let (p, q) = (old(manager).stripe()@[id], final(manager).stripe()@[id]);
            &&& q.healthy ==> p.healthy
            &&& q.volume_name == p.volume_name
            &&& q.storage_tier == p.storage_tier
            &&& q.free_bytes == p.free_bytes
            &&& q.total_bytes == p.total_bytes
            &&& q.escalation_targets == p.escalation_targets
        },
        old(manager).deadband().fired() ==> final(manager).deadband().fired(),
        old(manager).config().dry_run ==> final(manager).handoffs() == old(manager).handoffs(),
{
    law_what_a_check_leaves_alone(
        *old(manager),
        *final(manager),
        now,
        volume_walk@,
        stripe_walk@,
    );
    assert(old(manager).stripe()@.dom().contains(id) == final(manager).stripe()@.dom().contains(
        id,
    ));
}

/// Where nothing else is said, the fleet is checked every minute, by no configurations of its own,
/// and migrations are begun; a volume is left alone for five minutes after a migration from it.
pub proof fn law_default_fleet(config: FleetConfig, id: Id)
    requires
        call_ensures(<FleetConfig as Default>::default, (), config),
    ensures
        config.check_interval.total_nanos() == 60 * 1_000_000_000,
        !config.volume_deadband_configs@.contains_key(id),
        !config.dry_run,
        config.escalation.cooldown.total_nanos() == 300 * 1_000_000_000,
        config.escalation.target_max_util_pct == decimal(85, 1),
        config.escalation.prioritize_cold_files,
        config.escalation.auto_migrate,
{
}

} // verus!
