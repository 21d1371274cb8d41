//! The fleet manager: what a health check finds, reports and begins, and what it leaves alone.

use crate::binary64::decimal;
use crate::deadband::{
    alarms, any_exceeded, law_alarms_are_the_volumes_not_normal, not_normal, states_of, volume_state,
    StorageDeadbandState,
};
use crate::escalation::EscalationAction;
use crate::fleet::{
    action_events, count_of, deadband_events, enrolled, handoffs_follow, last_migration,
    law_every_volume_is_checked, listed, FleetEvent, FleetEventView, FleetManager, HealthOutcome,
};
use crate::handoff::{StorageHandoff, StorageHandoffState, StorageHandoffView};
use crate::internal::cocapn_core::DeadbandState;
use crate::internal::sd_core::{Id, Volume, VolumeType};
use crate::laws::stripe::usable;
use crate::laws::deadband::law_fires_on_exceeded;
use crate::stripe::TierProfile;
use crate::tiering::StorageTier;
use crate::time::{Duration, Timestamp};
use crate::walk::is_walk;
use std::sync::Arc;
use vstd::prelude::*;

verus! {

/// How many of some deadband states are in each state.
proof fn lemma_counts(states: Seq<StorageDeadbandState>)
    ensures
        ({
            let found = not_normal(states);
            &&& count_of(found, DeadbandState::Exceeded) == states.filter(
                |s: StorageDeadbandState| s.deadband_state == DeadbandState::Exceeded,
            ).len()
            &&& count_of(found, DeadbandState::Approaching) == states.filter(
                |s: StorageDeadbandState| s.deadband_state == DeadbandState::Approaching,
            ).len()
            &&& found.len() + states.filter(
                |s: StorageDeadbandState| s.deadband_state == DeadbandState::Normal,
            ).len() == states.len()
            &&& found.len() == count_of(found, DeadbandState::Exceeded) + count_of(
                found,
                DeadbandState::Approaching,
            )
        }),
    decreases states.len(),
{
    reveal(Seq::filter);
    if states.len() > 0 {
        let shorter = states.drop_last();
        lemma_counts(shorter);
        let before = not_normal(shorter);
        if states.last().deadband_state != DeadbandState::Normal {
            assert(not_normal(states).drop_last() =~= before);
        }
    }
}

/// The summary of a health check counts the checked volumes by their state: as critical those that
/// are exceeded, as warnings those that are approaching, as healthy those that are normal.
pub proof fn law_summary_counts_volumes(
    manager: FleetManager,
    now: Timestamp,
    volume_walk: Seq<Id>,
    stripe_walk: Seq<Id>,
)
    ensures
        ({
            let checked = listed(manager.volumes(), volume_walk);
            let states = states_of(manager.deadband().configs(), checked);
            let events = manager.outcome(now, volume_walk, stripe_walk).events(manager.volumes());
            &&& events.len() > 0
            &&& events[events.len() - 1] matches FleetEventView::HealthCheck {
                total_volumes,
                healthy,
                warning,
                critical,
            }
            &&& total_volumes == checked.len()
            &&& critical == states.filter(
                |s: StorageDeadbandState| s.deadband_state == DeadbandState::Exceeded,
            ).len()
            &&& warning == states.filter(
                |s: StorageDeadbandState| s.deadband_state == DeadbandState::Approaching,
            ).len()
            &&& healthy == states.filter(
                |s: StorageDeadbandState| s.deadband_state == DeadbandState::Normal,
            ).len()
            &&& is_walk(manager.volumes(), volume_walk) ==> total_volumes
                == manager.volumes().dom().len()
        }),
{
    let checked = listed(manager.volumes(), volume_walk);
    lemma_counts(states_of(manager.deadband().configs(), checked));
    if is_walk(manager.volumes(), volume_walk) {
        law_every_volume_is_checked(manager.volumes(), volume_walk);
    }
}

/// How many events of each kind report some alarms.
proof fn lemma_alarm_events(states: Seq<StorageDeadbandState>)
    ensures
        deadband_events(states).filter(|e: FleetEventView| e is DeadbandExceeded).len() == count_of(
            states,
            DeadbandState::Exceeded,
        ),
        deadband_events(states).filter(|e: FleetEventView| e is DeadbandWarn).len() == count_of(
            states,
            DeadbandState::Approaching,
        ),
        forall|i: int|
            0 <= i < deadband_events(states).len() ==> (#[trigger] deadband_events(states)[i])
                is DeadbandExceeded || deadband_events(states)[i] is DeadbandWarn,
    decreases states.len(),
{
    reveal(Seq::filter);
    if states.len() > 0 {
        let shorter = states.drop_last();
        lemma_alarm_events(shorter);
        let before = deadband_events(shorter);
        if states.last().deadband_state != DeadbandState::Normal {
            assert(deadband_events(states).drop_last() =~= before);
        }
    }
}

/// No action is reported as an alarm.
proof fn lemma_action_events(volumes: Map<Id, Arc<Volume>>, actions: Seq<EscalationAction>)
    ensures
        action_events(volumes, actions).filter(|e: FleetEventView| e is DeadbandExceeded).len()
            == 0,
        action_events(volumes, actions).filter(|e: FleetEventView| e is DeadbandWarn).len() == 0,
        forall|i: int|
            0 <= i < action_events(volumes, actions).len() ==> (#[trigger] action_events(
                volumes,
                actions,
            )[i]) is HandoffStarted || action_events(volumes, actions)[i] is TierDegraded,
    decreases actions.len(),
{
    reveal(Seq::filter);
    if actions.len() > 0 {
        let shorter = actions.drop_last();
        lemma_action_events(volumes, shorter);
        let before = action_events(volumes, shorter);
        let all = action_events(volumes, actions);
        if all.len() > before.len() {
            assert(all.drop_last() =~= before);
        }
    }
}

/// The summary of a health check agrees with what it reports: as many volumes are critical as are
/// reported exceeded, and as many are warnings as are reported to warn about. First come the
/// alarms, then what is done about them, then the summary.
pub proof fn law_summary_agrees_with_the_report(
    outcome: HealthOutcome,
    volumes: Map<Id, Arc<Volume>>,
)
    ensures
        ({
            let events = outcome.events(volumes);
            &&& events.len() > 0
            &&& events[events.len() - 1] matches FleetEventView::HealthCheck {
                total_volumes,
                healthy,
                warning,
                critical,
            }
            &&& critical == events.filter(|e: FleetEventView| e is DeadbandExceeded).len()
            &&& warning == events.filter(|e: FleetEventView| e is DeadbandWarn).len()
            &&& forall|i: int, j: int|
                0 <= i < j < events.len() && ((#[trigger] events[j]) is DeadbandExceeded
                    || events[j] is DeadbandWarn) ==> (#[trigger] events[i]) is DeadbandExceeded
                    || events[i] is DeadbandWarn
            &&& forall|i: int|
                0 <= i < events.len() - 1 ==> !((#[trigger] events[i]) is HealthCheck)
        }),
{
    let first = deadband_events(outcome.states);
    let second = action_events(volumes, outcome.actions());
    let last = seq![crate::fleet::summary(outcome.checked, outcome.states)];
    let exceeded = |e: FleetEventView| e is DeadbandExceeded;
    let warned = |e: FleetEventView| e is DeadbandWarn;
    lemma_alarm_events(outcome.states);
    lemma_action_events(volumes, outcome.actions());
    let events = outcome.events(volumes);
    assert(events == first + second + last);
    Seq::filter_distributes_over_add(first, second, exceeded);
    Seq::filter_distributes_over_add(first + second, last, exceeded);
    Seq::filter_distributes_over_add(first, second, warned);
    Seq::filter_distributes_over_add(first + second, last, warned);
    reveal_with_fuel(Seq::filter, 2);
    assert(last.drop_last() =~= Seq::<FleetEventView>::empty());
    assert forall|i: int| 0 <= i < events.len() implies #[trigger] events[i] == if i < first.len() {
        first[i]
    } else if i < first.len() + second.len() {
        second[i - first.len()]
    } else {
        last[0]
    } by {}
}

/// Registered volumes are checked in the order of the walk; what is not registered is passed over.
pub proof fn law_volumes_are_checked_in_order(
    volumes: Map<Id, Arc<Volume>>,
    first: Seq<Id>,
    more: Seq<Id>,
    id: Id,
)
    ensures
        listed(volumes, first + more) == listed(volumes, first) + listed(volumes, more),
        listed(volumes, seq![id]) == if volumes.contains_key(id) {
            seq![volumes[id]]
        } else {
            Seq::empty()
        },
    decreases more.len(),
{
    reveal_with_fuel(listed, 2);
    assert(seq![id].drop_last() =~= Seq::<Id>::empty());
    if more.len() == 0 {
        assert(first + more =~= first);
        assert(listed(volumes, first + more) =~= listed(volumes, first) + listed(volumes, more));
    } else {
        law_volumes_are_checked_in_order(volumes, first, more.drop_last(), id);
        assert((first + more).drop_last() =~= first + more.drop_last());
        assert((first + more).last() == more.last());
        assert(listed(volumes, first + more) =~= listed(volumes, first) + listed(volumes, more));
    }
}

/// A health check finds a registered volume exactly if its state is not normal.
pub proof fn law_every_volume_out_of_range_is_found(
    manager: FleetManager,
    now: Timestamp,
    volume_walk: Seq<Id>,
    stripe_walk: Seq<Id>,
    id: Id,
)
    requires
        is_walk(manager.volumes(), volume_walk),
        manager.volumes().contains_key(id),
    ensures
        ({
            let found = manager.outcome(now, volume_walk, stripe_walk).states;
            let state = volume_state(manager.deadband().configs(), *manager.volumes()[id]);
            found.contains(state) <==> state.deadband_state != DeadbandState::Normal
        }),
{
    let checked = listed(manager.volumes(), volume_walk);
    let configs = manager.deadband().configs();
    law_every_volume_is_checked(manager.volumes(), volume_walk);
    law_alarms_are_the_volumes_not_normal(configs, checked);
    let j = choose|j: int| 0 <= j < checked.len() && checked[j] == manager.volumes()[id];
    let state = states_of(configs, checked)[j];
    assert(state == volume_state(configs, *manager.volumes()[id]));
    let found = alarms(configs, checked);
    if found.contains(state) {
        let i = choose|i: int| 0 <= i < found.len() && found[i] == state;
        assert(found[i].deadband_state != DeadbandState::Normal);
    }
}

/// Actions are reported one by one, in order: a migration as a handoff that has started, from the
/// volume it leads away from to the one it leads to, each under the name it is registered with; a
/// degraded tier with its volumes; and that there is nothing to do, not at all.
pub proof fn law_actions_are_reported_one_by_one(
    volumes: Map<Id, Arc<Volume>>,
    first: Seq<EscalationAction>,
    more: Seq<EscalationAction>,
    action: EscalationAction,
)
    ensures
        action_events(volumes, first + more) == action_events(volumes, first) + action_events(
            volumes,
            more,
        ),
        ({
            let name = |id: Id|
                if volumes.contains_key(id) {
                    volumes[id].name@
                } else {
                    Seq::<char>::empty()
                };
            action_events(volumes, seq![action]) == match action {
                EscalationAction::Migrate {
                    from_volume,
                    to_volume,
                    from_tier,
                    to_tier,
                    total_bytes,
                } => seq![
                    FleetEventView::HandoffStarted {
                        from_volume,
                        to_volume,
                        from_name: name(from_volume),
                        to_name: name(to_volume),
                    },
                ],
                EscalationAction::Degraded { tier, volumes: degraded } => seq![
                    FleetEventView::TierDegraded { tier, volumes: degraded@ },
                ],
                EscalationAction::NoOp => Seq::empty(),
            }
        }),
    decreases more.len(),
{
    reveal_with_fuel(action_events, 2);
    assert(seq![action].drop_last() =~= Seq::<EscalationAction>::empty());
    assert(seq![action].last() == action);
    if more.len() == 0 {
        assert(first + more =~= first);
        assert(action_events(volumes, first + more) =~= action_events(volumes, first)
            + action_events(volumes, more));
    } else {
        law_actions_are_reported_one_by_one(volumes, first, more.drop_last(), action);
        assert((first + more).drop_last() =~= first + more.drop_last());
        assert((first + more).last() == more.last());
        assert(action_events(volumes, first + more) =~= action_events(volumes, first)
            + action_events(volumes, more));
    }
}

/// The last migration from a volume.
proof fn lemma_last_is_last(actions: Seq<EscalationAction>, k: int)
    requires
        0 <= k < actions.len(),
        actions[k] is Migrate,
        forall|l: int|
            k < l < actions.len() && (#[trigger] actions[l]) is Migrate ==> actions[l]->from_volume
                != actions[k]->from_volume,
    ensures
        last_migration(actions, actions[k]->from_volume) == Some(
            (actions[k]->to_volume, actions[k]->total_bytes),
        ),
    decreases actions.len(),
{
    if k < actions.len() - 1 {
        let shorter = actions.drop_last();
        assert(shorter[k] == actions[k]);
        assert(actions[actions.len() - 1] == actions.last());
        assert forall|l: int|
            k < l < shorter.len() && (#[trigger] shorter[l]) is Migrate implies
            shorter[l]->from_volume != shorter[k]->from_volume by {
            assert(shorter[l] == actions[l]);
        }
        lemma_last_is_last(shorter, k);
    }
}

/// A volume that nothing leads away from has no last migration.
proof fn lemma_no_migration(actions: Seq<EscalationAction>, id: Id)
    requires
        forall|l: int|
            0 <= l < actions.len() && (#[trigger] actions[l]) is Migrate ==> actions[l]->from_volume
                != id,
    ensures
        last_migration(actions, id) is None,
    decreases actions.len(),
{
    if actions.len() > 0 {
        let shorter = actions.drop_last();
        assert(actions[actions.len() - 1] == actions.last());
        assert forall|l: int|
            0 <= l < shorter.len() && (#[trigger] shorter[l]) is Migrate implies
            shorter[l]->from_volume != id by {
            assert(shorter[l] == actions[l]);
        }
        lemma_no_migration(shorter, id);
    }
}

/// Each migration begins a handoff, filed under the volume it leads away from: to the volume and of
/// the bytes of the migration, draining, with five minutes to go and nothing moved yet. It takes
/// the place of an earlier one from the same volume.
pub proof fn law_handoff_of_each_migration(
    before: Map<Id, StorageHandoff>,
    after: Map<Id, StorageHandoff>,
    actions: Seq<EscalationAction>,
    k: int,
)
    requires
        handoffs_follow(before, after, actions, false),
        0 <= k < actions.len(),
        actions[k] is Migrate,
        forall|l: int|
            k < l < actions.len() && (#[trigger] actions[l]) is Migrate ==> actions[l]->from_volume
                != actions[k]->from_volume,
    ensures
        ({
            let from = actions[k]->from_volume;
            after.contains_key(from) && after[from]@ == (StorageHandoffView {
                from_volume: from,
                to_volume: actions[k]->to_volume,
                state: StorageHandoffState::Draining,
                total_bytes: actions[k]->total_bytes,
                migrated_bytes: 0,
                transition_duration: Duration { secs: 300, nanos: 0 },
                entries: Seq::empty(),
                progress_weight: decimal(0, 1),
            })
        }),
{
    lemma_last_is_last(actions, k);
}

/// The handoffs of volumes that nothing leads away from stay as they are, and in a dry run all do.
pub proof fn law_other_handoffs_stay(
    before: Map<Id, StorageHandoff>,
    after: Map<Id, StorageHandoff>,
    actions: Seq<EscalationAction>,
    dry_run: bool,
    id: Id,
)
    requires
        handoffs_follow(before, after, actions, dry_run),
        dry_run || forall|l: int|
            0 <= l < actions.len() && (#[trigger] actions[l]) is Migrate ==> actions[l]->from_volume
                != id,
    ensures
        after.contains_key(id) == before.contains_key(id),
        after.contains_key(id) ==> after[id] == before[id],
{
    if !dry_run {
        lemma_no_migration(actions, id);
    }
}

/// A health check leaves the configuration, the registered volumes and what is set for them alone,
/// takes volumes of the stripe out of use at most, and has the deadband fire exactly if a volume
/// was found exceeded or the deadband had fired before.
pub proof fn law_what_a_check_leaves_alone(
    manager: FleetManager,
    after: FleetManager,
    now: Timestamp,
    volume_walk: Seq<Id>,
    stripe_walk: Seq<Id>,
)
    requires
        manager.checked_into(&after, manager.outcome(now, volume_walk, stripe_walk)),
    ensures
        after.config() == manager.config(),
        after.volumes() == manager.volumes(),
        after.deadband().configs() == manager.deadband().configs(),
        after.engine().config() == manager.engine().config(),
        after.stripe()@.dom() == manager.stripe()@.dom(),
        forall|id: Id| #[trigger]
            after.stripe()@.contains_key(id) ==> {
                let (p, q) = (manager.stripe()@[id], after.stripe()@[id]);
                &&& q.healthy ==> p.healthy
                &&& q.volume_id == p.volume_id
                &&& q.volume_name == p.volume_name
                &&& q.storage_tier == p.storage_tier
                &&& q.free_bytes == p.free_bytes
                &&& q.total_bytes == p.total_bytes
                &&& q.escalation_targets == p.escalation_targets
            },
        after.deadband().fired() <==> manager.deadband().fired() || ({
            let checked = listed(manager.volumes(), volume_walk);
            exists|j: int|
                0 <= j < checked.len() && volume_state(
                    manager.deadband().configs(),
                    *#[trigger] checked[j],
                ).deadband_state == DeadbandState::Exceeded
        }),
{
    let outcome = manager.outcome(now, volume_walk, stripe_walk);
    let configs = manager.deadband().configs();
    let checked = listed(manager.volumes(), volume_walk);
    let states = states_of(configs, checked);
    crate::escalation::law_run_only_fails_volumes(
        manager.engine().config(),
        now,
        stripe_walk,
        outcome.states,
        manager.engine().start(manager.stripe()@),
    );
    law_alarms_are_the_volumes_not_normal(configs, checked);
    law_fires_on_exceeded(outcome.states, outcome.states, arbitrary());
    let found = alarms(configs, checked);
    if any_exceeded(found) {
        let i = choose|i: int|
            0 <= i < found.len() && (#[trigger] found[i]).deadband_state == DeadbandState::Exceeded;
        assert(states.contains(found[i]));
        let j = choose|j: int| 0 <= j < states.len() && states[j] == found[i];
        assert(states[j] == volume_state(configs, *checked[j]));
    }
    assert forall|j: int|
        0 <= j < checked.len() && volume_state(
            configs,
            *#[trigger] checked[j],
        ).deadband_state == DeadbandState::Exceeded implies any_exceeded(
        found,
    ) by {
        assert(states[j] == volume_state(configs, *checked[j]));
        assert(found.contains(states[j]));
        let i = choose|i: int| 0 <= i < found.len() && found[i] == states[j];
        assert(found[i].deadband_state == DeadbandState::Exceeded);
    }
}

/// Registering a volume puts it to use as it reports itself: also one that had failed, or that is
/// registered again with other numbers. It names no targets, its type decides about its tier, and
/// no other volume is touched.
pub proof fn law_registering(
    before: Map<Id, TierProfile>,
    after: Map<Id, TierProfile>,
    volume: &Volume,
    other: Id,
)
    requires
        enrolled(before, after, *volume),
    ensures
        usable(after, volume.id),
        after[volume.id].volume_id == volume.id,
        after[volume.id].volume_name == volume.name,
        after[volume.id].free_bytes == volume.available_space,
        after[volume.id].total_bytes == volume.total_capacity,
        after[volume.id].escalation_targets@.len() == 0,
        after[volume.id].storage_tier == StorageTier::Hot <==> (volume.volume_type
            == VolumeType::Primary || volume.volume_type == VolumeType::UserData
            || volume.volume_type == VolumeType::System),
        after[volume.id].storage_tier == StorageTier::Archive <==> volume.volume_type
            == VolumeType::Cloud,
        after[volume.id].storage_tier == StorageTier::Offload <==> volume.volume_type
            == VolumeType::External,
        other != volume.id ==> after.contains_key(other) == before.contains_key(other)
            && after[other] == before[other],
{
    assert(before.insert(volume.id, after[volume.id]).contains_key(volume.id));
    if other != volume.id {
        assert(before.insert(volume.id, after[volume.id])[other] == before[other]);
    }
}

/// An event says what its fields hold: an alarm the volume and how full it is, a start of a handoff
/// where it leads from and to, a degraded tier its volumes, and a summary each of its counts.
pub proof fn law_events_say_what_they_hold(event: FleetEvent)
    ensures
        match event {
            FleetEvent::DeadbandWarn { volume_name: name, utilization_pct: pct } => {
                event@ matches FleetEventView::DeadbandWarn { volume_name, utilization_pct }
                    && volume_name == name@ && utilization_pct == pct
            },
            FleetEvent::DeadbandExceeded { volume_name: name, utilization_pct: pct } => {
                event@ matches FleetEventView::DeadbandExceeded { volume_name, utilization_pct }
                    && volume_name == name@ && utilization_pct == pct
            },
            FleetEvent::HandoffStarted {
                from_volume: from,
                to_volume: to,
                from_name: source,
                to_name: target,
            } => {
                event@ matches FleetEventView::HandoffStarted {
                    from_volume,
                    to_volume,
                    from_name,
                    to_name,
                } && from_volume == from && to_volume == to && from_name == source@ && to_name
                    == target@
            },
            FleetEvent::HandoffProgress { from_volume: from, to_volume: to, progress_pct: pct } => {
                event@ matches FleetEventView::HandoffProgress {
                    from_volume,
                    to_volume,
                    progress_pct,
                } && from_volume == from && to_volume == to && progress_pct == pct
            },
            FleetEvent::HandoffComplete { from_volume: from, to_volume: to } => {
                event@ matches FleetEventView::HandoffComplete { from_volume, to_volume }
                    && from_volume == from && to_volume == to
            },
            FleetEvent::HandoffCancelled { from_volume: from, to_volume: to } => {
                event@ matches FleetEventView::HandoffCancelled { from_volume, to_volume }
                    && from_volume == from && to_volume == to
            },
            FleetEvent::TierDegraded { tier: degraded, volumes: ids } => {
                event@ matches FleetEventView::TierDegraded { tier, volumes } && tier == degraded
                    && volumes == ids@
            },
            FleetEvent::HealthCheck {
                total_volumes: checked,
                healthy: normal,
                warning: approaching,
                critical: exceeded,
            } => {
                event@ matches FleetEventView::HealthCheck {
                    total_volumes,
                    healthy,
                    warning,
                    critical,
                } && total_volumes == checked && healthy == normal && warning == approaching
                    && critical == exceeded
            },
        },
{
}

} // verus!
