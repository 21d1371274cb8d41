//! Escalation: which volumes are acted on, what is planned for them, and how much moves.

use crate::binary64::laws::{
    is_amount, law_order_is_that_of_bits, law_product_keeps_order, law_quotient_by_itself,
    law_quotient_is_share, law_quotient_keeps_order, law_rest_of_one, law_u64_is_finite,
    law_whole_numbers_are_exact, law_whole_numbers_keep_order,
};
use crate::binary64::{
    at_most, decimal, difference, one_units, product, quotient, whole_part, Binary64,
};
use crate::deadband::StorageDeadbandState;
use crate::escalation::{
    absorbable, default_escalation, escalated, escalated_all, law_plans_are_kept,
    law_planned_is_sound, law_run_only_fails_volumes, migration_for, or_no_op, tier_of,
    EscalationAction, EscalationConfig, EscalationRun,
};
use crate::internal::cocapn_core::DeadbandState;
use crate::internal::sd_core::{utilization_pct, Id};
use crate::laws::stripe::{
    law_escalation_leads_to_a_healthy_volume, law_failing_changes_health_alone,
    law_first_named_target_takes_over, law_first_volume_of_the_next_tier_takes_over, may_succeed,
    usable,
};
use crate::stripe::{escalation_of, with_failed, StorageStripeEvent, TierProfile};
use crate::tiering::StorageTier;
use crate::time::Timestamp;
use vstd::prelude::*;

verus! {

/// Whether no two states are of the same volume.
pub open spec fn of_distinct_volumes(states: Seq<StorageDeadbandState>) -> bool {
    forall|i: int, j: int|
        0 <= i < j < states.len() ==> (#[trigger] states[i]).volume_id != (
        #[trigger] states[j]).volume_id
}

/// A critically full volume is acted on, and so fails in the stripe, unless a migration from that
/// very volume was planned less than the cooldown ago; then, and where the volume is not critically
/// full, nothing at all happens.
pub proof fn law_acted_on_unless_in_own_cooldown(
    config: EscalationConfig,
    now: Timestamp,
    walk: Seq<Id>,
    state: StorageDeadbandState,
    run: EscalationRun,
)
    ensures
        ({
            let id = state.volume_id;
            let after = escalated(config, now, walk, state, run);
            let since = now.total_nanos() - run.last[id].total_nanos();
            let cooling = run.last.contains_key(id) && 0 <= since && since
                < config.cooldown.total_nanos();
            if state.deadband_state == DeadbandState::Exceeded && !cooling {
                run.profiles.contains_key(id) ==> !after.profiles[id].healthy
            } else {
                after == run
            }
        }),
{
    law_failing_changes_health_alone(run.profiles, state.volume_id);
}

/// The cooldown of a volume depends on the last migration from that volume alone: what is recorded
/// of other volumes changes neither what is planned nor which volumes fail.
pub proof fn law_other_cooldowns_do_not_matter(
    config: EscalationConfig,
    now: Timestamp,
    walk: Seq<Id>,
    state: StorageDeadbandState,
    run: EscalationRun,
    other: Id,
    at: Timestamp,
)
    requires
        other != state.volume_id,
    ensures
        ({
            let after = escalated(config, now, walk, state, run);
            let more = EscalationRun { last: run.last.insert(other, at), ..run };
            let less = EscalationRun { last: run.last.remove(other), ..run };
            &&& escalated(config, now, walk, state, more).profiles == after.profiles
            &&& escalated(config, now, walk, state, more).actions == after.actions
            &&& escalated(config, now, walk, state, less).profiles == after.profiles
            &&& escalated(config, now, walk, state, less).actions == after.actions
        }),
{
}

/// States are handled one after the other, in order.
pub proof fn law_states_are_handled_in_order(
    config: EscalationConfig,
    now: Timestamp,
    walk: Seq<Id>,
    first: Seq<StorageDeadbandState>,
    more: Seq<StorageDeadbandState>,
    run: EscalationRun,
)
    ensures
        escalated_all(config, now, walk, first + more, run) == escalated_all(
            config,
            now,
            walk,
            more,
            escalated_all(config, now, walk, first, run),
        ),
        first.len() == 0 ==> escalated_all(config, now, walk, first, run) == run,
        first.len() == 1 ==> escalated_all(config, now, walk, first, run) == escalated(
            config,
            now,
            walk,
            first[0],
            run,
        ),
    decreases more.len(),
{
    reveal_with_fuel(escalated_all, 2);
    if more.len() == 0 {
        assert(first + more =~= first);
    } else {
        law_states_are_handled_in_order(config, now, walk, first, more.drop_last(), run);
        assert((first + more).drop_last() =~= first + more.drop_last());
        assert((first + more).last() == more.last());
    }
}

/// What is recorded of a volume changes only where a state of it is handled.
proof fn lemma_last_of_others(
    config: EscalationConfig,
    now: Timestamp,
    walk: Seq<Id>,
    states: Seq<StorageDeadbandState>,
    run: EscalationRun,
    id: Id,
)
    requires
        forall|i: int| 0 <= i < states.len() ==> (#[trigger] states[i]).volume_id != id,
    ensures
        ({
            let after = escalated_all(config, now, walk, states, run);
            &&& after.last.contains_key(id) == run.last.contains_key(id)
            &&& after.last[id] == run.last[id]
        }),
    decreases states.len(),
{
    if states.len() > 0 {
        let shorter = states.drop_last();
        assert forall|i: int| 0 <= i < shorter.len() implies (#[trigger] shorter[i]).volume_id
            != id by {
            assert(states[i] == shorter[i]);
        }
        assert(states[states.len() - 1].volume_id != id);
        lemma_last_of_others(config, now, walk, shorter, run, id);
    }
}

/// A run over the states of distinct volumes fails exactly those that are critically full and not
/// in cooldown from a migration of their own, however many there are.
pub proof fn law_full_volumes_fail(
    config: EscalationConfig,
    now: Timestamp,
    walk: Seq<Id>,
    states: Seq<StorageDeadbandState>,
    run: EscalationRun,
    id: Id,
)
    requires
        of_distinct_volumes(states),
        run.profiles.contains_key(id),
    ensures
        ({
            let after = escalated_all(config, now, walk, states, run);
            let since = now.total_nanos() - run.last[id].total_nanos();
            let cooling = run.last.contains_key(id) && 0 <= since && since
                < config.cooldown.total_nanos();
            let full = exists|i: int|
                0 <= i < states.len() && (#[trigger] states[i]).volume_id == id
                    && states[i].deadband_state == DeadbandState::Exceeded;
            &&& after.profiles.contains_key(id)
            &&& after.profiles[id].healthy <==> run.profiles[id].healthy && !(full && !cooling)
        }),
    decreases states.len(),
{
    if states.len() > 0 {
        let shorter = states.drop_last();
        let last = states.last();
        assert forall|i: int, j: int| 0 <= i < j < shorter.len() implies (
        #[trigger] shorter[i]).volume_id != (#[trigger] shorter[j]).volume_id by {
            assert(states[i] == shorter[i] && states[j] == shorter[j]);
        }
        law_full_volumes_fail(config, now, walk, shorter, run, id);
        let before = escalated_all(config, now, walk, shorter, run);
        law_acted_on_unless_in_own_cooldown(config, now, walk, last, before);
        law_failing_changes_health_alone(before.profiles, last.volume_id);
        assert(states[states.len() - 1] == last);
        if last.volume_id == id {
            assert forall|i: int| 0 <= i < shorter.len() implies (#[trigger] shorter[i]).volume_id
                != id by {
                assert(states[i] == shorter[i]);
            }
            lemma_last_of_others(config, now, walk, shorter, run, id);
        }
        if exists|i: int|
            0 <= i < shorter.len() && (#[trigger] shorter[i]).volume_id == id
                && shorter[i].deadband_state == DeadbandState::Exceeded {
            let i = choose|i: int|
                0 <= i < shorter.len() && (#[trigger] shorter[i]).volume_id == id
                    && shorter[i].deadband_state == DeadbandState::Exceeded;
            assert(states[i] == shorter[i]);
        }
        if exists|i: int|
            0 <= i < states.len() && (#[trigger] states[i]).volume_id == id
                && states[i].deadband_state == DeadbandState::Exceeded {
            let i = choose|i: int|
                0 <= i < states.len() && (#[trigger] states[i]).volume_id == id
                    && states[i].deadband_state == DeadbandState::Exceeded;
            if i < shorter.len() {
                assert(shorter[i] == states[i]);
            }
        }
    }
}

/// A run plans a migration away from every critically full volume that is not in its own cooldown,
/// also where several are full at once: provided that migrations need no approval, that something
/// which is not itself among the volumes at hand can take over, and that all healthy volumes have
/// room. The migration leads to a volume that was healthy.
pub proof fn law_every_full_volume_is_migrated(
    config: EscalationConfig,
    now: Timestamp,
    walk: Seq<Id>,
    states: Seq<StorageDeadbandState>,
    run: EscalationRun,
    i: int,
    able: Id,
)
    requires
        config.auto_migrate,
        of_distinct_volumes(states),
        0 <= i < states.len(),
        states[i].deadband_state == DeadbandState::Exceeded,
        run.profiles.contains_key(states[i].volume_id),
        // The volume is not in its own cooldown.
        !run.last.contains_key(states[i].volume_id) || now.total_nanos()
            - run.last[states[i].volume_id].total_nanos() >= config.cooldown.total_nanos()
            || now.total_nanos() < run.last[states[i].volume_id].total_nanos(),
        // Something can take over from it.
        usable(run.profiles, able),
        forall|j: int| 0 <= j < states.len() ==> (#[trigger] states[j]).volume_id != able,
        ({
            let profile = run.profiles[states[i].volume_id];
            if profile.escalation_targets@.len() > 0 {
                profile.escalation_targets@.contains(able)
            } else {
                walk.contains(able) && may_succeed(
                    run.profiles[able].storage_tier,
                    profile.storage_tier,
                )
            }
        }),
        // There is room.
        forall|v: Id| #[trigger]
            run.profiles.contains_key(v) && run.profiles[v].healthy ==> !at_most(
                config.target_max_util_pct,
                utilization_pct(run.profiles[v].total_bytes, run.profiles[v].free_bytes),
            ) && absorbable(run.profiles[v].free_bytes, config.target_max_util_pct) > 0,
    ensures
        ({
            let actions = escalated_all(config, now, walk, states, run).actions;
            exists|k: int|
                run.actions.len() <= k < actions.len() && ((#[trigger] actions[k]) matches
                    EscalationAction::Migrate {
                    from_volume,
                    to_volume,
                    from_tier,
                    to_tier,
                    total_bytes,
                } && from_volume == states[i].volume_id && usable(run.profiles, to_volume)
                    && from_tier == run.profiles[from_volume].storage_tier)
        }),
{
    let earlier = states.take(i);
    let state = states[i];
    let id = state.volume_id;
    let later = states.skip(i + 1);
    assert(states =~= earlier + seq![state] + later);
    let before = escalated_all(config, now, walk, earlier, run);
    let after = escalated(config, now, walk, state, before);
    law_states_are_handled_in_order(config, now, walk, earlier + seq![state], later, run);
    law_states_are_handled_in_order(config, now, walk, earlier, seq![state], run);
    law_states_are_handled_in_order(config, now, walk, seq![state], later, before);
    assert(escalated_all(config, now, walk, seq![state], before) == after);
    // The volumes handled before have not touched this one, nor the one that can take over.
    assert forall|j: int| 0 <= j < earlier.len() implies (#[trigger] earlier[j]).volume_id != id
        && earlier[j].volume_id != able by {
        assert(earlier[j] == states[j] && states[i] == state);
    }
    assert forall|j: int, k: int| 0 <= j < k < earlier.len() implies (
    #[trigger] earlier[j]).volume_id != (#[trigger] earlier[k]).volume_id by {
        assert(earlier[j] == states[j] && earlier[k] == states[k]);
    }
    lemma_last_of_others(config, now, walk, earlier, run, id);
    law_full_volumes_fail(config, now, walk, earlier, run, able);
    law_run_only_fails_volumes(config, now, walk, earlier, run);
    law_plans_are_kept(config, now, walk, earlier, run);
    law_plans_are_kept(config, now, walk, later, after);
    let profiles = with_failed(before.profiles, id);
    law_failing_changes_health_alone(before.profiles, id);
    assert(states[i].volume_id != able);
    assert(before.profiles.contains_key(id) && profiles.contains_key(id));
    assert(before.profiles.contains_key(able) && profiles.contains_key(able));
    assert(usable(profiles, able));
    let targets = profiles[id].escalation_targets@;
    if targets.len() > 0 {
        law_first_named_target_takes_over(profiles, walk, id);
        let k = choose|k: int| 0 <= k < targets.len() && targets[k] == able;
        assert(usable(profiles, targets[k]));
    } else {
        law_first_volume_of_the_next_tier_takes_over(profiles, walk, id);
        let k = choose|k: int| 0 <= k < walk.len() && walk[k] == able;
        assert(usable(profiles, walk[k]));
    }
    law_escalation_leads_to_a_healthy_volume(profiles, walk, id);
    let event = escalation_of(profiles, walk, id)->0;
    let target = event->Escalated_volume_id;
    assert(profiles.contains_key(target) && before.profiles.contains_key(target));
    assert(run.profiles.contains_key(target));
    assert(after.actions.len() == before.actions.len() + 1);
    let k = before.actions.len() as int;
    let actions = escalated_all(config, now, walk, states, run).actions;
    assert(actions[k] == after.actions[k]);
}

/// When a migration is planned for a critically full volume that is not in its own cooldown, and
/// where it leads: exactly if migrations need no approval and the volume that takes over, once this
/// one has failed, is used less than the limit and has room; and to that volume. At most one is
/// planned.
pub proof fn law_when_a_migration_is_planned(
    config: EscalationConfig,
    now: Timestamp,
    walk: Seq<Id>,
    state: StorageDeadbandState,
    run: EscalationRun,
)
    requires
        state.deadband_state == DeadbandState::Exceeded,
        !run.last.contains_key(state.volume_id) || now.total_nanos()
            - run.last[state.volume_id].total_nanos() >= config.cooldown.total_nanos()
            || now.total_nanos() < run.last[state.volume_id].total_nanos(),
    ensures
        ({
            let id = state.volume_id;
            let profiles = with_failed(run.profiles, id);
            let actions = escalated(config, now, walk, state, run).actions;
            let limit = config.target_max_util_pct;
            let able = match escalation_of(profiles, walk, id) {
                Some(StorageStripeEvent::Escalated { from_tier, to_tier, volume_id }) => !at_most(
                    limit,
                    utilization_pct(
                        profiles[volume_id].total_bytes,
                        profiles[volume_id].free_bytes,
                    ),
                ) && whole_part(
                    product(
                        decimal(profiles[volume_id].free_bytes as nat, 1),
                        difference(decimal(1, 1), quotient(limit, decimal(100, 1))),
                    ),
                ) > 0,
                _ => false,
            };
            if config.auto_migrate && able {
                &&& actions.len() == run.actions.len() + 1
                &&& actions.drop_last() == run.actions
                &&& actions.last() matches EscalationAction::Migrate {
                    from_volume,
                    to_volume,
                    from_tier,
                    to_tier,
                    total_bytes,
                }
                &&& from_volume == id
                &&& escalation_of(profiles, walk, id) == Some(
                    StorageStripeEvent::Escalated { from_tier, to_tier, volume_id: to_volume },
                )
            } else {
                actions == run.actions
            }
        }),
{
    let id = state.volume_id;
    let profiles = with_failed(run.profiles, id);
    law_escalation_leads_to_a_healthy_volume(profiles, walk, id);
    law_failing_changes_health_alone(run.profiles, id);
    let actions = escalated(config, now, walk, state, run).actions;
    if actions.len() > run.actions.len() {
        assert(actions.drop_last() =~= run.actions);
    }
}

/// What answers an event, whatever the event: a migration exactly where a volume of the stripe
/// escalates to a healthy volume of the tier that the event names, which is used less than the
/// limit and has room, and migrations need no approval. The migration leads from that volume to the
/// one that the event names, between the tiers that it names.
pub proof fn law_what_answers_an_event(
    config: EscalationConfig,
    profiles: Map<Id, TierProfile>,
    from: Id,
    event: StorageStripeEvent,
)
    ensures
        ({
            let limit = config.target_max_util_pct;
            let room = |id: Id|
                whole_part(
                    product(
                        decimal(profiles[id].free_bytes as nat, 1),
                        difference(decimal(1, 1), quotient(limit, decimal(100, 1))),
                    ),
                );
            match event {
                StorageStripeEvent::Escalated { from_tier: out_of, to_tier: into, volume_id } => {
                    let able = usable(profiles, volume_id) && profiles[volume_id].storage_tier
                        == into && !at_most(
                        limit,
                        utilization_pct(
                            profiles[volume_id].total_bytes,
                            profiles[volume_id].free_bytes,
                        ),
                    ) && room(volume_id) > 0;
                    if profiles.contains_key(from) && able && config.auto_migrate {
                        &&& migration_for(config, profiles, from, event) matches Some(
                            EscalationAction::Migrate {
                                from_volume,
                                to_volume,
                                from_tier,
                                to_tier,
                                total_bytes,
                            },
                        )
                        &&& from_volume == from && to_volume == volume_id
                        &&& from_tier == out_of && to_tier == into
                        &&& total_bytes == room(volume_id)
                    } else {
                        migration_for(config, profiles, from, event) is None
                    }
                },
                _ => migration_for(config, profiles, from, event) is None,
            }
        }),
{
}

/// The tier of a volume is the one that its profile says; a volume that is not in the stripe has
/// none.
pub proof fn law_tier_is_that_of_the_profile(profiles: Map<Id, TierProfile>, id: Id)
    ensures
        forall|tier: StorageTier| #[trigger]
            tier_of(profiles, id) == Some(tier) <==> profiles.contains_key(id)
                && profiles[id].storage_tier == tier,
{
}

/// Where nothing else is said, a volume is left alone for five minutes after a migration from it,
/// targets are filled up to 85 percent, cold files go first, and nobody is asked.
pub proof fn law_default_escalation()
    ensures
        default_escalation().cooldown.total_nanos() == 5 * 60 * 1_000_000_000,
        default_escalation().target_max_util_pct == decimal(85, 1),
        default_escalation().prioritize_cold_files,
        default_escalation().auto_migrate,
{
}

/// What is answered is what is planned; only where nothing is, it is answered that nothing is to be
/// done.
pub proof fn law_the_answer_is_the_plan(actions: Seq<EscalationAction>)
    ensures
        actions.len() > 0 ==> or_no_op(actions) == actions,
        actions.len() == 0 ==> or_no_op(actions).len() == 1 && or_no_op(actions)[0]
            == EscalationAction::NoOp,
{
}

/// Migrations are planned in the order of the states, each away from a volume whose state is
/// handled, and at most one for each state.
pub proof fn law_migrations_follow_the_states(
    config: EscalationConfig,
    now: Timestamp,
    walk: Seq<Id>,
    states: Seq<StorageDeadbandState>,
    run: EscalationRun,
)
    requires
        run.actions.len() == 0,
    ensures
        ({
            let actions = escalated_all(config, now, walk, states, run).actions;
            &&& actions.len() <= states.len()
            &&& forall|k: int|
                0 <= k < actions.len() ==> ((#[trigger] actions[k]) is Migrate && exists|i: int|
                    0 <= i < states.len() && (#[trigger] states[i]).volume_id
                        == actions[k]->from_volume)
            &&& forall|k: int, l: int|
                0 <= k < l < actions.len() ==> exists|i: int, j: int|
                    0 <= i < j < states.len() && (#[trigger] states[i]).volume_id == (
                    #[trigger] actions[k])->from_volume && (#[trigger] states[j]).volume_id == (
                    #[trigger] actions[l])->from_volume
        }),
    decreases states.len(),
{
    law_planned_is_sound(config, now, walk, states, run);
    let actions = escalated_all(config, now, walk, states, run).actions;
    assert forall|k: int| 0 <= k < actions.len() implies (#[trigger] actions[k]) is Migrate
        && exists|i: int|
        0 <= i < states.len() && (#[trigger] states[i]).volume_id == actions[k]->from_volume by {
        assert(crate::escalation::is_sound(config, run.profiles, states, actions[k]));
    }
    if states.len() > 0 {
        let shorter = states.drop_last();
        law_migrations_follow_the_states(config, now, walk, shorter, run);
        let before = escalated_all(config, now, walk, shorter, run).actions;
        let last = states.len() - 1;
        assert(states[last] == states.last());
        assert forall|k: int, l: int| 0 <= k < l < actions.len() implies exists|i: int, j: int|
            0 <= i < j < states.len() && (#[trigger] states[i]).volume_id == (
            #[trigger] actions[k])->from_volume && (#[trigger] states[j]).volume_id == (
            #[trigger] actions[l])->from_volume by {
            assert(actions[k] == before[k]);
            if l < before.len() {
                assert(actions[l] == before[l]);
                let (i, j) = choose|i: int, j: int|
                    0 <= i < j < shorter.len() && (#[trigger] shorter[i]).volume_id
                        == before[k]->from_volume && (#[trigger] shorter[j]).volume_id
                        == before[l]->from_volume;
                assert(states[i] == shorter[i] && states[j] == shorter[j]);
            } else {
                let i = choose|i: int|
                    0 <= i < shorter.len() && (#[trigger] shorter[i]).volume_id
                        == before[k]->from_volume;
                assert(states[i] == shorter[i]);
                assert(states[last].volume_id == actions[l]->from_volume);
            }
        }
    }
}

/// The time is recorded of exactly those volumes that a migration was planned from; what is
/// recorded of the others stays.
pub proof fn law_planned_migrations_are_recorded(
    config: EscalationConfig,
    now: Timestamp,
    walk: Seq<Id>,
    states: Seq<StorageDeadbandState>,
    run: EscalationRun,
    id: Id,
)
    requires
        run.actions.len() == 0,
    ensures
        ({
            let after = escalated_all(config, now, walk, states, run);
            let planned = exists|k: int|
                0 <= k < after.actions.len() && (#[trigger] after.actions[k])->from_volume == id;
            if planned {
                after.last.contains_key(id) && after.last[id] == now
            } else {
                after.last.contains_key(id) == run.last.contains_key(id) && after.last[id]
                    == run.last[id]
            }
        }),
    decreases states.len(),
{
    if states.len() > 0 {
        let shorter = states.drop_last();
        law_planned_migrations_are_recorded(config, now, walk, shorter, run, id);
        let before = escalated_all(config, now, walk, shorter, run);
        let after = escalated_all(config, now, walk, states, run);
        if exists|k: int|
            0 <= k < before.actions.len() && (#[trigger] before.actions[k])->from_volume == id {
            let k = choose|k: int|
                0 <= k < before.actions.len() && (#[trigger] before.actions[k])->from_volume == id;
            assert(after.actions[k] == before.actions[k]);
        }
        if after.actions.len() > before.actions.len() {
            assert(after.actions[before.actions.len() as int]->from_volume
                == states.last().volume_id);
        }
        if exists|k: int|
            0 <= k < after.actions.len() && (#[trigger] after.actions[k])->from_volume == id {
            let k = choose|k: int|
                0 <= k < after.actions.len() && (#[trigger] after.actions[k])->from_volume == id;
            if k < before.actions.len() {
                assert(before.actions[k] == after.actions[k]);
            }
        }
    }
}

/// Every planned migration leads from a critically full volume of the stripe to another one that
/// was healthy and was used less than the limit for targets, names the tiers of the two, and moves
/// the part of the target's free space that the limit leaves, cut to whole bytes.
pub proof fn law_what_a_migration_moves(
    config: EscalationConfig,
    now: Timestamp,
    walk: Seq<Id>,
    states: Seq<StorageDeadbandState>,
    run: EscalationRun,
    k: int,
)
    requires
        run.actions.len() == 0,
        0 <= k < escalated_all(config, now, walk, states, run).actions.len(),
    ensures
        escalated_all(config, now, walk, states, run).actions[k] matches EscalationAction::Migrate {
            from_volume,
            to_volume,
            from_tier,
            to_tier,
            total_bytes,
        } && {
            let source = run.profiles[from_volume];
            let target = run.profiles[to_volume];
            let limit = config.target_max_util_pct;
            &&& run.profiles.contains_key(from_volume)
            &&& run.profiles.contains_key(to_volume)
            &&& from_volume != to_volume
            &&& target.healthy
            &&& source.storage_tier == from_tier
            &&& target.storage_tier == to_tier
            &&& !at_most(limit, utilization_pct(target.total_bytes, target.free_bytes))
            &&& total_bytes > 0
            &&& total_bytes == whole_part(
                product(
                    decimal(target.free_bytes as nat, 1),
                    difference(decimal(1, 1), quotient(limit, decimal(100, 1))),
                ),
            )
            &&& config.auto_migrate
            &&& exists|i: int|
                0 <= i < states.len() && (#[trigger] states[i]).volume_id == from_volume
                    && states[i].deadband_state == DeadbandState::Exceeded
        },
{
    law_planned_is_sound(config, now, walk, states, run);
    let actions = escalated_all(config, now, walk, states, run).actions;
    assert(crate::escalation::is_sound(config, run.profiles, states, actions[k]));
    if !config.auto_migrate {
        crate::escalation::law_no_migration_without_approval(config, now, walk, states, run);
    }
}

/// A larger whole part of a larger amount.
proof fn lemma_whole_part_keeps_order(a: Binary64, b: Binary64)
    requires
        is_amount(a),
        is_amount(b),
        a.is_finite(),
        b.is_finite(),
        at_most(a, b),
    ensures
        whole_part(a) <= whole_part(b),
{
    let one = one_units();
    vstd::arithmetic::power2::lemma_pow2_pos(1074);
    vstd::arithmetic::div_mod::lemma_div_is_ordered(
        a.units() as int,
        b.units() as int,
        one as int,
    );
}

/// A volume with more free space absorbs no less, a higher limit lets a volume absorb no more, and
/// a limit of 100 percent leaves nothing to absorb.
pub proof fn law_room_follows_free_space_and_limit(
    less: u64,
    more: u64,
    lower: Binary64,
    higher: Binary64,
)
    requires
        less <= more,
        is_amount(lower),
        is_amount(higher),
        at_most(lower, higher),
        at_most(higher, decimal(100, 1)),
    ensures
        absorbable(less, lower) <= absorbable(more, lower),
        absorbable(less, higher) <= absorbable(less, lower),
        absorbable(less, decimal(100, 1)) == 0,
{
    let hundred = decimal(100, 1);
    let a = decimal(less as nat, 1);
    let b = decimal(more as nat, 1);
    let used_lower = quotient(lower, hundred);
    let used_higher = quotient(higher, hundred);
    let rest_lower = difference(decimal(1, 1), used_lower);
    let rest_higher = difference(decimal(1, 1), used_higher);
    let used_all = quotient(hundred, hundred);
    let rest_none = difference(decimal(1, 1), used_all);
    law_whole_numbers_are_exact(1);
    law_whole_numbers_are_exact(100);
    law_u64_is_finite(100);
    law_u64_is_finite(less);
    law_u64_is_finite(more);
    law_order_is_that_of_bits(lower, higher);
    law_order_is_that_of_bits(higher, hundred);
    law_order_is_that_of_bits(lower, hundred);
    law_order_is_that_of_bits(hundred, hundred);
    law_quotient_is_share(lower, hundred);
    law_quotient_is_share(higher, hundred);
    law_quotient_is_share(hundred, hundred);
    law_quotient_keeps_order(lower, higher, hundred);
    law_rest_of_one(used_lower, used_higher);
    law_rest_of_one(used_all, used_all);
    law_whole_numbers_keep_order(less as nat, more as nat);
    law_product_keeps_order(a, b, rest_lower);
    law_product_keeps_order(rest_higher, rest_lower, a);
    lemma_product_commutes(a, rest_lower);
    lemma_product_commutes(b, rest_lower);
    lemma_product_commutes(a, rest_higher);
    crate::binary64::laws::law_product_with_share(rest_lower, b);
    crate::binary64::laws::law_product_with_share(rest_lower, a);
    crate::binary64::laws::law_product_with_share(rest_higher, a);
    lemma_whole_part_keeps_order(product(a, rest_lower), product(b, rest_lower));
    lemma_whole_part_keeps_order(product(a, rest_higher), product(a, rest_lower));
    // A limit of 100 percent.
    law_quotient_by_itself(hundred);
    assert(rest_none.bits == 0);
    crate::binary64::laws::law_numbers_are_exact(0);
    let one = one_units();
    vstd::arithmetic::power2::lemma_pow2_pos(1074);
    assert((a.units() * 0) * 1 == 0 * one) by (nonlinear_arith);
    crate::binary64::laws::law_equal_ratios_round_alike(a.units() * 0, one, 0, 1);
    assert(product(a, rest_none).bits == 0);
    assert(0nat / one == 0) by (nonlinear_arith)
        requires
            one > 0,
    ;
}

/// Products of finite amounts do not depend on the order.
proof fn lemma_product_commutes(a: Binary64, b: Binary64)
    requires
        is_amount(a),
        is_amount(b),
        a.is_finite(),
        b.is_finite(),
    ensures
        product(a, b) == product(b, a),
{
    assert(a.units() * b.units() == b.units() * a.units()) by (nonlinear_arith);
}

} // verus!
