//! Calls on an escalation engine.

use crate::binary64::{at_most, decimal, difference, product, quotient, whole_part};
use crate::deadband::StorageDeadbandState;
use crate::escalation::{
    absorbable, escalated, escalated_all, or_no_op, EscalationAction, EscalationConfig,
    EscalationEngine, EscalationRun,
};
use crate::internal::cocapn_core::DeadbandState;
use crate::internal::sd_core::{utilization_pct, Id};
use crate::laws::escalation::{
    law_acted_on_unless_in_own_cooldown, law_every_full_volume_is_migrated, law_full_volumes_fail,
    law_migrations_follow_the_states, law_planned_migrations_are_recorded,
    law_states_are_handled_in_order, law_tier_is_that_of_the_profile, law_what_a_migration_moves,
    law_what_answers_an_event, law_when_a_migration_is_planned, of_distinct_volumes,
};
use crate::laws::stripe::{
    law_escalation_leads_to_a_healthy_volume, law_failing_changes_health_alone, may_succeed, usable,
};
use crate::stripe::{with_failed, StorageStripe, StorageStripeEvent};
use crate::tiering::StorageTier;
use crate::time::Timestamp;
use crate::walk::is_walk;
use vstd::prelude::*;

verus! {

/// Whether a migration from a volume was planned less than the cooldown ago.
pub open spec fn cooling(engine: EscalationEngine, id: Id, now: Timestamp) -> bool {
    engine.last().contains_key(id) && 0 <= now.total_nanos() - engine.last()[id].total_nanos()
        < engine.config().cooldown.total_nanos()
}

/// The migrations among some actions.
pub open spec fn planned(actions: Seq<EscalationAction>) -> Seq<EscalationAction> {
    actions.filter(|action: EscalationAction| action is Migrate)
}

/// A new engine goes by the given configuration and has planned nothing yet.
pub proof fn law_new_engine(config: EscalationConfig, engine: EscalationEngine, id: Id)
    requires
        call_ensures(EscalationEngine::new, (config,), engine),
    ensures
        engine.config() == config,
        !engine.last().contains_key(id),
{
}

/// What answers an event. A degraded tier is passed on with the volume at hand: as the tier of that
/// volume, or as the bulk tier where the volume is not in the stripe. An escalation of a volume of
/// the stripe to a healthy volume of the tier that the event names, which is used less than the
/// limit and has room, is answered with a migration, if migrations need no approval. Nothing else
/// is answered.
pub proof fn law_action_for(
    engine: &EscalationEngine,
    stripe: &StorageStripe,
    from: Id,
    event: &StorageStripeEvent,
    r: Option<EscalationAction>,
)
    requires
        call_ensures(EscalationEngine::action_for, (engine, stripe, from, event), r),
    ensures
        ({
            let limit = engine.config().target_max_util_pct;
            let room = |id: Id|
                whole_part(
                    product(
                        decimal(stripe@[id].free_bytes as nat, 1),
                        difference(decimal(1, 1), quotient(limit, decimal(100, 1))),
                    ),
                );
            match *event {
                StorageStripeEvent::Degraded { remaining_tiers } => {
                    &&& r matches Some(EscalationAction::Degraded { tier, volumes })
                    &&& volumes@ == seq![from]
                    &&& stripe@.contains_key(from) ==> tier == stripe@[from].storage_tier
                    &&& !stripe@.contains_key(from) ==> tier == StorageTier::Bulk
                },
                StorageStripeEvent::Escalated { from_tier: out_of, to_tier: into, volume_id } => {
                    let able = usable(stripe@, volume_id) && stripe@[volume_id].storage_tier == into
                        && !at_most(
                        limit,
                        utilization_pct(
                            stripe@[volume_id].total_bytes,
                            stripe@[volume_id].free_bytes,
                        ),
                    ) && room(volume_id) > 0;
                    if stripe@.contains_key(from) && able && engine.config().auto_migrate {
                        &&& r matches Some(
                            EscalationAction::Migrate {
                                from_volume,
                                to_volume,
                                from_tier,
                                to_tier,
                                total_bytes,
                            },
                        )
                        &&& from_volume == from && to_volume == volume_id
                        &&& from_tier == out_of && to_tier == into
                        &&& total_bytes == room(volume_id)
                    } else {
                        r is None
                    }
                },
                _ => r is None,
            }
        }),
{
    law_what_answers_an_event(engine.config(), stripe@, from, *event);
    law_tier_is_that_of_the_profile(stripe@, from);
}

/// What one deadband state leads to. A volume that is critically full, and from which no migration
/// was planned less than the cooldown ago, fails; what was planned for other volumes plays no part.
/// If the volume that takes over from it is used less than the limit and has room, and migrations
/// need no approval, a migration to that volume is planned, and the time is recorded. In all other
/// cases nothing is planned or recorded, and it is said that there is nothing to do. Where the
/// volume is not critically full, or cooling down, nothing changes at all.
pub proof fn law_process_one(
    engine: &mut EscalationEngine,
    now: Timestamp,
    walk: &[Id],
    state: StorageDeadbandState,
    states: &[StorageDeadbandState],
    stripe: &mut StorageStripe,
    r: Vec<EscalationAction>,
    event: Option<StorageStripeEvent>,
    v: Id,
)
    requires
        states@ == seq![state],
        old(engine).wf(),
        now.valid(),
        call_ensures(
            EscalationEngine::process_deadband_at,
            (engine, now, walk, states, stripe),
            r,
        ),
        call_ensures(
            StorageStripe::escalation_along,
            (final(stripe), walk, state.volume_id),
            event,
        ),
    ensures
        final(engine).config() == old(engine).config(),
        r@.len() == 1,
        ({
            let id = state.volume_id;
            let limit = old(engine).config().target_max_util_pct;
            let acted = state.deadband_state == DeadbandState::Exceeded && !cooling(
                *old(engine),
                id,
                now,
            );
            let able = match event {
                Some(StorageStripeEvent::Escalated { from_tier, to_tier, volume_id }) => !at_most(
                    limit,
                    utilization_pct(
                        old(stripe)@[volume_id].total_bytes,
                        old(stripe)@[volume_id].free_bytes,
                    ),
                ) && whole_part(
                    product(
                        decimal(old(stripe)@[volume_id].free_bytes as nat, 1),
                        difference(decimal(1, 1), quotient(limit, decimal(100, 1))),
                    ),
                ) > 0,
                _ => false,
            };
            let migrates = acted && able && old(engine).config().auto_migrate;
            let (before, after) = (old(engine).last(), final(engine).last());
            &&& final(stripe)@.contains_key(v) == old(stripe)@.contains_key(v)
            &&& final(stripe)@.contains_key(v) ==> {
                &&& final(stripe)@[v].healthy == (old(stripe)@[v].healthy && !(acted && v == id))
                &&& v != id || !acted ==> final(stripe)@[v] == old(stripe)@[v]
            }
            &&& migrates ==> {
                &&& r@[0] matches EscalationAction::Migrate {
                    from_volume,
                    to_volume,
                    from_tier,
                    to_tier,
                    total_bytes,
                }
                &&& from_volume == id
                &&& from_tier == old(stripe)@[id].storage_tier
                &&& to_volume == event->0->Escalated_volume_id
                &&& to_tier == old(stripe)@[to_volume].storage_tier
                &&& total_bytes == whole_part(
                    product(
                        decimal(old(stripe)@[to_volume].free_bytes as nat, 1),
                        difference(decimal(1, 1), quotient(limit, decimal(100, 1))),
                    ),
                )
            }
            &&& !migrates ==> r@[0] == EscalationAction::NoOp
            &&& if v == id && migrates {
                after.contains_key(v) && after[v] == now
            } else {
                after.contains_key(v) == before.contains_key(v) && after[v] == before[v]
            }
        }),
{
    let id = state.volume_id;
    let config = old(engine).config();
    let run = old(engine).start(old(stripe)@);
    let after = escalated(config, now, walk@, state, run);
    law_states_are_handled_in_order(config, now, walk@, states@, Seq::empty(), run);
    assert(escalated_all(config, now, walk@, states@, run) == after);
    law_acted_on_unless_in_own_cooldown(config, now, walk@, state, run);
    law_failing_changes_health_alone(old(stripe)@, id);
    if state.deadband_state == DeadbandState::Exceeded && !cooling(*old(engine), id, now) {
        law_when_a_migration_is_planned(config, now, walk@, state, run);
        let profiles = with_failed(old(stripe)@, id);
        assert(final(stripe)@ == profiles);
        law_escalation_leads_to_a_healthy_volume(profiles, walk@, id);
        assert(profiles.dom().contains(v) == old(stripe)@.dom().contains(v));
        assert(profiles.contains_key(id) ==> old(stripe)@.contains_key(id));
        if event is Some {
            let target = event->0->Escalated_volume_id;
            assert(profiles.contains_key(target) && profiles.contains_key(id));
        }
        law_planned_migrations_are_recorded(config, now, walk@, states@, run, v);
        if after.actions.len() > 0 {
            law_what_a_migration_moves(config, now, walk@, states@, run, 0);
            assert(after.actions[0]->from_volume == id);
        }
    }
}

/// Some states and then some more lead to what the one call and then the other lead to: the same
/// volumes fail, the same migrations are planned, in order, and the same times are recorded.
pub proof fn law_process_in_parts(
    engine: &mut EscalationEngine,
    stripe: &mut StorageStripe,
    first_engine: &mut EscalationEngine,
    first_stripe: &mut StorageStripe,
    second_engine: &mut EscalationEngine,
    second_stripe: &mut StorageStripe,
    now: Timestamp,
    walk: &[Id],
    some: &[StorageDeadbandState],
    more: &[StorageDeadbandState],
    all: &[StorageDeadbandState],
    of_some: Vec<EscalationAction>,
    of_more: Vec<EscalationAction>,
    of_all: Vec<EscalationAction>,
)
    requires
        all@ == some@ + more@,
        old(engine).wf(),
        now.valid(),
        *old(first_engine) == *old(engine),
        *old(first_stripe) == *old(stripe),
        *old(second_engine) == *final(first_engine),
        *old(second_stripe) == *final(first_stripe),
        call_ensures(
            EscalationEngine::process_deadband_at,
            (engine, now, walk, all, stripe),
            of_all,
        ),
        call_ensures(
            EscalationEngine::process_deadband_at,
            (first_engine, now, walk, some, first_stripe),
            of_some,
        ),
        call_ensures(
            EscalationEngine::process_deadband_at,
            (second_engine, now, walk, more, second_stripe),
            of_more,
        ),
    ensures
        final(stripe)@ == final(second_stripe)@,
        final(engine).last() == final(second_engine).last(),
        planned(of_all@) == planned(of_some@) + planned(of_more@),
        planned(of_all@).len() == 0 ==> of_all@.len() == 1 && of_all@[0] == EscalationAction::NoOp,
        planned(of_all@).len() > 0 ==> planned(of_all@) == of_all@,
{
    let config = old(engine).config();
    let run = old(engine).start(old(stripe)@);
    let between = escalated_all(config, now, walk@, some@, run);
    let fresh = EscalationRun { actions: Seq::empty(), ..between };
    law_states_are_handled_in_order(config, now, walk@, some@, more@, run);
    lemma_plan_is_added(config, now, walk@, more@, between);
    assert(old(second_engine).start(old(second_stripe)@) == fresh);
    lemma_answered(config, now, walk@, all@, run);
    lemma_answered(config, now, walk@, some@, run);
    lemma_answered(config, now, walk@, more@, fresh);
}

/// What is planned does not depend on what was planned before, and comes behind it.
proof fn lemma_plan_is_added(
    config: EscalationConfig,
    now: Timestamp,
    walk: Seq<Id>,
    states: Seq<StorageDeadbandState>,
    run: EscalationRun,
)
    ensures
        ({
            let fresh = EscalationRun { actions: Seq::empty(), ..run };
            let after = escalated_all(config, now, walk, states, run);
            let alone = escalated_all(config, now, walk, states, fresh);
            &&& after.profiles == alone.profiles
            &&& after.last == alone.last
            &&& after.actions == run.actions + alone.actions
        }),
    decreases states.len(),
{
    let fresh = EscalationRun { actions: Seq::<EscalationAction>::empty(), ..run };
    if states.len() == 0 {
        assert(run.actions + fresh.actions =~= run.actions);
    } else {
        lemma_plan_is_added(config, now, walk, states.drop_last(), run);
        let after = escalated_all(config, now, walk, states, run);
        let alone = escalated_all(config, now, walk, states, fresh);
        assert(after.actions =~= run.actions + alone.actions);
    }
}

/// The migrations among what is answered are what was planned.
proof fn lemma_answered(
    config: EscalationConfig,
    now: Timestamp,
    walk: Seq<Id>,
    states: Seq<StorageDeadbandState>,
    run: EscalationRun,
)
    requires
        run.actions.len() == 0,
    ensures
        ({
            let actions = escalated_all(config, now, walk, states, run).actions;
            planned(or_no_op(actions)) == actions
        }),
{
    let actions = escalated_all(config, now, walk, states, run).actions;
    law_migrations_follow_the_states(config, now, walk, states, run);
    lemma_all_migrations(actions);
    reveal_with_fuel(Seq::filter, 2);
    if actions.len() == 0 {
        assert(seq![EscalationAction::NoOp].drop_last() =~= Seq::<EscalationAction>::empty());
        assert(planned(seq![EscalationAction::NoOp]) =~= actions);
    }
}

/// Migrations alone are all that is planned.
proof fn lemma_all_migrations(actions: Seq<EscalationAction>)
    requires
        forall|k: int| 0 <= k < actions.len() ==> (#[trigger] actions[k]) is Migrate,
    ensures
        planned(actions) == actions,
    decreases actions.len(),
{
    reveal(Seq::filter);
    if actions.len() > 0 {
        let shorter = actions.drop_last();
        assert forall|k: int| 0 <= k < shorter.len() implies (#[trigger] shorter[k]) is Migrate by {
            assert(actions[k] == shorter[k]);
        }
        assert(actions[actions.len() - 1] is Migrate);
        lemma_all_migrations(shorter);
        assert(planned(actions) =~= actions);
    }
}

/// Every critically full volume that is not cooling down after a migration of its own is migrated,
/// also where several are full at once and others are cooling down: provided that migrations need
/// no approval, that something which is not among the volumes at hand can take over, and that all
/// healthy volumes have room.
pub proof fn law_process_migrates_every_full_volume(
    engine: &mut EscalationEngine,
    now: Timestamp,
    walk: &[Id],
    states: &[StorageDeadbandState],
    stripe: &mut StorageStripe,
    r: Vec<EscalationAction>,
    i: int,
    able: Id,
)
    requires
        old(engine).wf(),
        now.valid(),
        call_ensures(
            EscalationEngine::process_deadband_at,
            (engine, now, walk, states, stripe),
            r,
        ),
        old(engine).config().auto_migrate,
        of_distinct_volumes(states@),
        0 <= i < states@.len(),
        states@[i].deadband_state == DeadbandState::Exceeded,
        old(stripe)@.contains_key(states@[i].volume_id),
        !cooling(*old(engine), states@[i].volume_id, now),
        usable(old(stripe)@, able),
        forall|j: int| 0 <= j < states@.len() ==> (#[trigger] states@[j]).volume_id != able,
        ({
            let profile = old(stripe)@[states@[i].volume_id];
            if profile.escalation_targets@.len() > 0 {
                profile.escalation_targets@.contains(able)
            } else {
                walk@.contains(able) && may_succeed(
                    old(stripe)@[able].storage_tier,
                    profile.storage_tier,
                )
            }
        }),
        forall|v: Id| #[trigger]
            old(stripe)@.contains_key(v) && old(stripe)@[v].healthy ==> !at_most(
                old(engine).config().target_max_util_pct,
                utilization_pct(old(stripe)@[v].total_bytes, old(stripe)@[v].free_bytes),
            ) && absorbable(
                old(stripe)@[v].free_bytes,
                old(engine).config().target_max_util_pct,
            ) > 0,
    ensures
        exists|k: int|
            0 <= k < r@.len() && ((#[trigger] r@[k]) matches EscalationAction::Migrate {
                from_volume,
                to_volume,
                from_tier,
                to_tier,
                total_bytes,
            } && from_volume == states@[i].volume_id && usable(old(stripe)@, to_volume)
                && from_tier == old(stripe)@[from_volume].storage_tier),
        !usable(final(stripe)@, states@[i].volume_id),
{
    let config = old(engine).config();
    let run = old(engine).start(old(stripe)@);
    law_every_full_volume_is_migrated(config, now, walk@, states@, run, i, able);
    law_full_volumes_fail(config, now, walk@, states@, run, states@[i].volume_id);
    let actions = escalated_all(config, now, walk@, states@, run).actions;
    let k = choose|k: int|
        run.actions.len() <= k < actions.len() && ((#[trigger] actions[k]) matches
            EscalationAction::Migrate { from_volume, to_volume, from_tier, to_tier, total_bytes }
            && from_volume == states@[i].volume_id && usable(run.profiles, to_volume) && from_tier
            == run.profiles[from_volume].storage_tier);
    assert(r@[k] == actions[k]);
}

/// What is done by the clock, whatever it says. Volumes fail that are critically full, and no
/// others; of one from which nothing was planned yet that is certain. Each migration leads away
/// from a volume that is critically full, to a healthy one that is used less than the limit.
pub proof fn law_process_by_the_clock(
    engine: &mut EscalationEngine,
    states: &[StorageDeadbandState],
    stripe: &mut StorageStripe,
    r: Vec<EscalationAction>,
    id: Id,
    k: int,
)
    requires
        old(engine).wf(),
        of_distinct_volumes(states@),
        call_ensures(EscalationEngine::process_deadband, (engine, states, stripe), r),
    ensures
        final(engine).config() == old(engine).config(),
        ({
            let full = exists|i: int|
                0 <= i < states@.len() && (#[trigger] states@[i]).volume_id == id
                    && states@[i].deadband_state == DeadbandState::Exceeded;
            &&& old(stripe)@.contains_key(id) ==> final(stripe)@.contains_key(id)
            &&& old(stripe)@.contains_key(id) && !full ==> final(stripe)@[id].healthy == old(
                stripe,
            )@[id].healthy
            &&& old(stripe)@.contains_key(id) && full && !old(engine).last().contains_key(id)
                ==> !final(stripe)@[id].healthy
            &&& old(stripe)@.contains_key(id) && !old(stripe)@[id].healthy ==> !final(
                stripe)@[id].healthy
        }),
        r@.len() > 0,
        0 <= k < r@.len() ==> match r@[k] {
            EscalationAction::Migrate { from_volume, to_volume, from_tier, to_tier, total_bytes } => {
                let target = old(stripe)@[to_volume];
                &&& old(engine).config().auto_migrate
                &&& usable(old(stripe)@, to_volume)
                &&& from_volume != to_volume
                &&& from_tier == old(stripe)@[from_volume].storage_tier
                &&& to_tier == target.storage_tier
                &&& total_bytes > 0
                &&& !at_most(
                    old(engine).config().target_max_util_pct,
                    utilization_pct(target.total_bytes, target.free_bytes),
                )
                &&& exists|i: int|
                    0 <= i < states@.len() && (#[trigger] states@[i]).volume_id == from_volume
                        && states@[i].deadband_state == DeadbandState::Exceeded
            },
            EscalationAction::Degraded { tier, volumes } => false,
            EscalationAction::NoOp => r@.len() == 1,
        },
{
    let config = old(engine).config();
    let run = old(engine).start(old(stripe)@);
    let (now, walk) = choose|now: Timestamp, walk: Seq<Id>| #[trigger]
        now.valid() && #[trigger] is_walk(old(stripe)@, walk) && ({
            let after = escalated_all(config, now, walk, states@, run);
            &&& final(stripe)@ == after.profiles
            &&& final(engine).last() == after.last
            &&& r@ == or_no_op(after.actions)
        });
    if old(stripe)@.contains_key(id) {
        law_full_volumes_fail(config, now, walk, states@, run, id);
    }
    let actions = escalated_all(config, now, walk, states@, run).actions;
    if 0 <= k < actions.len() {
        law_what_a_migration_moves(config, now, walk, states@, run, k);
    }
}

} // verus!
