//! Escalation: when the deadband fires, the stripe rebalances.
//!
//! When the storage deadband of a volume is exceeded:
//!
//! 1. the volume is marked as failed in the stripe,
//! 2. the stripe says which volume takes over from it,
//! 3. a migration to that volume is planned, if it has room.

use crate::binary64::laws::{
    is_amount, law_equal_ratios_round_alike, law_numbers_are_exact, law_order_is_that_of_bits,
    law_product_with_share, law_quotient_is_share, law_quotient_keeps_order, law_rest_of_one,
    law_rounding_keeps_order, law_rounds_at_least, law_rounds_at_most, law_u64_is_finite,
    law_whole_numbers_are_exact, law_whole_numbers_keep_order, lemma_short_is_exact,
};
use crate::binary64::{
    at_most, decimal, difference, lemma_units_increase, nearest_magnitude, one_units, product,
    quotient, whole_part, Binary64,
};
use crate::deadband::StorageDeadbandState;
use crate::internal::cocapn_core::DeadbandState;
use crate::internal::sd_core::{utilization_of, utilization_pct, Id};
use crate::stripe::{
    escalation_of, escalation_target, is_healthy, law_failing, law_healthy_volume_takes_over,
    with_failed, StorageStripe, StorageStripeEvent, TierProfile,
};
use crate::tiering::StorageTier;
use crate::time::{elapsed, utc_now, Duration, Timestamp};
use crate::walk::is_walk;
use std::collections::HashMap;
use vstd::arithmetic::power2::pow2;
use vstd::prelude::*;

verus! {

/// An action taken by the escalation system.
#[derive(Debug, Clone)]
pub enum EscalationAction {
    /// Begin a handoff from one volume to another.
    Migrate {
        from_volume: Id,
        to_volume: Id,
        from_tier: StorageTier,
        to_tier: StorageTier,
        total_bytes: u64,
    },
    /// Notify that a tier is fully degraded.
    Degraded { tier: StorageTier, volumes: Vec<Id> },
    /// No action needed: all volumes healthy.
    NoOp,
}

/// Configuration for the escalation engine.
#[derive(Debug, Clone, Copy)]
pub struct EscalationConfig {
    /// How long a volume is left alone after a migration from it was planned.
    pub cooldown: Duration,
    /// Which file kinds to migrate first (cold to archive).
    pub prioritize_cold_files: bool,
    /// Utilization, in percent, at which a target volume counts as full.
    pub target_max_util_pct: Binary64,
    /// Whether to auto-approve migrations or require user confirmation.
    pub auto_migrate: bool,
}

/// The configuration that applies where nothing else is said.
pub open spec fn default_escalation() -> EscalationConfig {
    EscalationConfig {
        cooldown: Duration { secs: 300, nanos: 0 },
        prioritize_cold_files: true,
        target_max_util_pct: decimal(85, 1),
        auto_migrate: true,
    }
}

impl Default for EscalationConfig {
    fn default() -> (r: EscalationConfig)
        ensures
            r == default_escalation(),
    {
        EscalationConfig {
            cooldown: Duration::from_secs(300),
            prioritize_cold_files: true,
            target_max_util_pct: Binary64::from_u64(85),
            auto_migrate: true,
        }
    }
}

/// How many bytes a volume with `free` bytes can absorb.
pub open spec fn absorbable(free: u64, max_util_pct: Binary64) -> u64 {
    whole_part(
        product(
            decimal(free as nat, 1),
            difference(decimal(1, 1), quotient(max_util_pct, decimal(100, 1))),
        ),
    )
}

/// Whether a migration from a volume was planned less than the cooldown ago.
pub open spec fn in_cooldown(
    last: Map<Id, Timestamp>,
    cooldown: Duration,
    id: Id,
    now: Timestamp,
) -> bool {
    last.contains_key(id) && 0 <= now.total_nanos() - last[id].total_nanos()
        < cooldown.total_nanos()
}

/// The tier of a volume of the stripe.
pub open spec fn tier_of(profiles: Map<Id, TierProfile>, id: Id) -> Option<StorageTier> {
    if profiles.contains_key(id) {
        Some(profiles[id].storage_tier)
    } else {
        None
    }
}

/// Whether a volume counts as full as a target.
pub open spec fn is_full(profile: TierProfile, max_util_pct: Binary64) -> bool {
    at_most(max_util_pct, utilization_pct(profile.total_bytes, profile.free_bytes))
}

/// How many bytes can move to the target of an escalation: none to one that counts as full.
pub open spec fn bytes_to_move(
    config: EscalationConfig,
    profiles: Map<Id, TierProfile>,
    to_tier: StorageTier,
    target: Id,
) -> u64 {
    if is_healthy(profiles, target) && profiles[target].storage_tier == to_tier && !is_full(
        profiles[target],
        config.target_max_util_pct,
    ) {
        absorbable(profiles[target].free_bytes, config.target_max_util_pct)
    } else {
        0
    }
}

/// The migration from a volume of the stripe that answers an escalation, if there is one.
pub open spec fn migration_for(
    config: EscalationConfig,
    profiles: Map<Id, TierProfile>,
    from: Id,
    event: StorageStripeEvent,
) -> Option<EscalationAction> {
    match event {
        StorageStripeEvent::Escalated { from_tier, to_tier, volume_id } => {
            let total_bytes = bytes_to_move(config, profiles, to_tier, volume_id);
            if profiles.contains_key(from) && total_bytes > 0 && config.auto_migrate {
                Some(
                    EscalationAction::Migrate {
                        from_volume: from,
                        to_volume: volume_id,
                        from_tier,
                        to_tier,
                        total_bytes,
                    },
                )
            } else {
                None
            }
        },
        _ => None,
    }
}

/// The migration that answers the escalation of a failed volume, if there is one.
pub open spec fn migration_from(
    config: EscalationConfig,
    profiles: Map<Id, TierProfile>,
    walk: Seq<Id>,
    from: Id,
) -> Option<EscalationAction> {
    match escalation_of(profiles, walk, from) {
        Some(event) => migration_for(config, profiles, from, event),
        None => None,
    }
}

/// The stripe, the times of the last migrations, and what has been planned so far.
pub struct EscalationRun {
    pub profiles: Map<Id, TierProfile>,
    pub last: Map<Id, Timestamp>,
    pub actions: Seq<EscalationAction>,
}

/// Whether a deadband state is acted on: it is exceeded, and the volume is not in cooldown.
pub open spec fn acted_on(
    config: EscalationConfig,
    now: Timestamp,
    last: Map<Id, Timestamp>,
    state: StorageDeadbandState,
) -> bool {
    state.deadband_state == DeadbandState::Exceeded && !in_cooldown(
        last,
        config.cooldown,
        state.volume_id,
        now,
    )
}

/// What one deadband state leads to.
pub open spec fn escalated(
    config: EscalationConfig,
    now: Timestamp,
    walk: Seq<Id>,
    state: StorageDeadbandState,
    run: EscalationRun,
) -> EscalationRun {
    let id = state.volume_id;
    if acted_on(config, now, run.last, state) {
        let profiles = with_failed(run.profiles, id);
        match migration_from(config, profiles, walk, id) {
            Some(action) => EscalationRun {
                profiles,
                last: run.last.insert(id, now),
                actions: run.actions.push(action),
            },
            None => EscalationRun { profiles, ..run },
        }
    } else {
        run
    }
}

/// What some deadband states lead to, one after the other.
pub open spec fn escalated_all(
    config: EscalationConfig,
    now: Timestamp,
    walk: Seq<Id>,
    states: Seq<StorageDeadbandState>,
    run: EscalationRun,
) -> EscalationRun
    decreases states.len(),
{
    if states.len() == 0 {
        run
    } else {
        escalated(
            config,
            now,
            walk,
            states.last(),
            escalated_all(config, now, walk, states.drop_last(), run),
        )
    }
}

/// Planned actions, or the one action that says that there are none.
pub open spec fn or_no_op(actions: Seq<EscalationAction>) -> Seq<EscalationAction> {
    if actions.len() == 0 {
        seq![EscalationAction::NoOp]
    } else {
        actions
    }
}

/// The escalation engine. Connects deadband, stripe and handoff.
#[derive(Debug)]
pub struct EscalationEngine {
    config: EscalationConfig,
    /// Track last escalation time per volume to avoid rapid re-escalation.
    last_escalation: HashMap<Id, Timestamp>,
}

impl EscalationEngine {
    pub closed spec fn config(&self) -> EscalationConfig {
        self.config
    }

    /// When a migration from each volume was last planned.
    pub closed spec fn last(&self) -> Map<Id, Timestamp> {
        self.last_escalation@
    }

    /// All recorded times are points of the calendar.
    pub open spec fn wf(&self) -> bool {
        forall|id: Id| #[trigger] self.last().contains_key(id) ==> self.last()[id].valid()
    }

    /// Where a run over deadband states starts.
    pub open spec fn start(&self, profiles: Map<Id, TierProfile>) -> EscalationRun {
        EscalationRun { profiles, last: self.last(), actions: Seq::empty() }
    }

    pub fn new(config: EscalationConfig) -> (r: EscalationEngine)
        ensures
            r.config() == config,
            r.last() == Map::<Id, Timestamp>::empty(),
            r.wf(),
    {
        EscalationEngine { config, last_escalation: HashMap::new() }
    }

    /// Whether a volume is to be left alone.
    fn cooling(&self, id: Id, now: Timestamp) -> (r: bool)
        requires
            self.wf(),
            now.valid(),
        ensures
            r == in_cooldown(self.last(), self.config().cooldown, id, now),
    {
        match self.last_escalation.get(&id) {
            Some(last) => {
                assert(self.last().contains_key(id));
                match elapsed(now, *last) {
                    Some(d) => d.shorter_than(self.config.cooldown),
                    None => false,
                }
            },
            None => false,
        }
    }

    /// The action that answers an event of the stripe while a volume is handled: a migration to
    /// the target of an escalation, if the target does not count as full and can absorb anything,
    /// and migrations need no approval; or a notice about a degraded tier.
    pub fn action_for(
        &self,
        stripe: &StorageStripe,
        from: Id,
        event: &StorageStripeEvent,
    ) -> (r: Option<EscalationAction>)
        ensures
            match *event {
                StorageStripeEvent::Degraded { remaining_tiers } => {
                    r matches Some(EscalationAction::Degraded { tier, volumes }) && volumes@
                        == seq![from] && tier == (match tier_of(stripe@, from) {
                        Some(t) => t,
                        None => StorageTier::Bulk,
                    })
                },
                _ => r == migration_for(self.config(), stripe@, from, *event),
            },
    {
        let vol_tier: Option<StorageTier> = stripe.tier_for_volume(from);
        match event {
            StorageStripeEvent::Escalated { from_tier, to_tier, volume_id } => {
                let total_bytes: u64 = match vol_tier {
                    Some(_) => match stripe.healthy_profile(*volume_id, *to_tier) {
                        Some(target) => self.absorbable_by(target),
                        None => 0,
                    },
                    None => 0,
                };
                if total_bytes > 0 && self.config.auto_migrate {
                    Some(
                        EscalationAction::Migrate {
                            from_volume: from,
                            to_volume: *volume_id,
                            from_tier: *from_tier,
                            to_tier: *to_tier,
                            total_bytes,
                        },
                    )
                } else {
                    None
                }
            },
            StorageStripeEvent::Degraded { remaining_tiers: _ } => {
                let volumes: Vec<Id> = vec![from];
                assert(volumes@ =~= seq![from]);
                Some(
                    EscalationAction::Degraded {
                        tier: vol_tier.unwrap_or(StorageTier::Bulk),
                        volumes,
                    },
                )
            },
            _ => None,
        }
    }

    /// How many bytes can move to a target: none to one that counts as full.
    fn absorbable_by(&self, target: &TierProfile) -> (r: u64)
        ensures
            r == if is_full(*target, self.config().target_max_util_pct) {
                0
            } else {
                absorbable(target.free_bytes, self.config().target_max_util_pct)
            },
    {
        let utilization = utilization_of(target.total_bytes, target.free_bytes);
        if self.config.target_max_util_pct.le(utilization) {
            return 0;
        }
        let share = Binary64::from_u64(1).minus(
            self.config.target_max_util_pct.over(Binary64::from_u64(100)),
        );
        Binary64::from_u64(target.free_bytes).times(share).to_u64()
    }

    /// Process deadband results at a given time, with the volumes of the stripe in a given
    /// order, and return actions to take.
    pub fn process_deadband_at(
        &mut self,
        now: Timestamp,
        walk: &[Id],
        deadband_states: &[StorageDeadbandState],
        stripe: &mut StorageStripe,
    ) -> (r: Vec<EscalationAction>)
        requires
            old(self).wf(),
            now.valid(),
        ensures
            final(self).wf(),
            final(self).config() == old(self).config(),
            ({
                let run = escalated_all(
                    old(self).config(),
                    now,
                    walk@,
                    deadband_states@,
                    old(self).start(old(stripe)@),
                );
                &&& final(stripe)@ == run.profiles
                &&& final(self).last() == run.last
                &&& r@ == or_no_op(run.actions)
            }),
            old(stripe).wf() ==> final(stripe).wf(),
    {
        let mut actions: Vec<EscalationAction> = Vec::new();
        let ghost start = old(self).start(old(stripe)@);
        let mut i: usize = 0;
        while i < deadband_states.len()
            invariant
                i <= deadband_states@.len(),
                self.wf(),
                now.valid(),
                self.config() == old(self).config(),
                old(stripe).wf() ==> stripe.wf(),
                ({
                    let run = escalated_all(
                        self.config(),
                        now,
                        walk@,
                        deadband_states@.take(i as int),
                        start,
                    );
                    &&& stripe@ == run.profiles
                    &&& self.last() == run.last
                    &&& actions@ == run.actions
                }),
            decreases deadband_states@.len() - i,
        {
            assert(deadband_states@.take(i + 1).drop_last() =~= deadband_states@.take(i as int));
            let state: &StorageDeadbandState = &deadband_states[i];
            if state.deadband_state == DeadbandState::Exceeded && !self.cooling(
                state.volume_id,
                now,
            ) {
                let id: Id = state.volume_id;
                // The event that this returns is not passed on, so it needs no reason.
                stripe.fail_volume(id, String::new());
                match stripe.escalation_along(walk, id) {
                    Some(event) => match self.action_for(stripe, id, &event) {
                        Some(action) => {
                            self.last_escalation.insert(id, now);
                            actions.push(action);
                        },
                        None => {},
                    },
                    None => {},
                }
            }
            i = i + 1;
        }
        assert(deadband_states@.take(i as int) =~= deadband_states@);
        if actions.len() == 0 {
            actions.push(EscalationAction::NoOp);
            assert(actions@ =~= seq![EscalationAction::NoOp]);
        }
        actions
    }

    /// Process deadband results and return actions to take.
    pub fn process_deadband(
        &mut self,
        deadband_states: &[StorageDeadbandState],
        stripe: &mut StorageStripe,
    ) -> (r: Vec<EscalationAction>)
        requires
            old(self).wf(),
        ensures
            final(self).wf(),
            final(self).config() == old(self).config(),
            old(stripe).wf() ==> final(stripe).wf(),
            exists|now: Timestamp, walk: Seq<Id>| #[trigger]
                now.valid() && #[trigger] is_walk(old(stripe)@, walk) && ({
                    let run = escalated_all(
                        old(self).config(),
                        now,
                        walk,
                        deadband_states@,
                        old(self).start(old(stripe)@),
                    );
                    &&& final(stripe)@ == run.profiles
                    &&& final(self).last() == run.last
                    &&& r@ == or_no_op(run.actions)
                }),
    {
        let now: Timestamp = utc_now();
        let walk: Vec<Id> = stripe.walk();
        self.process_deadband_at(now, walk.as_slice(), deadband_states, stripe)
    }
}

/// A run of escalations forgets no volume of the stripe, adds none, and changes nothing of a
/// volume but its health, which it only ever takes away.
pub proof fn law_run_only_fails_volumes(
    config: EscalationConfig,
    now: Timestamp,
    walk: Seq<Id>,
    states: Seq<StorageDeadbandState>,
    run: EscalationRun,
)
    ensures
        ({
            let after = escalated_all(config, now, walk, states, run).profiles;
            &&& after.dom() == run.profiles.dom()
            &&& forall|id: Id| #[trigger]
                after.contains_key(id) ==> {
                    let profile = run.profiles[id];
                    after[id] == profile || after[id] == (TierProfile { healthy: false, ..profile })
                }
        }),
    decreases states.len(),
{
    if states.len() > 0 {
        law_run_only_fails_volumes(config, now, walk, states.drop_last(), run);
        let before = escalated_all(config, now, walk, states.drop_last(), run);
        let after = escalated(config, now, walk, states.last(), before);
        assert(after.profiles.dom() =~= run.profiles.dom());
    }
}

/// Without approval nothing is migrated: no action is planned, whatever the states are.
pub proof fn law_no_migration_without_approval(
    config: EscalationConfig,
    now: Timestamp,
    walk: Seq<Id>,
    states: Seq<StorageDeadbandState>,
    run: EscalationRun,
)
    requires
        !config.auto_migrate,
    ensures
        escalated_all(config, now, walk, states, run).actions == run.actions,
        escalated_all(config, now, walk, states, run).last == run.last,
    decreases states.len(),
{
    if states.len() > 0 {
        law_no_migration_without_approval(config, now, walk, states.drop_last(), run);
    }
}

/// A volume that is not critically full, or that is in cooldown, is left alone.
pub proof fn law_left_alone(
    config: EscalationConfig,
    now: Timestamp,
    walk: Seq<Id>,
    state: StorageDeadbandState,
    run: EscalationRun,
)
    requires
        state.deadband_state != DeadbandState::Exceeded || in_cooldown(
            run.last,
            config.cooldown,
            state.volume_id,
            now,
        ),
    ensures
        escalated(config, now, walk, state, run) == run,
{
}

/// Once a migration from a volume has been planned, the volume is left alone until the cooldown
/// is over.
pub proof fn law_migration_starts_cooldown(
    config: EscalationConfig,
    now: Timestamp,
    walk: Seq<Id>,
    state: StorageDeadbandState,
    run: EscalationRun,
    later: Timestamp,
)
    requires
        escalated(config, now, walk, state, run).actions.len() > run.actions.len(),
        now.total_nanos() <= later.total_nanos() < now.total_nanos()
            + config.cooldown.total_nanos(),
    ensures
        ({
            let after = escalated(config, now, walk, state, run);
            escalated(config, later, walk, state, after) == after
        }),
{
}

/// A volume that is acted on is out of use afterwards.
pub proof fn law_acted_on_is_failed(
    config: EscalationConfig,
    now: Timestamp,
    walk: Seq<Id>,
    state: StorageDeadbandState,
    run: EscalationRun,
)
    requires
        acted_on(config, now, run.last, state),
    ensures
        !is_healthy(escalated(config, now, walk, state, run).profiles, state.volume_id),
{
    law_failing(run.profiles, state.volume_id);
}

/// Whether an action is a sound migration: away from a critically full volume of the stripe, to
/// another volume that was healthy and does not count as full, of as many bytes as that can
/// absorb, and of some. The tiers are those of the two volumes.
pub open spec fn is_sound(
    config: EscalationConfig,
    profiles: Map<Id, TierProfile>,
    states: Seq<StorageDeadbandState>,
    action: EscalationAction,
) -> bool {
    match action {
        EscalationAction::Migrate { from_volume, to_volume, from_tier, to_tier, total_bytes } => {
            &&& profiles.contains_key(from_volume)
            &&& exists|i: int|
                0 <= i < states.len() && (#[trigger] states[i]).volume_id == from_volume
                    && states[i].deadband_state == DeadbandState::Exceeded
            &&& profiles[from_volume].storage_tier == from_tier
            &&& is_healthy(profiles, to_volume)
            &&& to_volume != from_volume
            &&& profiles[to_volume].storage_tier == to_tier
            &&& !is_full(profiles[to_volume], config.target_max_util_pct)
            &&& total_bytes == absorbable(
                profiles[to_volume].free_bytes,
                config.target_max_util_pct,
            )
            &&& total_bytes > 0
        },
        _ => false,
    }
}

/// Everything that is planned is a sound migration.
pub proof fn law_planned_is_sound(
    config: EscalationConfig,
    now: Timestamp,
    walk: Seq<Id>,
    states: Seq<StorageDeadbandState>,
    run: EscalationRun,
)
    requires
        run.actions.len() == 0,
    ensures
        ({
            let actions = escalated_all(config, now, walk, states, run).actions;
            forall|k: int|
                0 <= k < actions.len() ==> is_sound(
                    config,
                    run.profiles,
                    states,
                    #[trigger] actions[k],
                )
        }),
    decreases states.len(),
{
    if states.len() > 0 {
        let earlier = states.drop_last();
        let state = states.last();
        let id = state.volume_id;
        law_planned_is_sound(config, now, walk, earlier, run);
        law_run_only_fails_volumes(config, now, walk, earlier, run);
        let before = escalated_all(config, now, walk, earlier, run);
        let profiles = with_failed(before.profiles, id);
        law_failing(before.profiles, id);
        let actions = escalated_all(config, now, walk, states, run).actions;
        assert forall|k: int| 0 <= k < actions.len() implies is_sound(
            config,
            run.profiles,
            states,
            #[trigger] actions[k],
        ) by {
            if k < before.actions.len() {
                assert(actions[k] == before.actions[k]);
                assert(is_sound(config, run.profiles, earlier, before.actions[k]));
                let from = before.actions[k]->from_volume;
                let i = choose|i: int|
                    0 <= i < earlier.len() && (#[trigger] earlier[i]).volume_id == from
                        && earlier[i].deadband_state == DeadbandState::Exceeded;
                assert(states[i] == earlier[i]);
            } else {
                assert(Some(actions[k]) == migration_from(config, profiles, walk, id));
                assert(states[states.len() - 1] == state);
                let target = actions[k]->to_volume;
                assert(profiles.contains_key(target) && before.profiles.contains_key(target));
                assert(run.profiles.contains_key(target));
                assert(before.profiles.contains_key(id) && run.profiles.contains_key(id));
            }
        }
    }
}

/// There is always an answer; it is the one that nothing is to be done, or it holds migrations
/// alone.
pub proof fn law_answer_is_migrations_or_nothing(
    config: EscalationConfig,
    now: Timestamp,
    walk: Seq<Id>,
    states: Seq<StorageDeadbandState>,
    run: EscalationRun,
)
    requires
        run.actions.len() == 0,
    ensures
        ({
            let answer = or_no_op(escalated_all(config, now, walk, states, run).actions);
            answer == seq![EscalationAction::NoOp] || (answer.len() > 0 && forall|k: int|
                0 <= k < answer.len() ==> (#[trigger] answer[k]) is Migrate)
        }),
{
    law_planned_is_sound(config, now, walk, states, run);
    let actions = escalated_all(config, now, walk, states, run).actions;
    assert forall|k: int| 0 <= k < actions.len() implies (#[trigger] actions[k]) is Migrate by {
        assert(is_sound(config, run.profiles, states, actions[k]));
    }
}

/// What is planned stays planned: a run only adds to the actions.
pub proof fn law_plans_are_kept(
    config: EscalationConfig,
    now: Timestamp,
    walk: Seq<Id>,
    states: Seq<StorageDeadbandState>,
    run: EscalationRun,
)
    ensures
        run.actions.is_prefix_of(escalated_all(config, now, walk, states, run).actions),
    decreases states.len(),
{
    if states.len() > 0 {
        law_plans_are_kept(config, now, walk, states.drop_last(), run);
        let before = escalated_all(config, now, walk, states.drop_last(), run);
        let after = escalated(config, now, walk, states.last(), before);
        assert(before.actions.is_prefix_of(after.actions));
        assert forall|k: int| 0 <= k < run.actions.len() implies run.actions[k]
            == after.actions[k] by {
            assert(before.actions[k] == run.actions[k]);
        }
    }
}

/// The migration from a failed volume to the one that takes over.
pub open spec fn takeover(
    config: EscalationConfig,
    profiles: Map<Id, TierProfile>,
    from: Id,
    target: Id,
) -> EscalationAction {
    EscalationAction::Migrate {
        from_volume: from,
        to_volume: target,
        from_tier: profiles[from].storage_tier,
        to_tier: profiles[target].storage_tier,
        total_bytes: absorbable(profiles[target].free_bytes, config.target_max_util_pct),
    }
}

/// One migration is planned from a critically full volume that is not in cooldown: to the volume
/// that takes over from it, provided that migrations need no approval and that volume does not
/// count as full and can absorb anything.
pub proof fn law_full_volume_is_migrated(
    config: EscalationConfig,
    now: Timestamp,
    walk: Seq<Id>,
    state: StorageDeadbandState,
    run: EscalationRun,
    target: Id,
)
    requires
        config.auto_migrate,
        acted_on(config, now, run.last, state),
        run.profiles.contains_key(state.volume_id),
        ({
            let profiles = with_failed(run.profiles, state.volume_id);
            &&& escalation_target(profiles, walk, profiles[state.volume_id]) == Some(target)
            &&& !is_full(profiles[target], config.target_max_util_pct)
            &&& absorbable(profiles[target].free_bytes, config.target_max_util_pct) > 0
        }),
    ensures
        escalated(config, now, walk, state, run).actions == run.actions.push(
            takeover(config, run.profiles, state.volume_id, target),
        ),
{
    let id = state.volume_id;
    let profiles = with_failed(run.profiles, id);
    law_failing(run.profiles, id);
    law_healthy_volume_takes_over(profiles, walk, profiles[id]);
    assert(target != id);
}

/// Nothing is planned from a volume where nothing can take over, or where what takes over counts
/// as full.
pub proof fn law_full_target_gets_nothing(
    config: EscalationConfig,
    now: Timestamp,
    walk: Seq<Id>,
    state: StorageDeadbandState,
    run: EscalationRun,
)
    requires
        ({
            let profiles = with_failed(run.profiles, state.volume_id);
            escalation_target(profiles, walk, profiles[state.volume_id]) matches Some(target)
                ==> is_full(profiles[target], config.target_max_util_pct)
        }),
    ensures
        escalated(config, now, walk, state, run).actions == run.actions,
        escalated(config, now, walk, state, run).last == run.last,
{
}

/// Volumes that are not critically full have no influence on what is done about one that is.
pub proof fn law_only_critical_volumes_matter(
    config: EscalationConfig,
    now: Timestamp,
    walk: Seq<Id>,
    states: Seq<StorageDeadbandState>,
    run: EscalationRun,
    i: int,
)
    requires
        0 <= i < states.len(),
        forall|j: int|
            0 <= j < states.len() && j != i ==> (#[trigger] states[j]).deadband_state
                != DeadbandState::Exceeded,
    ensures
        escalated_all(config, now, walk, states, run) == escalated(
            config,
            now,
            walk,
            states[i],
            run,
        ),
    decreases states.len(),
{
    let shorter = states.drop_last();
    if i == states.len() - 1 {
        lemma_none_critical(config, now, walk, shorter, run);
    } else {
        assert(states[states.len() - 1].deadband_state != DeadbandState::Exceeded);
        assert(shorter[i] == states[i]);
        law_only_critical_volumes_matter(config, now, walk, shorter, run, i);
    }
}

/// Where no volume is critically full, nothing is done.
proof fn lemma_none_critical(
    config: EscalationConfig,
    now: Timestamp,
    walk: Seq<Id>,
    states: Seq<StorageDeadbandState>,
    run: EscalationRun,
)
    requires
        forall|j: int|
            0 <= j < states.len() ==> (#[trigger] states[j]).deadband_state
                != DeadbandState::Exceeded,
    ensures
        escalated_all(config, now, walk, states, run) == run,
    decreases states.len(),
{
    if states.len() > 0 {
        assert(states[states.len() - 1].deadband_state != DeadbandState::Exceeded);
        lemma_none_critical(config, now, walk, states.drop_last(), run);
    }
}

/// A target absorbs no more than it has free, where the threshold is a percentage, and either the
/// free space is not rounded up on its way into floating point or the threshold is at least 2^-34
/// percent. Free space is never rounded below 2^53 bytes.
pub proof fn law_absorbs_no_more_than_free(free: u64, max_util_pct: Binary64)
    requires
        is_amount(max_util_pct),
        at_most(max_util_pct, decimal(100, 1)),
        decimal(free as nat, 1).units() <= free * one_units() || at_most(
            decimal(1, 0x4_0000_0000),
            max_util_pct,
        ),
    ensures
        absorbable(free, max_util_pct) <= free,
{
    let one = one_units();
    let whole = decimal(free as nat, 1);
    let used = quotient(max_util_pct, decimal(100, 1));
    let share = difference(decimal(1, 1), used);
    law_u64_is_finite(100);
    law_u64_is_finite(free);
    law_quotient_is_share(max_util_pct, decimal(100, 1));
    law_rest_of_one(used, used);
    law_product_with_share(share, whole);
    let amount = product(whole, share);
    assert(amount == product(share, whole)) by {
        assert(whole.units() * share.units() == share.units() * whole.units())
            by (nonlinear_arith);
        law_whole_numbers_are_exact(1);
    }
    vstd::arithmetic::power2::lemma_pow2_pos(1074);
    if free < 0x20_0000_0000_0000 {
        law_free_space_is_exact(free);
    } else if whole.units() > free * one {
        lemma_rounded_up_is_absorbed(free, max_util_pct);
    }
    let units = amount.units();
    assert(units / one <= free) by (nonlinear_arith)
        requires
            units <= free * one,
            one > 0,
    ;
}

/// In particular a target absorbs no more than it has free where the threshold is from 1 to 100
/// percent.
pub proof fn law_absorbs_no_more_than_free_from_one_percent(free: u64, max_util_pct: Binary64)
    requires
        is_amount(max_util_pct),
        at_most(decimal(1, 1), max_util_pct),
        at_most(max_util_pct, decimal(100, 1)),
    ensures
        absorbable(free, max_util_pct) <= free,
{
    let one = one_units();
    let least = decimal(1, 0x4_0000_0000);
    law_whole_numbers_are_exact(1);
    law_whole_numbers_are_exact(100);
    assert((1 * one) * 1 <= (1 * one) * 0x4_0000_0000);
    law_rounding_keeps_order(1 * one, 0x4_0000_0000, 1 * one, 1);
    law_order_is_that_of_bits(least, decimal(1, 1));
    law_order_is_that_of_bits(decimal(1, 1), max_util_pct);
    law_order_is_that_of_bits(least, max_util_pct);
    law_absorbs_no_more_than_free(free, max_util_pct);
}

/// What a threshold of at least 2^-34 percent leaves out of a target is more than what rounding
/// adds to its free space.
proof fn lemma_rounded_up_is_absorbed(free: u64, max_util_pct: Binary64)
    requires
        free >= 0x20_0000_0000_0000,
        is_amount(max_util_pct),
        at_most(max_util_pct, decimal(100, 1)),
        at_most(decimal(1, 0x4_0000_0000), max_util_pct),
    ensures
        product(
            decimal(free as nat, 1),
            difference(decimal(1, 1), quotient(max_util_pct, decimal(100, 1))),
        ).units() <= free * one_units(),
{
    let one = one_units();
    let whole = decimal(free as nat, 1);
    let least = decimal(1, 0x4_0000_0000);
    let hundred = decimal(100, 1);
    let used = quotient(max_util_pct, hundred);
    let share = difference(decimal(1, 1), used);
    vstd::arithmetic::power2::lemma2_to64();
    vstd::arithmetic::power2::lemma2_to64_rest();
    vstd::arithmetic::power2::lemma_pow2_pos(1033);
    vstd::arithmetic::power2::lemma_pow2_pos(1074);
    vstd::arithmetic::power2::lemma_pow2_adds(7, 1033);
    vstd::arithmetic::power2::lemma_pow2_adds(34, 1040);
    vstd::arithmetic::power2::lemma_pow2_adds(41, 1033);
    law_whole_numbers_are_exact(1);
    law_whole_numbers_are_exact(100);
    law_u64_is_finite(100);
    law_u64_is_finite(free);
    law_quotient_is_share(max_util_pct, hundred);
    law_rest_of_one(used, used);
    // The share that is left out is at least 2^-41.
    let step = pow2(1033);
    lemma_short_is_exact(1, 1040);
    law_equal_ratios_round_alike(1 * one, 0x4_0000_0000, 1 * pow2(1040), 1);
    assert(least.units() == 0x80 * step);
    lemma_short_is_exact(1, 1033);
    let floor = nearest_magnitude(1 * step, 1);
    assert((0x80 * step) * one >= step * (100 * one)) by (nonlinear_arith);
    law_rounds_at_least(least.units() * one, 100 * one, floor);
    law_quotient_keeps_order(least, max_util_pct, hundred);
    law_order_is_that_of_bits(quotient(least, hundred), used);
    if floor < used.bits {
        lemma_units_increase(floor, used.bits as nat);
    }
    assert(used.units() >= step);
    // So the share that remains is at most 1 - 2^-41.
    lemma_short_is_exact(0x1ff_ffff_ffff, 1033);
    let most = nearest_magnitude(0x1ff_ffff_ffff * step, 1);
    law_numbers_are_exact(0);
    let rest = (one - used.units()) as nat;
    assert(share.bits == nearest_magnitude(rest, 1));
    law_rounds_at_most(rest, 1, most);
    if share.bits < most {
        lemma_units_increase(share.bits as nat, most);
    }
    assert(share.units() <= 0x1ff_ffff_ffff * step);
    // Multiples of 2048 are numbers: the one at or under the free space, and the one above.
    let t = free as nat / 2048;
    let under = t * 2048;
    vstd::arithmetic::power2::lemma_pow2_adds(11, 1074);
    lemma_short_is_exact(t, 1085);
    assert(t * pow2(1085) == under * one) by (nonlinear_arith)
        requires
            pow2(1085) == 2048 * one,
            under == t * 2048,
    ;
    let bound = nearest_magnitude(under * one, 1);
    assert(whole.units() <= (under + 2048) * one) by {
        if t + 1 < 0x20_0000_0000_0000 {
            let above = (t + 1) * 2048;
            lemma_short_is_exact((t + 1) as nat, 1085);
            assert((t + 1) * pow2(1085) == above * one) by (nonlinear_arith)
                requires
                    pow2(1085) == 2048 * one,
                    above == (t + 1) * 2048,
            ;
            law_whole_numbers_keep_order(free as nat, above as nat);
        } else {
            vstd::arithmetic::power2::lemma_pow2_adds(64, 1074);
        }
    }
    let exact = whole.units() * share.units();
    assert(exact <= (under * one) * one) by (nonlinear_arith)
        requires
            exact == whole.units() * share.units(),
            whole.units() <= (under + 2048) * one,
            share.units() <= 0x1ff_ffff_ffff * step,
            one == 0x200_0000_0000 * step,
            under >= 0x10_0000_0000_0000,
            step > 0,
            one > 0,
    {
        assert(exact <= ((under + 2048) * one) * (0x1ff_ffff_ffff * step));
        assert(((under + 2048) * one) * (0x1ff_ffff_ffff * step) == ((under + 2048)
            * 0x1ff_ffff_ffff) * (one * step));
        assert((under * one) * one == (under * 0x200_0000_0000) * (one * step));
        assert((under + 2048) * 0x1ff_ffff_ffff <= under * 0x200_0000_0000);
        assert(one * step > 0);
    }
    law_rounds_at_most(exact, one, bound);
    let amount = product(whole, share);
    if amount.bits < bound {
        lemma_units_increase(amount.bits as nat, bound);
    }
    assert(under * one <= free * one) by (nonlinear_arith)
        requires
            under <= free,
    ;
}

/// Below 2^53 bytes free space is not rounded at all.
pub proof fn law_free_space_is_exact(free: u64)
    requires
        free < 0x20_0000_0000_0000,
    ensures
        decimal(free as nat, 1).units() == free * one_units(),
{
    law_whole_numbers_are_exact(free as nat);
}

} // verus!
