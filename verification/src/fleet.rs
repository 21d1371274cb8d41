//! The fleet manager: the single controller of a library.
//!
//! It takes the registered volumes through the storage deadband, consults the stripe about those
//! that are too full, opens a handoff for every migration that is planned, and reports all of it
//! as events.

use crate::binary64::Binary64;
use crate::deadband::{
    alarms, any_exceeded, law_alarms_are_the_volumes_not_normal, StorageDeadband,
    StorageDeadbandState, VolumeDeadbandConfig,
};
use crate::escalation::{
    absorbable, acted_on, default_escalation, escalated_all, is_full, law_full_volume_is_migrated,
    law_only_critical_volumes_matter, law_run_only_fails_volumes, or_no_op, takeover,
    EscalationAction, EscalationConfig, EscalationEngine, EscalationRun,
};
use crate::handoff::{fresh, StorageHandoff, StorageHandoffState, StorageHandoffView};
use crate::internal::cocapn_core::DeadbandState;
use crate::internal::sd_core::{Id, Volume};
use crate::stripe::{escalation_target, with_failed, StorageStripe, TierProfile};
use crate::tiering::{classify_volume_tier, volume_tier, StorageTier};
use crate::time::{utc_now, Duration, Timestamp};
use crate::walk::{is_walk, keys_of};
use std::collections::HashMap;
use std::sync::Arc;
use vstd::prelude::*;

verus! {

/// How long a migration is given, in seconds.
pub const MIGRATION_SECS: u64 = 300;

/// Events the fleet manager emits.
#[derive(Debug, Clone)]
pub enum FleetEvent {
    /// A volume's storage deadband entered a warning state.
    DeadbandWarn { volume_name: String, utilization_pct: Binary64 },
    /// A volume is critically full: escalation triggered.
    DeadbandExceeded { volume_name: String, utilization_pct: Binary64 },
    /// A migration handoff has started.
    HandoffStarted { from_volume: Id, to_volume: Id, from_name: String, to_name: String },
    /// Migration progress update.
    HandoffProgress { from_volume: Id, to_volume: Id, progress_pct: Binary64 },
    /// Migration completed successfully.
    HandoffComplete { from_volume: Id, to_volume: Id },
    /// Migration was cancelled / rolled back.
    HandoffCancelled { from_volume: Id, to_volume: Id },
    /// A tier is fully degraded.
    TierDegraded { tier: StorageTier, volumes: Vec<Id> },
    /// Fleet health check summary.
    HealthCheck { total_volumes: usize, healthy: usize, warning: usize, critical: usize },
}

/// What an event says.
pub enum FleetEventView {
    DeadbandWarn { volume_name: Seq<char>, utilization_pct: Binary64 },
    DeadbandExceeded { volume_name: Seq<char>, utilization_pct: Binary64 },
    HandoffStarted { from_volume: Id, to_volume: Id, from_name: Seq<char>, to_name: Seq<char> },
    HandoffProgress { from_volume: Id, to_volume: Id, progress_pct: Binary64 },
    HandoffComplete { from_volume: Id, to_volume: Id },
    HandoffCancelled { from_volume: Id, to_volume: Id },
    TierDegraded { tier: StorageTier, volumes: Seq<Id> },
    HealthCheck { total_volumes: int, healthy: int, warning: int, critical: int },
}

impl View for FleetEvent {
    type V = FleetEventView;

    open spec fn view(&self) -> FleetEventView {
        match *self {
            FleetEvent::DeadbandWarn { volume_name, utilization_pct } => {
                FleetEventView::DeadbandWarn { volume_name: volume_name@, utilization_pct }
            },
            FleetEvent::DeadbandExceeded { volume_name, utilization_pct } => {
                FleetEventView::DeadbandExceeded { volume_name: volume_name@, utilization_pct }
            },
            FleetEvent::HandoffStarted { from_volume, to_volume, from_name, to_name } => {
                FleetEventView::HandoffStarted {
                    from_volume,
                    to_volume,
                    from_name: from_name@,
                    to_name: to_name@,
                }
            },
            FleetEvent::HandoffProgress { from_volume, to_volume, progress_pct } => {
                FleetEventView::HandoffProgress { from_volume, to_volume, progress_pct }
            },
            FleetEvent::HandoffComplete { from_volume, to_volume } => {
                FleetEventView::HandoffComplete { from_volume, to_volume }
            },
            FleetEvent::HandoffCancelled { from_volume, to_volume } => {
                FleetEventView::HandoffCancelled { from_volume, to_volume }
            },
            FleetEvent::TierDegraded { tier, volumes } => {
                FleetEventView::TierDegraded { tier, volumes: volumes@ }
            },
            FleetEvent::HealthCheck { total_volumes, healthy, warning, critical } => {
                FleetEventView::HealthCheck {
                    total_volumes: total_volumes as int,
                    healthy: healthy as int,
                    warning: warning as int,
                    critical: critical as int,
                }
            },
        }
    }
}

/// What some events say.
pub open spec fn views(events: Seq<FleetEvent>) -> Seq<FleetEventView> {
    events.map_values(|event: FleetEvent| event@)
}

/// The events that report some deadband states.
pub open spec fn deadband_events(states: Seq<StorageDeadbandState>) -> Seq<FleetEventView>
    decreases states.len(),
{
    if states.len() == 0 {
        Seq::empty()
    } else {
        let before = deadband_events(states.drop_last());
        let state = states.last();
        match state.deadband_state {
            DeadbandState::Normal => before,
            DeadbandState::Approaching => before.push(
                FleetEventView::DeadbandWarn {
                    volume_name: state.volume_name@,
                    utilization_pct: state.utilization_pct,
                },
            ),
            DeadbandState::Exceeded => before.push(
                FleetEventView::DeadbandExceeded {
                    volume_name: state.volume_name@,
                    utilization_pct: state.utilization_pct,
                },
            ),
        }
    }
}

/// The name of a registered volume; empty for another.
pub open spec fn name_of(volumes: Map<Id, Arc<Volume>>, id: Id) -> Seq<char> {
    if volumes.contains_key(id) {
        volumes[id].name@
    } else {
        Seq::empty()
    }
}

/// The events that report some actions.
pub open spec fn action_events(
    volumes: Map<Id, Arc<Volume>>,
    actions: Seq<EscalationAction>,
) -> Seq<FleetEventView>
    decreases actions.len(),
{
    if actions.len() == 0 {
        Seq::empty()
    } else {
        let before = action_events(volumes, actions.drop_last());
        match actions.last() {
            EscalationAction::Migrate { from_volume, to_volume, from_tier, to_tier, total_bytes } =>
            before.push(
                FleetEventView::HandoffStarted {
                    from_volume,
                    to_volume,
                    from_name: name_of(volumes, from_volume),
                    to_name: name_of(volumes, to_volume),
                },
            ),
            EscalationAction::Degraded { tier, volumes: degraded } => before.push(
                FleetEventView::TierDegraded { tier, volumes: degraded@ },
            ),
            EscalationAction::NoOp => before,
        }
    }
}

/// The last migration from a volume among some actions: its target and its size.
pub open spec fn last_migration(actions: Seq<EscalationAction>, id: Id) -> Option<(Id, u64)>
    decreases actions.len(),
{
    if actions.len() == 0 {
        None
    } else {
        match actions.last() {
            EscalationAction::Migrate { from_volume, to_volume, from_tier, to_tier, total_bytes } =>
            if from_volume == id {
                Some((to_volume, total_bytes))
            } else {
                last_migration(actions.drop_last(), id)
            },
            _ => last_migration(actions.drop_last(), id),
        }
    }
}

/// A handoff that has begun and has not advanced.
pub open spec fn just_begun(handoff: StorageHandoff, from: Id, to: Id, total_bytes: u64) -> bool {
    handoff@ == (StorageHandoffView {
        state: StorageHandoffState::Draining,
        ..fresh(from, to, total_bytes, Duration { secs: MIGRATION_SECS, nanos: 0 })
    })
}

/// Whether the handoffs after some actions are those before them, with the last migration from
/// each volume begun. In a dry run nothing is begun.
pub open spec fn handoffs_follow(
    before: Map<Id, StorageHandoff>,
    after: Map<Id, StorageHandoff>,
    actions: Seq<EscalationAction>,
    dry_run: bool,
) -> bool {
    if dry_run {
        after == before
    } else {
        forall|id: Id|
            #![trigger after.contains_key(id)]
            #![trigger last_migration(actions, id)]
            match last_migration(actions, id) {
                Some(migration) => after.contains_key(id) && just_begun(
                    after[id],
                    id,
                    migration.0,
                    migration.1,
                ),
                None => after.contains_key(id) == before.contains_key(id) && (after.contains_key(id)
                    ==> after[id] == before[id]),
            }
    }
}

/// How many of some deadband states are in a given state.
pub open spec fn count_of(states: Seq<StorageDeadbandState>, state: DeadbandState) -> nat
    decreases states.len(),
{
    if states.len() == 0 {
        0
    } else if states.last().deadband_state == state {
        count_of(states.drop_last(), state) + 1
    } else {
        count_of(states.drop_last(), state)
    }
}

/// The summary of a check of `total` volumes.
pub open spec fn summary(total: nat, states: Seq<StorageDeadbandState>) -> FleetEventView {
    let warning = count_of(states, DeadbandState::Approaching);
    let critical = count_of(states, DeadbandState::Exceeded);
    FleetEventView::HealthCheck {
        total_volumes: total as int,
        healthy: if total >= warning + critical {
            total - warning - critical
        } else {
            0
        },
        warning: warning as int,
        critical: critical as int,
    }
}

/// The registered volumes, in the order of a walk.
pub open spec fn listed(volumes: Map<Id, Arc<Volume>>, walk: Seq<Id>) -> Seq<Arc<Volume>>
    decreases walk.len(),
{
    if walk.len() == 0 {
        Seq::empty()
    } else {
        let before = listed(volumes, walk.drop_last());
        if volumes.contains_key(walk.last()) {
            before.push(volumes[walk.last()])
        } else {
            before
        }
    }
}

/// Whether the profiles after a volume was registered are those before, with the volume in them:
/// healthy, in the tier of its type, and with no targets of its own.
pub open spec fn enrolled(
    before: Map<Id, TierProfile>,
    after: Map<Id, TierProfile>,
    volume: Volume,
) -> bool {
    let profile = after[volume.id];
    &&& after == before.insert(volume.id, profile)
    &&& profile.volume_id == volume.id
    &&& profile.volume_name == volume.name
    &&& profile.storage_tier == volume_tier(volume.volume_type)
    &&& profile.free_bytes == volume.available_space
    &&& profile.total_bytes == volume.total_capacity
    &&& profile.healthy
    &&& profile.escalation_targets@ == Seq::<Id>::empty()
}

/// `Arc::clone`: a second handle on the same value.
#[verifier::external_body]
fn shared(volume: &Arc<Volume>) -> (r: Arc<Volume>)
    ensures
        r == *volume,
{
    Arc::clone(volume)
}

/// Reports the deadband states that are not normal.
fn report_states(states: &[StorageDeadbandState]) -> (r: Vec<FleetEvent>)
    ensures
        views(r@) == deadband_events(states@),
{
    let mut events: Vec<FleetEvent> = Vec::new();
    let mut i: usize = 0;
    while i < states.len()
        invariant
            i <= states@.len(),
            views(events@) == deadband_events(states@.take(i as int)),
        decreases states@.len() - i,
    {
        assert(states@.take(i + 1).drop_last() =~= states@.take(i as int));
        let ghost before = events@;
        let state: &StorageDeadbandState = &states[i];
        match state.deadband_state {
            DeadbandState::Normal => {},
            DeadbandState::Approaching => events.push(
                FleetEvent::DeadbandWarn {
                    volume_name: state.volume_name.clone(),
                    utilization_pct: state.utilization_pct,
                },
            ),
            DeadbandState::Exceeded => events.push(
                FleetEvent::DeadbandExceeded {
                    volume_name: state.volume_name.clone(),
                    utilization_pct: state.utilization_pct,
                },
            ),
        }
        proof {
            if events@.len() > before.len() {
                assert(views(events@) =~= views(before).push(events@.last()@));
            }
        }
        i = i + 1;
    }
    assert(states@.take(i as int) =~= states@);
    events
}

/// Counts the deadband states that are in a given state.
fn count_states(states: &[StorageDeadbandState], state: DeadbandState) -> (r: usize)
    ensures
        r == count_of(states@, state),
{
    let mut count: usize = 0;
    let mut i: usize = 0;
    while i < states.len()
        invariant
            i <= states@.len(),
            count <= i,
            count == count_of(states@.take(i as int), state),
        decreases states@.len() - i,
    {
        assert(states@.take(i + 1).drop_last() =~= states@.take(i as int));
        if states[i].deadband_state == state {
            count = count + 1;
        }
        i = i + 1;
    }
    assert(states@.take(i as int) =~= states@);
    count
}

/// Configuration for the fleet manager.
#[derive(Debug, Clone)]
pub struct FleetConfig {
    /// How often to check volume health.
    pub check_interval: Duration,
    /// Per-volume deadband config overrides.
    pub volume_deadband_configs: HashMap<Id, VolumeDeadbandConfig>,
    /// Escalation engine config.
    pub escalation: EscalationConfig,
    /// Whether to run dry (no actual file migrations).
    pub dry_run: bool,
}

impl Default for FleetConfig {
    fn default() -> (r: FleetConfig)
        ensures
            r.check_interval == (Duration { secs: 60, nanos: 0 }),
            r.volume_deadband_configs@ == Map::<Id, VolumeDeadbandConfig>::empty(),
            r.escalation == default_escalation(),
            !r.dry_run,
    {
        FleetConfig {
            check_interval: Duration::from_secs(60),
            volume_deadband_configs: HashMap::new(),
            escalation: EscalationConfig::default(),
            dry_run: false,
        }
    }
}

/// The fleet manager: one controller per library.
#[derive(Debug)]
pub struct FleetManager {
    config: FleetConfig,
    stripe: StorageStripe,
    deadband: StorageDeadband,
    escalation_engine: EscalationEngine,
    /// Active handoffs keyed by source volume.
    active_handoffs: HashMap<Id, StorageHandoff>,
    /// Known volumes.
    volumes: HashMap<Id, Arc<Volume>>,
}

/// What a health check finds and plans, before anything is reported.
pub struct HealthOutcome {
    /// How many volumes were checked.
    pub checked: nat,
    /// The volumes that are not normal.
    pub states: Seq<StorageDeadbandState>,
    /// What the escalation engine made of them.
    pub run: EscalationRun,
}

impl HealthOutcome {
    /// What is done about it.
    pub open spec fn actions(self) -> Seq<EscalationAction> {
        or_no_op(self.run.actions)
    }

    /// What is reported of it.
    pub open spec fn events(self, volumes: Map<Id, Arc<Volume>>) -> Seq<FleetEventView> {
        deadband_events(self.states) + action_events(volumes, self.actions()) + seq![
            summary(self.checked, self.states),
        ]
    }
}

impl FleetManager {
    pub closed spec fn config(&self) -> FleetConfig {
        self.config
    }

    pub closed spec fn stripe(&self) -> StorageStripe {
        self.stripe
    }

    pub closed spec fn deadband(&self) -> StorageDeadband {
        self.deadband
    }

    pub closed spec fn engine(&self) -> EscalationEngine {
        self.escalation_engine
    }

    /// The handoffs that have begun, by source volume.
    pub closed spec fn handoffs(&self) -> Map<Id, StorageHandoff> {
        self.active_handoffs@
    }

    /// The registered volumes.
    pub closed spec fn volumes(&self) -> Map<Id, Arc<Volume>> {
        self.volumes@
    }

    /// The parts are well formed, and every registered volume is filed under its name and is in
    /// the stripe, in the tier of its type.
    pub open spec fn wf(&self) -> bool {
        &&& self.stripe().wf()
        &&& self.engine().wf()
        &&& forall|id: Id| #[trigger]
            self.volumes().contains_key(id) ==> self.volumes()[id].id == id
                && self.stripe()@.contains_key(id) && self.stripe()@[id].storage_tier
                == volume_tier(self.volumes()[id].volume_type)
    }

    /// The profile of every registered volume in the stripe says what the volume reported: its
    /// name, its free space and its capacity. It names no targets.
    pub open spec fn profiles_agree(&self) -> bool {
        forall|id: Id| #[trigger]
            self.volumes().contains_key(id) ==> {
                let (volume, profile) = (self.volumes()[id], self.stripe()@[id]);
                &&& profile.volume_id == volume.id
                &&& profile.volume_name@ == volume.name@
                &&& profile.free_bytes == volume.available_space
                &&& profile.total_bytes == volume.total_capacity
                &&& profile.escalation_targets@.len() == 0
            }
    }

    /// What a health check at a given time, along given walks, finds and plans.
    pub open spec fn outcome(
        &self,
        now: Timestamp,
        volume_walk: Seq<Id>,
        stripe_walk: Seq<Id>,
    ) -> HealthOutcome {
        let checked = listed(self.volumes(), volume_walk);
        let states = alarms(self.deadband().configs(), checked);
        HealthOutcome {
            checked: checked.len(),
            states,
            run: escalated_all(
                self.engine().config(),
                now,
                stripe_walk,
                states,
                self.engine().start(self.stripe()@),
            ),
        }
    }

    /// Whether a manager is this one after a health check.
    pub open spec fn checked_into(&self, after: &FleetManager, outcome: HealthOutcome) -> bool {
        &&& after.config() == self.config()
        &&& after.volumes() == self.volumes()
        &&& after.deadband().configs() == self.deadband().configs()
        &&& after.deadband().fired() == (self.deadband().fired() || any_exceeded(
            outcome.states,
        ))
        &&& after.stripe()@ == outcome.run.profiles
        &&& after.engine().config() == self.engine().config()
        &&& after.engine().last() == outcome.run.last
        &&& handoffs_follow(
            self.handoffs(),
            after.handoffs(),
            outcome.actions(),
            self.config().dry_run,
        )
    }

    /// Create a new fleet manager.
    pub fn new(config: FleetConfig) -> (r: FleetManager)
        ensures
            r.wf(),
            r.profiles_agree(),
            r.config() == config,
            r.stripe()@ == Map::<Id, TierProfile>::empty(),
            r.deadband().configs() == config.volume_deadband_configs@,
            !r.deadband().fired(),
            r.engine().config() == config.escalation,
            r.engine().last() == Map::<Id, Timestamp>::empty(),
            r.handoffs() == Map::<Id, StorageHandoff>::empty(),
            r.volumes() == Map::<Id, Arc<Volume>>::empty(),
    {
        let mut deadband = StorageDeadband::new();
        let ids: Vec<Id> = keys_of(&config.volume_deadband_configs);
        let mut i: usize = 0;
        while i < ids.len()
            invariant
                i <= ids@.len(),
                is_walk(config.volume_deadband_configs@, ids@),
                !deadband.fired(),
                forall|id: Id| #[trigger]
                    deadband.configs().contains_key(id)
                        ==> config.volume_deadband_configs@.contains_key(id)
                        && deadband.configs()[id] == config.volume_deadband_configs@[id],
                forall|j: int|
                    0 <= j < i ==> deadband.configs().contains_key(#[trigger] ids@[j]),
            decreases ids@.len() - i,
        {
            let id: Id = ids[i];
            assert(ids@.contains(id));
            if let Some(c) = config.volume_deadband_configs.get(&id) {
                deadband.set_config(id, *c);
            }
            i = i + 1;
        }
        assert(deadband.configs() =~= config.volume_deadband_configs@);
        let engine = EscalationEngine::new(config.escalation);
        FleetManager {
            config,
            stripe: StorageStripe::new(),
            deadband,
            escalation_engine: engine,
            active_handoffs: HashMap::new(),
            volumes: HashMap::new(),
        }
    }

    /// Register a volume (called when a new volume is detected).
    pub fn register_volume(&mut self, volume: Arc<Volume>)
        requires
            old(self).wf(),
        ensures
            final(self).wf(),
            old(self).profiles_agree() ==> final(self).profiles_agree(),
            final(self).config() == old(self).config(),
            final(self).deadband() == old(self).deadband(),
            final(self).engine() == old(self).engine(),
            final(self).handoffs() == old(self).handoffs(),
            final(self).volumes() == old(self).volumes().insert(volume.id, volume),
            enrolled(old(self).stripe()@, final(self).stripe()@, *volume),
            ({
                let profile = final(self).stripe()@[volume.id];
                &&& final(self).stripe()@ == old(self).stripe()@.insert(volume.id, profile)
                &&& profile.volume_id == volume.id
                &&& profile.volume_name == volume.name
                &&& profile.storage_tier == volume_tier(volume.volume_type)
                &&& profile.free_bytes == volume.available_space
                &&& profile.total_bytes == volume.total_capacity
                &&& profile.healthy
                &&& profile.escalation_targets@ == Seq::<Id>::empty()
            }),
    {
        let tier: StorageTier = classify_volume_tier(volume.volume_type);
        self.stripe.add_volume(
            volume.id,
            volume.name.clone(),
            tier,
            volume.available_space,
            volume.total_capacity,
            Vec::new(),
        );
        self.volumes.insert(volume.id, volume);
    }

    /// Remove a volume (volume unmounted, ejected, etc).
    pub fn unregister_volume(&mut self, volume_id: Id)
        requires
            old(self).wf(),
        ensures
            final(self).wf(),
            old(self).profiles_agree() ==> final(self).profiles_agree(),
            final(self).config() == old(self).config(),
            final(self).deadband() == old(self).deadband(),
            final(self).engine() == old(self).engine(),
            final(self).handoffs() == old(self).handoffs(),
            final(self).volumes() == old(self).volumes().remove(volume_id),
            final(self).stripe()@ == with_failed(old(self).stripe()@, volume_id),
    {
        self.volumes.remove(&volume_id);
        self.stripe.fail_volume(volume_id, String::from_str("unregistered"));
    }

    /// How often the health of the volumes is to be checked.
    pub fn check_interval(&self) -> (r: Duration)
        ensures
            r == self.config().check_interval,
    {
        self.config.check_interval
    }

    /// The handoff that is under way from a volume.
    pub fn active_handoff(&self, volume_id: Id) -> (r: Option<&StorageHandoff>)
        ensures
            match r {
                Some(handoff) => self.handoffs().contains_key(volume_id) && *handoff
                    == self.handoffs()[volume_id],
                None => !self.handoffs().contains_key(volume_id),
            },
    {
        self.active_handoffs.get(&volume_id)
    }

    /// The registered volumes, in the order of a walk.
    fn volumes_along(&self, walk: &[Id]) -> (r: Vec<Arc<Volume>>)
        ensures
            r@ == listed(self.volumes(), walk@),
    {
        let mut volumes: Vec<Arc<Volume>> = Vec::new();
        let mut i: usize = 0;
        while i < walk.len()
            invariant
                i <= walk@.len(),
                volumes@ == listed(self.volumes(), walk@.take(i as int)),
            decreases walk@.len() - i,
        {
            assert(walk@.take(i + 1).drop_last() =~= walk@.take(i as int));
            let id: Id = walk[i];
            match self.volumes.get(&id) {
                Some(volume) => volumes.push(shared(volume)),
                None => {},
            }
            i = i + 1;
        }
        assert(walk@.take(i as int) =~= walk@);
        volumes
    }

    /// The name of a registered volume; empty for another.
    fn volume_name(&self, id: Id) -> (r: String)
        ensures
            r@ == name_of(self.volumes(), id),
    {
        match self.volumes.get(&id) {
            Some(volume) => volume.name.clone(),
            None => String::new(),
        }
    }

    /// Reports an action and, unless this is a dry run, begins the handoff it asks for.
    fn act_on(&mut self, action: &EscalationAction) -> (r: Option<FleetEvent>)
        ensures
            final(self).config() == old(self).config(),
            final(self).stripe() == old(self).stripe(),
            final(self).deadband() == old(self).deadband(),
            final(self).engine() == old(self).engine(),
            final(self).volumes() == old(self).volumes(),
            handoffs_follow(
                old(self).handoffs(),
                final(self).handoffs(),
                seq![*action],
                old(self).config().dry_run,
            ),
            action_events(old(self).volumes(), seq![*action]) == match r {
                Some(event) => seq![event@],
                None => Seq::empty(),
            },
    {
        proof {
            reveal_with_fuel(action_events, 2);
            reveal_with_fuel(last_migration, 2);
            assert(seq![*action].drop_last() =~= Seq::<EscalationAction>::empty());
            assert(seq![*action].last() == *action);
        }
        match action {
            EscalationAction::Migrate {
                from_volume,
                to_volume,
                from_tier: _,
                to_tier: _,
                total_bytes,
            } => {
                let from_name: String = self.volume_name(*from_volume);
                let to_name: String = self.volume_name(*to_volume);
                if !self.config.dry_run {
                    let mut handoff = StorageHandoff::new(
                        *from_volume,
                        *to_volume,
                        *total_bytes,
                        Duration::from_secs(MIGRATION_SECS),
                    );
                    let begun = handoff.begin();
                    if begun.is_ok() {
                        self.active_handoffs.insert(*from_volume, handoff);
                    }
                }
                Some(
                    FleetEvent::HandoffStarted {
                        from_volume: *from_volume,
                        to_volume: *to_volume,
                        from_name,
                        to_name,
                    },
                )
            },
            EscalationAction::Degraded { tier, volumes } => {
                let degraded: Vec<Id> = volumes.clone();
                assert(degraded@ =~= volumes@);
                Some(FleetEvent::TierDegraded { tier: *tier, volumes: degraded })
            },
            EscalationAction::NoOp => None,
        }
    }

    /// Reports some actions and, unless this is a dry run, begins the handoffs they ask for.
    fn act_on_all(&mut self, actions: &[EscalationAction]) -> (r: Vec<FleetEvent>)
        ensures
            final(self).config() == old(self).config(),
            final(self).stripe() == old(self).stripe(),
            final(self).deadband() == old(self).deadband(),
            final(self).engine() == old(self).engine(),
            final(self).volumes() == old(self).volumes(),
            handoffs_follow(
                old(self).handoffs(),
                final(self).handoffs(),
                actions@,
                old(self).config().dry_run,
            ),
            views(r@) == action_events(old(self).volumes(), actions@),
    {
        let mut events: Vec<FleetEvent> = Vec::new();
        let mut i: usize = 0;
        while i < actions.len()
            invariant
                i <= actions@.len(),
                self.config() == old(self).config(),
                self.stripe() == old(self).stripe(),
                self.deadband() == old(self).deadband(),
                self.engine() == old(self).engine(),
                self.volumes() == old(self).volumes(),
                handoffs_follow(
                    old(self).handoffs(),
                    self.handoffs(),
                    actions@.take(i as int),
                    old(self).config().dry_run,
                ),
                views(events@) == action_events(old(self).volumes(), actions@.take(i as int)),
            decreases actions@.len() - i,
        {
            let ghost before = self.handoffs();
            let ghost reported = events@;
            let event: Option<FleetEvent> = self.act_on(&actions[i]);
            if let Some(event) = event {
                events.push(event);
                assert(views(events@) =~= views(reported) + seq![event@]);
            }
            proof {
                let earlier = actions@.take(i as int);
                assert(actions@.take(i + 1) =~= earlier.push(actions@[i as int]));
                lemma_next_action(
                    old(self).volumes(),
                    earlier,
                    actions@[i as int],
                    old(self).handoffs(),
                    before,
                    self.handoffs(),
                    old(self).config().dry_run,
                );
                assert(views(reported) + Seq::<FleetEventView>::empty() =~= views(reported));
            }
            i = i + 1;
        }
        assert(actions@.take(i as int) =~= actions@);
        events
    }

    /// Run a single fleet health check at a given time, with the registered volumes and those of
    /// the stripe in a given order.
    pub fn check_health_at(
        &mut self,
        now: Timestamp,
        volume_walk: &[Id],
        stripe_walk: &[Id],
    ) -> (r: Vec<FleetEvent>)
        requires
            old(self).wf(),
            now.valid(),
        ensures
            final(self).wf(),
            old(self).profiles_agree() ==> final(self).profiles_agree(),
            ({
                let outcome = old(self).outcome(now, volume_walk@, stripe_walk@);
                &&& old(self).checked_into(final(self), outcome)
                &&& views(r@) == outcome.events(old(self).volumes())
            }),
    {
        let ghost outcome = old(self).outcome(now, volume_walk@, stripe_walk@);
        let volumes: Vec<Arc<Volume>> = self.volumes_along(volume_walk);
        let states: Vec<StorageDeadbandState> = self.deadband.check_all(volumes.as_slice());
        let mut events: Vec<FleetEvent> = report_states(states.as_slice());
        let actions: Vec<EscalationAction> = self.escalation_engine.process_deadband_at(
            now,
            stripe_walk,
            states.as_slice(),
            &mut self.stripe,
        );
        proof {
            law_run_only_fails_volumes(
                old(self).engine().config(),
                now,
                stripe_walk@,
                outcome.states,
                old(self).engine().start(old(self).stripe()@),
            );
            assert(self.stripe()@.dom() == old(self).stripe()@.dom());
        }
        let ghost first = events@;
        let mut handoffs: Vec<FleetEvent> = self.act_on_all(actions.as_slice());
        let ghost second = handoffs@;
        events.append(&mut handoffs);
        let total: usize = volumes.len();
        let warning: usize = count_states(states.as_slice(), DeadbandState::Approaching);
        let critical: usize = count_states(states.as_slice(), DeadbandState::Exceeded);
        let healthy: usize = total.saturating_sub(warning).saturating_sub(critical);
        events.push(
            FleetEvent::HealthCheck { total_volumes: total, healthy, warning, critical },
        );
        assert(views(events@) =~= views(first) + views(second) + seq![events@.last()@]);
        events
    }

    /// Run a single fleet health check on all registered volumes.
    pub fn check_health(&mut self) -> (r: Vec<FleetEvent>)
        requires
            old(self).wf(),
        ensures
            final(self).wf(),
            old(self).profiles_agree() ==> final(self).profiles_agree(),
            exists|now: Timestamp, volume_walk: Seq<Id>, stripe_walk: Seq<Id>|
                #![trigger old(self).outcome(now, volume_walk, stripe_walk)]
                {
                    let outcome = old(self).outcome(now, volume_walk, stripe_walk);
                    &&& now.valid()
                    &&& is_walk(old(self).volumes(), volume_walk)
                    &&& is_walk(old(self).stripe()@, stripe_walk)
                    &&& old(self).checked_into(final(self), outcome)
                    &&& views(r@) == outcome.events(old(self).volumes())
                },
    {
        let now: Timestamp = utc_now();
        let volume_walk: Vec<Id> = keys_of(&self.volumes);
        let stripe_walk: Vec<Id> = self.stripe.walk();
        self.check_health_at(now, volume_walk.as_slice(), stripe_walk.as_slice())
    }
}

/// What one action more adds to the events and to the handoffs.
proof fn lemma_next_action(
    volumes: Map<Id, Arc<Volume>>,
    actions: Seq<EscalationAction>,
    action: EscalationAction,
    start: Map<Id, StorageHandoff>,
    before: Map<Id, StorageHandoff>,
    after: Map<Id, StorageHandoff>,
    dry_run: bool,
)
    requires
        handoffs_follow(start, before, actions, dry_run),
        handoffs_follow(before, after, seq![action], dry_run),
    ensures
        handoffs_follow(start, after, actions.push(action), dry_run),
        action_events(volumes, actions.push(action)) == action_events(volumes, actions)
            + action_events(volumes, seq![action]),
{
    reveal_with_fuel(action_events, 2);
    reveal_with_fuel(last_migration, 2);
    let one = seq![action];
    assert(actions.push(action).drop_last() =~= actions);
    assert(one.drop_last() =~= Seq::<EscalationAction>::empty());
    assert(one.last() == action);
    assert(action_events(volumes, actions.push(action)) =~= action_events(volumes, actions)
        + action_events(volumes, one));
    if !dry_run {
        assert forall|id: Id|
            #![trigger after.contains_key(id)]
            #![trigger last_migration(actions.push(action), id)]
            match last_migration(actions.push(action), id) {
                Some(migration) => after.contains_key(id) && just_begun(
                    after[id],
                    id,
                    migration.0,
                    migration.1,
                ),
                None => after.contains_key(id) == start.contains_key(id) && (after.contains_key(id)
                    ==> after[id] == start[id]),
            } by {
            let _ = before.contains_key(id);
            let _ = last_migration(one, id);
            let _ = last_migration(actions, id);
        }
    }
}

/// Every event before the summary is no summary.
proof fn lemma_no_summary(
    states: Seq<StorageDeadbandState>,
    volumes: Map<Id, Arc<Volume>>,
    actions: Seq<EscalationAction>,
)
    ensures
        forall|i: int|
            0 <= i < deadband_events(states).len() ==> !((#[trigger] deadband_events(states)[i])
                is HealthCheck),
        forall|i: int|
            0 <= i < action_events(volumes, actions).len() ==> !((#[trigger] action_events(
                volumes,
                actions,
            )[i]) is HealthCheck),
    decreases states.len() + actions.len(),
{
    if states.len() > 0 {
        lemma_no_summary(states.drop_last(), volumes, actions);
    } else if actions.len() > 0 {
        lemma_no_summary(states, volumes, actions.drop_last());
    }
}

/// A health check ends with a summary, and reports no other.
pub proof fn law_one_summary_and_last(outcome: HealthOutcome, volumes: Map<Id, Arc<Volume>>)
    ensures
        ({
            let events = outcome.events(volumes);
            &&& events.len() > 0
            &&& events.last() == summary(outcome.checked, outcome.states)
            &&& forall|i: int|
                0 <= i < events.len() - 1 ==> !((#[trigger] events[i]) is HealthCheck)
        }),
{
    lemma_no_summary(outcome.states, volumes, outcome.actions());
}

/// Alarms are warnings or critical.
proof fn lemma_alarms_are_counted(states: Seq<StorageDeadbandState>)
    requires
        forall|i: int|
            0 <= i < states.len() ==> (#[trigger] states[i]).deadband_state
                != DeadbandState::Normal,
    ensures
        count_of(states, DeadbandState::Approaching) + count_of(states, DeadbandState::Exceeded)
            == states.len(),
    decreases states.len(),
{
    if states.len() > 0 {
        lemma_alarms_are_counted(states.drop_last());
        assert(states[states.len() - 1] == states.last());
    }
}

/// The summary counts every checked volume once: as healthy, as a warning or as critical.
pub proof fn law_summary_adds_up(
    configs: Map<Id, VolumeDeadbandConfig>,
    volumes: Seq<Arc<Volume>>,
)
    ensures
        summary(volumes.len(), alarms(configs, volumes)) matches FleetEventView::HealthCheck {
            total_volumes,
            healthy,
            warning,
            critical,
        } && total_volumes == volumes.len() && healthy + warning + critical == total_volumes
            && healthy >= 0,
{
    law_alarms_are_the_volumes_not_normal(configs, volumes);
    lemma_alarms_are_counted(alarms(configs, volumes));
}

/// A health check covers every registered volume once.
pub proof fn law_every_volume_is_checked(volumes: Map<Id, Arc<Volume>>, walk: Seq<Id>)
    requires
        is_walk(volumes, walk),
    ensures
        listed(volumes, walk).len() == volumes.dom().len(),
        forall|id: Id| #[trigger]
            volumes.contains_key(id) ==> listed(volumes, walk).contains(volumes[id]),
{
    walk.unique_seq_to_set();
    assert forall|i: int| 0 <= i < walk.len() implies volumes.contains_key(#[trigger] walk[i]) by {
        assert(walk.contains(walk[i]));
    }
    lemma_listed(volumes, walk);
    assert forall|id: Id| #[trigger] volumes.contains_key(id) implies listed(
        volumes,
        walk,
    ).contains(volumes[id]) by {
        assert(walk.to_set().contains(id));
        let i = choose|i: int| 0 <= i < walk.len() && walk[i] == id;
        assert(listed(volumes, walk)[i] == volumes[id]);
    }
}

/// The volumes along a walk over registered ones.
proof fn lemma_listed(volumes: Map<Id, Arc<Volume>>, walk: Seq<Id>)
    requires
        forall|i: int| 0 <= i < walk.len() ==> volumes.contains_key(#[trigger] walk[i]),
    ensures
        listed(volumes, walk) == walk.map_values(|id: Id| volumes[id]),
    decreases walk.len(),
{
    if walk.len() > 0 {
        let shorter = walk.drop_last();
        assert forall|i: int| 0 <= i < shorter.len() implies volumes.contains_key(
            #[trigger] shorter[i],
        ) by {
            assert(shorter[i] == walk[i]);
        }
        lemma_listed(volumes, shorter);
        assert(volumes.contains_key(walk[walk.len() - 1]));
    }
    assert(listed(volumes, walk) =~= walk.map_values(|id: Id| volumes[id]));
}

/// Every alarm is reported, in order and under the name of its volume.
pub proof fn law_every_alarm_is_reported(states: Seq<StorageDeadbandState>)
    requires
        forall|i: int|
            0 <= i < states.len() ==> (#[trigger] states[i]).deadband_state
                != DeadbandState::Normal,
    ensures
        deadband_events(states).len() == states.len(),
        forall|i: int|
            0 <= i < states.len() ==> (#[trigger] deadband_events(states)[i]) == if states[i].deadband_state
                == DeadbandState::Exceeded {
                FleetEventView::DeadbandExceeded {
                    volume_name: states[i].volume_name@,
                    utilization_pct: states[i].utilization_pct,
                }
            } else {
                FleetEventView::DeadbandWarn {
                    volume_name: states[i].volume_name@,
                    utilization_pct: states[i].utilization_pct,
                }
            },
    decreases states.len(),
{
    if states.len() > 0 {
        law_every_alarm_is_reported(states.drop_last());
        assert(states[states.len() - 1] == states.last());
    }
}

/// Unless this is a dry run, every planned migration leaves a draining handoff from its source.
pub proof fn law_migrations_begin_handoffs(
    before: Map<Id, StorageHandoff>,
    after: Map<Id, StorageHandoff>,
    actions: Seq<EscalationAction>,
)
    requires
        handoffs_follow(before, after, actions, false),
    ensures
        forall|k: int|
            0 <= k < actions.len() && (#[trigger] actions[k]) is Migrate ==> {
                let from = actions[k]->from_volume;
                &&& after.contains_key(from)
                &&& after[from]@.from_volume == from
                &&& after[from]@.state == StorageHandoffState::Draining
                &&& after[from]@.migrated_bytes == 0
            },
{
    assert forall|k: int|
        0 <= k < actions.len() && (#[trigger] actions[k]) is Migrate implies last_migration(
        actions,
        actions[k]->from_volume,
    ) is Some by {
        lemma_last_migration(actions, k);
    }
}

/// A migration from a volume is the last one, or there is a later one.
proof fn lemma_last_migration(actions: Seq<EscalationAction>, k: int)
    requires
        0 <= k < actions.len(),
        actions[k] is Migrate,
    ensures
        last_migration(actions, actions[k]->from_volume) is Some,
    decreases actions.len(),
{
    if k < actions.len() - 1 {
        assert(actions.drop_last()[k] == actions[k]);
        lemma_last_migration(actions.drop_last(), k);
    }
}

/// Every planned migration is reported, under the names of its volumes.
pub proof fn law_every_migration_is_reported(
    volumes: Map<Id, Arc<Volume>>,
    actions: Seq<EscalationAction>,
    k: int,
)
    requires
        0 <= k < actions.len(),
        actions[k] is Migrate,
    ensures
        action_events(volumes, actions).contains(
            FleetEventView::HandoffStarted {
                from_volume: actions[k]->from_volume,
                to_volume: actions[k]->to_volume,
                from_name: name_of(volumes, actions[k]->from_volume),
                to_name: name_of(volumes, actions[k]->to_volume),
            },
        ),
    decreases actions.len(),
{
    let event = FleetEventView::HandoffStarted {
        from_volume: actions[k]->from_volume,
        to_volume: actions[k]->to_volume,
        from_name: name_of(volumes, actions[k]->from_volume),
        to_name: name_of(volumes, actions[k]->to_volume),
    };
    let all = action_events(volumes, actions);
    if k == actions.len() - 1 {
        assert(all[all.len() - 1] == event);
    } else {
        let shorter = actions.drop_last();
        let before = action_events(volumes, shorter);
        assert(shorter[k] == actions[k]);
        law_every_migration_is_reported(volumes, shorter, k);
        let j = choose|j: int| 0 <= j < before.len() && before[j] == event;
        assert(all[j] == event);
    }
}

/// When one volume of the fleet is critically full, the health check reports one handoff, to the
/// volume that takes over, and, unless this is a dry run, has begun it: provided that the volume is
/// not in cooldown, migrations need no approval, and the volume that takes over does not count as
/// full and can absorb anything.
pub proof fn law_full_volume_is_handed_off(
    manager: FleetManager,
    after: FleetManager,
    now: Timestamp,
    volume_walk: Seq<Id>,
    stripe_walk: Seq<Id>,
    i: int,
    target: Id,
)
    requires
        manager.checked_into(&after, manager.outcome(now, volume_walk, stripe_walk)),
        ({
            let states = manager.outcome(now, volume_walk, stripe_walk).states;
            let config = manager.engine().config();
            let id = states[i].volume_id;
            let profiles = with_failed(manager.stripe()@, id);
            &&& 0 <= i < states.len()
            &&& forall|j: int|
                0 <= j < states.len() && j != i ==> (#[trigger] states[j]).deadband_state
                    != DeadbandState::Exceeded
            &&& acted_on(config, now, manager.engine().last(), states[i])
            &&& config.auto_migrate
            &&& manager.stripe()@.contains_key(id)
            &&& escalation_target(profiles, stripe_walk, profiles[id]) == Some(target)
            &&& !is_full(profiles[target], config.target_max_util_pct)
            &&& absorbable(profiles[target].free_bytes, config.target_max_util_pct) > 0
        }),
    ensures
        ({
            let outcome = manager.outcome(now, volume_walk, stripe_walk);
            let id = outcome.states[i].volume_id;
            let bytes = absorbable(
                manager.stripe()@[target].free_bytes,
                manager.engine().config().target_max_util_pct,
            );
            &&& action_events(manager.volumes(), outcome.actions()) == seq![
                FleetEventView::HandoffStarted {
                    from_volume: id,
                    to_volume: target,
                    from_name: name_of(manager.volumes(), id),
                    to_name: name_of(manager.volumes(), target),
                },
            ]
            &&& !manager.config().dry_run ==> after.handoffs().contains_key(id) && just_begun(
                after.handoffs()[id],
                id,
                target,
                bytes,
            )
        }),
{
    let outcome = manager.outcome(now, volume_walk, stripe_walk);
    let config = manager.engine().config();
    let run = manager.engine().start(manager.stripe()@);
    let states = outcome.states;
    let id = states[i].volume_id;
    law_only_critical_volumes_matter(config, now, stripe_walk, states, run, i);
    law_full_volume_is_migrated(config, now, stripe_walk, states[i], run, target);
    let actions = outcome.actions();
    let action = takeover(config, run.profiles, id, target);
    assert(actions =~= seq![action]);
    reveal_with_fuel(action_events, 2);
    reveal_with_fuel(last_migration, 2);
    assert(actions.drop_last() =~= Seq::<EscalationAction>::empty());
    assert(actions.last() == action);
    assert(action_events(manager.volumes(), actions) =~= seq![
        FleetEventView::HandoffStarted {
            from_volume: id,
            to_volume: target,
            from_name: name_of(manager.volumes(), id),
            to_name: name_of(manager.volumes(), target),
        },
    ]);
    assert(last_migration(actions, id) is Some);
}

/// In a fleet without alarms a health check reports the summary alone, with every volume healthy,
/// and changes neither the stripe nor the handoffs.
pub proof fn law_quiet_fleet(
    manager: FleetManager,
    after: FleetManager,
    now: Timestamp,
    volume_walk: Seq<Id>,
    stripe_walk: Seq<Id>,
)
    requires
        manager.outcome(now, volume_walk, stripe_walk).states.len() == 0,
        manager.checked_into(&after, manager.outcome(now, volume_walk, stripe_walk)),
    ensures
        ({
            let checked = listed(manager.volumes(), volume_walk).len() as int;
            manager.outcome(now, volume_walk, stripe_walk).events(manager.volumes()) == seq![
                FleetEventView::HealthCheck {
                    total_volumes: checked,
                    healthy: checked,
                    warning: 0,
                    critical: 0,
                },
            ]
        }),
        after.stripe()@ == manager.stripe()@,
        after.handoffs() == manager.handoffs(),
        after.deadband().fired() == manager.deadband().fired(),
{
    let outcome = manager.outcome(now, volume_walk, stripe_walk);
    let actions = outcome.actions();
    reveal_with_fuel(action_events, 2);
    assert(outcome.run == manager.engine().start(manager.stripe()@));
    assert(actions =~= seq![EscalationAction::NoOp]);
    assert(actions.drop_last() =~= Seq::<EscalationAction>::empty());
    assert(action_events(manager.volumes(), actions) =~= Seq::<FleetEventView>::empty());
    assert(outcome.events(manager.volumes()) =~= seq![summary(outcome.checked, outcome.states)]);
    assert forall|id: Id| #[trigger] last_migration(actions, id) is None by {
        reveal_with_fuel(last_migration, 2);
    }
    assert(after.handoffs() =~= manager.handoffs());
}

} // verus!
