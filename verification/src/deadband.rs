//! Storage deadband: free-space and speed triggers.
//!
//! - Free space: utilization against a configurable threshold, as a one-sided deadband.
//! - Read and write speed: degraded I/O makes the state of a volume one step worse.
//! - Volumes: each volume has its own configuration, or else that of its storage tier.

use crate::binary64::laws::{
    is_share, law_quotient_by_itself, law_quotient_is_share, law_quotient_keeps_order,
    law_rest_of_one, law_u64_is_finite, law_whole_numbers_are_exact,
};
use crate::binary64::{at_most, decimal, difference, product, quotient, Binary64};
use crate::internal::cocapn_core::{
    check_free_space, law_less_free_is_not_milder, space_state, DeadbandState,
};
use crate::internal::sd_core::{
    law_full_is_a_hundred_percent, law_less_free_is_more_utilized,
    law_utilization_is_a_percentage, Id, Volume, VolumeType,
};
use crate::tiering::{classify_volume_tier, volume_tier, StorageTier};
use std::collections::HashMap;
use std::sync::Arc;
use vstd::prelude::*;

verus! {

/// Outcome of a deadband check on a single volume.
#[derive(Debug, Clone)]
pub struct StorageDeadbandState {
    pub volume_id: Id,
    pub volume_name: String,
    pub volume_type: VolumeType,
    pub utilization_pct: Binary64,
    pub deadband_state: DeadbandState,
    /// The utilization threshold of the volume, in percent.
    pub threshold_pct: Binary64,
    /// Whether the volume is as fast as it has to be.
    pub speed_ok: bool,
}

/// The text that reports a volume out of its normal range.
pub open spec fn message_text(
    name: Seq<char>,
    state: DeadbandState,
    utilization: Seq<char>,
    threshold: Seq<char>,
    speed_ok: bool,
) -> Seq<char> {
    "Volume '"@ + name + "' is "@ + utilization + (if state == DeadbandState::Exceeded {
        "% full \u{2014} EXCEEDED threshold ("@
    } else {
        "% full \u{2014} approaching threshold ("@
    }) + threshold + "%). Speed ok: "@ + (if speed_ok {
        "true"@
    } else {
        "false"@
    })
}

impl StorageDeadbandState {
    /// The report on the volume, with the utilization and the threshold, in percent, as they are
    /// to be printed.
    pub fn message(&self, utilization: &str, threshold: &str) -> (r: String)
        requires
            self.deadband_state != DeadbandState::Normal,
        ensures
            r@ == message_text(
                self.volume_name@,
                self.deadband_state,
                utilization@,
                threshold@,
                self.speed_ok,
            ),
    {
        let mut text = String::from_str("Volume '");
        text.append(self.volume_name.as_str());
        text.append("' is ");
        text.append(utilization);
        if self.deadband_state == DeadbandState::Exceeded {
            text.append("% full \u{2014} EXCEEDED threshold (");
        } else {
            text.append("% full \u{2014} approaching threshold (");
        }
        text.append(threshold);
        text.append("%). Speed ok: ");
        if self.speed_ok {
            text.append("true");
        } else {
            text.append("false");
        }
        text
    }
}

/// Per-volume deadband configuration.
#[derive(Debug, Clone, Copy)]
pub struct VolumeDeadbandConfig {
    /// Utilization threshold as a fraction from 0 to 1.
    /// E.g. 0.85 = escalate when the volume is 85% full.
    pub util_threshold: Binary64,
    /// A utilization to warn at, as a fraction from 0 to 1, for the use of callers: no check reads
    /// it. The deadband warns while the free share is within one and a half times what is left at
    /// the threshold.
    pub util_warn_at: Binary64,
    /// Whether to also monitor read/write speed degradation.
    pub monitor_speed: bool,
    /// Min acceptable read speed in MB/s before triggering degradation.
    pub min_read_mbps: u64,
    /// Min acceptable write speed in MB/s before triggering degradation.
    pub min_write_mbps: u64,
}

/// The configuration that applies where nothing else is said.
pub open spec fn default_config() -> VolumeDeadbandConfig {
    VolumeDeadbandConfig {
        util_threshold: decimal(85, 100),
        util_warn_at: decimal(75, 100),
        monitor_speed: true,
        min_read_mbps: 10,
        min_write_mbps: 10,
    }
}

/// The configuration of the volumes of a tier.
pub open spec fn tier_config(tier: StorageTier) -> VolumeDeadbandConfig {
    match tier {
        StorageTier::Hot => VolumeDeadbandConfig {
            util_threshold: decimal(80, 100),
            util_warn_at: decimal(70, 100),
            ..default_config()
        },
        StorageTier::Bulk => VolumeDeadbandConfig {
            util_threshold: decimal(90, 100),
            util_warn_at: decimal(80, 100),
            ..default_config()
        },
        StorageTier::Archive => VolumeDeadbandConfig {
            util_threshold: decimal(95, 100),
            util_warn_at: decimal(85, 100),
            min_read_mbps: 1,
            min_write_mbps: 1,
            ..default_config()
        },
        StorageTier::Offload => VolumeDeadbandConfig {
            util_threshold: decimal(95, 100),
            util_warn_at: decimal(85, 100),
            monitor_speed: false,
            ..default_config()
        },
    }
}

impl Default for VolumeDeadbandConfig {
    fn default() -> (r: VolumeDeadbandConfig)
        ensures
            r == default_config(),
    {
        VolumeDeadbandConfig {
            util_threshold: Binary64::ratio(85, 100),
            util_warn_at: Binary64::ratio(75, 100),
            monitor_speed: true,
            min_read_mbps: 10,
            min_write_mbps: 10,
        }
    }
}

impl VolumeDeadbandConfig {
    /// Sensible defaults per tier.
    pub fn for_tier(tier: &StorageTier) -> (r: VolumeDeadbandConfig)
        ensures
            r == tier_config(*tier),
    {
        let base: VolumeDeadbandConfig = VolumeDeadbandConfig::default();
        match tier {
            StorageTier::Hot => VolumeDeadbandConfig {
                util_threshold: Binary64::ratio(80, 100),
                util_warn_at: Binary64::ratio(70, 100),
                ..base
            },
            StorageTier::Bulk => VolumeDeadbandConfig {
                util_threshold: Binary64::ratio(90, 100),
                util_warn_at: Binary64::ratio(80, 100),
                ..base
            },
            StorageTier::Archive => VolumeDeadbandConfig {
                util_threshold: Binary64::ratio(95, 100),
                util_warn_at: Binary64::ratio(85, 100),
                min_read_mbps: 1,
                min_write_mbps: 1,
                ..base
            },
            StorageTier::Offload => VolumeDeadbandConfig {
                util_threshold: Binary64::ratio(95, 100),
                util_warn_at: Binary64::ratio(85, 100),
                monitor_speed: false,
                ..base
            },
        }
    }
}

/// The configuration of a volume: its own, or that of its tier.
pub open spec fn config_for(
    configs: Map<Id, VolumeDeadbandConfig>,
    volume: Volume,
) -> VolumeDeadbandConfig {
    if configs.contains_key(volume.id) {
        configs[volume.id]
    } else {
        tier_config(volume_tier(volume.volume_type))
    }
}

/// Whether a measured speed, if there is one, is high enough.
pub open spec fn fast_enough(speed: Option<u64>, least: u64) -> bool {
    match speed {
        Some(s) => s >= least,
        None => true,
    }
}

/// Whether a volume is as fast as its configuration asks.
pub open spec fn speed_ok(config: VolumeDeadbandConfig, volume: Volume) -> bool {
    config.monitor_speed ==> fast_enough(volume.read_speed_mbps, config.min_read_mbps)
        && fast_enough(volume.write_speed_mbps, config.min_write_mbps)
}

/// A volume that is too slow is one step worse than its free space says.
pub open spec fn compounded(state: DeadbandState, speed_ok: bool) -> DeadbandState {
    if speed_ok {
        state
    } else if state == DeadbandState::Normal {
        DeadbandState::Approaching
    } else {
        DeadbandState::Exceeded
    }
}

/// The used share of a volume, from 0 to 1.
pub open spec fn used_share(volume: Volume) -> Binary64 {
    quotient(volume.utilization(), decimal(100, 1))
}

/// The free share of a volume, from 0 to 1.
pub open spec fn free_share(volume: Volume) -> Binary64 {
    difference(decimal(1, 1), used_share(volume))
}

/// What the deadband finds of a volume.
pub open spec fn volume_state(
    configs: Map<Id, VolumeDeadbandConfig>,
    volume: Volume,
) -> StorageDeadbandState {
    let config = config_for(configs, volume);
    let ok = speed_ok(config, volume);
    StorageDeadbandState {
        volume_id: volume.id,
        volume_name: volume.name,
        volume_type: volume.volume_type,
        utilization_pct: product(used_share(volume), decimal(100, 1)),
        deadband_state: compounded(
            space_state(config.util_threshold, free_share(volume)),
            ok,
        ),
        threshold_pct: product(config.util_threshold, decimal(100, 1)),
        speed_ok: ok,
    }
}

/// What the deadband finds of some volumes, one by one.
pub open spec fn states_of(
    configs: Map<Id, VolumeDeadbandConfig>,
    volumes: Seq<Arc<Volume>>,
) -> Seq<StorageDeadbandState> {
    volumes.map_values(|volume: Arc<Volume>| volume_state(configs, *volume))
}

/// Those of some states that are not normal, in order.
pub open spec fn not_normal(states: Seq<StorageDeadbandState>) -> Seq<StorageDeadbandState> {
    states.filter(|state: StorageDeadbandState| state.deadband_state != DeadbandState::Normal)
}

/// The states of those volumes that are not normal, in order.
pub open spec fn alarms(
    configs: Map<Id, VolumeDeadbandConfig>,
    volumes: Seq<Arc<Volume>>,
) -> Seq<StorageDeadbandState> {
    not_normal(states_of(configs, volumes))
}

/// Whether one of some states is exceeded.
pub open spec fn any_exceeded(states: Seq<StorageDeadbandState>) -> bool {
    exists|i: int|
        0 <= i < states.len() && (#[trigger] states[i]).deadband_state == DeadbandState::Exceeded
}

/// A fleet-wide storage deadband that checks every volume.
#[derive(Debug)]
pub struct StorageDeadband {
    /// Per-volume deadband config keyed by volume.
    configs: HashMap<Id, VolumeDeadbandConfig>,
    /// Whether any volume has exceeded its deadband since the last reset.
    fired: bool,
}

impl Default for StorageDeadband {
    fn default() -> (r: StorageDeadband)
        ensures
            r.configs() == Map::<Id, VolumeDeadbandConfig>::empty(),
            !r.fired(),
    {
        StorageDeadband::new()
    }
}

impl StorageDeadband {
    /// The configurations that were set, by volume.
    pub closed spec fn configs(&self) -> Map<Id, VolumeDeadbandConfig> {
        self.configs@
    }

    /// Whether any volume has exceeded its deadband since the last reset.
    pub closed spec fn fired(&self) -> bool {
        self.fired
    }

    pub fn new() -> (r: StorageDeadband)
        ensures
            r.configs() == Map::<Id, VolumeDeadbandConfig>::empty(),
            !r.fired(),
    {
        StorageDeadband { configs: HashMap::new(), fired: false }
    }

    /// Set config for a specific volume.
    pub fn set_config(&mut self, volume_id: Id, config: VolumeDeadbandConfig)
        ensures
            final(self).configs() == old(self).configs().insert(volume_id, config),
            final(self).fired() == old(self).fired(),
    {
        self.configs.insert(volume_id, config);
    }

    /// The configuration that applies to a volume.
    pub fn config_of(&self, volume: &Volume) -> (r: VolumeDeadbandConfig)
        ensures
            r == config_for(self.configs(), *volume),
    {
        match self.configs.get(&volume.id) {
            Some(config) => *config,
            None => VolumeDeadbandConfig::for_tier(&classify_volume_tier(volume.volume_type)),
        }
    }

    /// Check one volume.
    pub fn check_volume(&self, volume: &Volume) -> (r: StorageDeadbandState)
        ensures
            r == volume_state(self.configs(), *volume),
    {
        let config: VolumeDeadbandConfig = self.config_of(volume);
        let hundred = Binary64::from_u64(100);
        let utilization = volume.utilization_percentage().over(hundred);
        let free_space = Binary64::from_u64(1).minus(utilization);
        let state = check_free_space(config.util_threshold, free_space);
        let ok: bool = if config.monitor_speed {
            let read_ok: bool = match volume.read_speed_mbps {
                Some(s) => s >= config.min_read_mbps,
                None => true,
            };
            let write_ok: bool = match volume.write_speed_mbps {
                Some(s) => s >= config.min_write_mbps,
                None => true,
            };
            read_ok && write_ok
        } else {
            true
        };
        let combined_state = if !ok && state == DeadbandState::Normal {
            DeadbandState::Approaching
        } else if !ok && state == DeadbandState::Approaching {
            DeadbandState::Exceeded
        } else {
            state
        };
        StorageDeadbandState {
            volume_id: volume.id,
            volume_name: volume.name.clone(),
            volume_type: volume.volume_type,
            utilization_pct: utilization.times(hundred),
            deadband_state: combined_state,
            threshold_pct: config.util_threshold.times(hundred),
            speed_ok: ok,
        }
    }

    /// Check all volumes and return those in non-normal states.
    pub fn check_all(&mut self, volumes: &[Arc<Volume>]) -> (r: Vec<StorageDeadbandState>)
        ensures
            r@ == alarms(old(self).configs(), volumes@),
            final(self).configs() == old(self).configs(),
            final(self).fired() == (old(self).fired() || any_exceeded(r@)),
    {
        let mut results: Vec<StorageDeadbandState> = Vec::new();
        proof {
            lemma_not_normal_holds(states_of(old(self).configs(), volumes@.take(0)));
        }
        let mut i: usize = 0;
        while i < volumes.len()
            invariant
                i <= volumes@.len(),
                results@ == alarms(old(self).configs(), volumes@.take(i as int)),
                self.configs() == old(self).configs(),
                self.fired() == (old(self).fired() || any_exceeded(results@)),
            decreases volumes@.len() - i,
        {
            let state = self.check_volume(&volumes[i]);
            proof {
                assert(states_of(old(self).configs(), volumes@.take(i + 1)) =~= states_of(
                    old(self).configs(),
                    volumes@.take(i as int),
                ).push(state));
                lemma_not_normal_push(
                    states_of(old(self).configs(), volumes@.take(i as int)),
                    state,
                );
            }
            if state.deadband_state != DeadbandState::Normal {
                let ghost before = results@;
                if state.deadband_state == DeadbandState::Exceeded {
                    self.fired = true;
                }
                results.push(state);
                proof {
                    lemma_any_exceeded_push(before, state);
                }
            }
            i = i + 1;
        }
        assert(volumes@.take(i as int) =~= volumes@);
        results
    }

    /// Reset the fired flag (after handling escalation).
    pub fn reset_fired(&mut self)
        ensures
            final(self).configs() == old(self).configs(),
            !final(self).fired(),
    {
        self.fired = false;
    }

    /// Check if any volume has exceeded its deadband since last reset.
    pub fn has_fired(&self) -> (r: bool)
        ensures
            r == self.fired(),
    {
        self.fired
    }
}

/// The used and the free share of a volume are from 0 to 1.
pub proof fn law_shares_are_shares(volume: Volume)
    ensures
        is_share(used_share(volume)),
        is_share(free_share(volume)),
{
    law_whole_numbers_are_exact(100);
    law_utilization_is_a_percentage(volume.total_capacity, volume.available_space);
    law_u64_is_finite(100);
    law_quotient_is_share(volume.utilization(), decimal(100, 1));
    law_rest_of_one(used_share(volume), used_share(volume));
}

/// A volume that is used to its threshold or past it is exceeded, whatever fraction the threshold
/// is.
pub proof fn law_past_threshold_is_exceeded(
    configs: Map<Id, VolumeDeadbandConfig>,
    volume: Volume,
)
    requires
        is_share(config_for(configs, volume).util_threshold),
        at_most(config_for(configs, volume).util_threshold, used_share(volume)),
    ensures
        volume_state(configs, volume).deadband_state == DeadbandState::Exceeded,
{
    law_shares_are_shares(volume);
    law_rest_of_one(config_for(configs, volume).util_threshold, used_share(volume));
}

/// A volume with capacity and without free space is exceeded under every threshold.
pub proof fn law_full_is_exceeded(configs: Map<Id, VolumeDeadbandConfig>, volume: Volume)
    requires
        is_share(config_for(configs, volume).util_threshold),
        volume.total_capacity > 0,
        volume.available_space == 0,
    ensures
        volume_state(configs, volume).deadband_state == DeadbandState::Exceeded,
{
    law_full_is_a_hundred_percent(volume.total_capacity);
    law_u64_is_finite(100);
    law_quotient_by_itself(decimal(100, 1));
    law_past_threshold_is_exceeded(configs, volume);
}

/// Of two volumes that differ in their free space alone, the fuller one is never in a milder
/// state.
pub proof fn law_fuller_is_not_milder(
    configs: Map<Id, VolumeDeadbandConfig>,
    fuller: Volume,
    emptier: Volume,
)
    requires
        emptier == (Volume { available_space: emptier.available_space, ..fuller }),
        fuller.available_space <= emptier.available_space,
    ensures
        volume_state(configs, fuller).deadband_state.severity() >= volume_state(
            configs,
            emptier,
        ).deadband_state.severity(),
{
    law_shares_are_shares(fuller);
    law_shares_are_shares(emptier);
    law_less_free_is_more_utilized(
        fuller.total_capacity,
        fuller.available_space,
        emptier.available_space,
    );
    law_utilization_is_a_percentage(fuller.total_capacity, fuller.available_space);
    law_utilization_is_a_percentage(fuller.total_capacity, emptier.available_space);
    law_u64_is_finite(100);
    law_quotient_keeps_order(emptier.utilization(), fuller.utilization(), decimal(100, 1));
    law_rest_of_one(used_share(emptier), used_share(fuller));
    law_less_free_is_not_milder(
        config_for(configs, fuller).util_threshold,
        free_share(fuller),
        free_share(emptier),
    );
}

/// A volume that is too slow is one step worse than its free space says, up to the worst state;
/// one that is fast enough is as its free space says.
pub proof fn law_slow_is_one_step_worse(configs: Map<Id, VolumeDeadbandConfig>, volume: Volume)
    ensures
        ({
            let by_space = space_state(
                config_for(configs, volume).util_threshold,
                free_share(volume),
            ).severity();
            let found = volume_state(configs, volume);
            found.deadband_state.severity() == if found.speed_ok || by_space == 2 {
                by_space
            } else {
                by_space + 1
            }
        }),
{
}

/// Whether one of some states is exceeded, with one state more.
proof fn lemma_any_exceeded_push(states: Seq<StorageDeadbandState>, state: StorageDeadbandState)
    ensures
        any_exceeded(states.push(state)) == (any_exceeded(states) || state.deadband_state
            == DeadbandState::Exceeded),
{
    let all = states.push(state);
    assert(all[states.len() as int] == state);
    if any_exceeded(states) {
        let i = choose|i: int|
            0 <= i < states.len() && (#[trigger] states[i]).deadband_state
                == DeadbandState::Exceeded;
        assert(all[i] == states[i]);
    }
    if any_exceeded(all) && state.deadband_state != DeadbandState::Exceeded {
        let i = choose|i: int|
            0 <= i < all.len() && (#[trigger] all[i]).deadband_state == DeadbandState::Exceeded;
        assert(states[i] == all[i]);
    }
}

/// The states that are not normal, after one state more.
proof fn lemma_not_normal_push(
    states: Seq<StorageDeadbandState>,
    state: StorageDeadbandState,
)
    ensures
        not_normal(states.push(state)) == if state.deadband_state == DeadbandState::Normal {
            not_normal(states)
        } else {
            not_normal(states).push(state)
        },
{
    reveal(Seq::filter);
    assert(states.push(state).drop_last() =~= states);
}

/// The alarms are the states of exactly those volumes that are not normal.
pub proof fn law_alarms_are_the_volumes_not_normal(
    configs: Map<Id, VolumeDeadbandConfig>,
    volumes: Seq<Arc<Volume>>,
)
    ensures
        alarms(configs, volumes).len() <= volumes.len(),
        forall|i: int|
            0 <= i < alarms(configs, volumes).len() ==> {
                let state = #[trigger] alarms(configs, volumes)[i];
                state.deadband_state != DeadbandState::Normal && states_of(
                    configs,
                    volumes,
                ).contains(state)
            },
        forall|j: int|
            0 <= j < volumes.len() && (#[trigger] states_of(configs, volumes)[j]).deadband_state
                != DeadbandState::Normal ==> alarms(configs, volumes).contains(
                states_of(configs, volumes)[j],
            ),
{
    lemma_not_normal_holds(states_of(configs, volumes));
}

/// What filtering keeps.
proof fn lemma_not_normal_holds(states: Seq<StorageDeadbandState>)
    ensures
        not_normal(states).len() <= states.len(),
        forall|i: int|
            0 <= i < not_normal(states).len() ==> (#[trigger] not_normal(states)[i]).deadband_state
                != DeadbandState::Normal && states.contains(not_normal(states)[i]),
        forall|j: int|
            0 <= j < states.len() && (#[trigger] states[j]).deadband_state != DeadbandState::Normal
                ==> not_normal(states).contains(states[j]),
    decreases states.len(),
{
    reveal(Seq::filter);
    if states.len() > 0 {
        let earlier = states.drop_last();
        lemma_not_normal_holds(earlier);
        let before = not_normal(earlier);
        let all = not_normal(states);
        assert forall|i: int| 0 <= i < all.len() implies (#[trigger] all[i]).deadband_state
            != DeadbandState::Normal && states.contains(all[i]) by {
            if i < before.len() {
                assert(all[i] == before[i]);
                let j = choose|j: int| 0 <= j < earlier.len() && earlier[j] == before[i];
                assert(states[j] == all[i]);
            } else {
                assert(all[i] == states[states.len() - 1]);
            }
        }
        assert forall|j: int|
            0 <= j < states.len() && (#[trigger] states[j]).deadband_state
                != DeadbandState::Normal implies all.contains(states[j]) by {
            if j < earlier.len() {
                assert(earlier[j] == states[j]);
                let i = choose|i: int| 0 <= i < before.len() && before[i] == earlier[j];
                assert(all[i] == states[j]);
            } else {
                assert(all[all.len() - 1] == states[j]);
            }
        }
    }
}

} // verus!
