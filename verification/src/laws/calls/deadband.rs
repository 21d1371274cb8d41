//! Calls on deadbands.

use crate::binary64::{
    at_most, below, decimal, difference, product, quotient, signed, sum, Binary64,
};
use crate::deadband::{volume_state, StorageDeadband, StorageDeadbandState, VolumeDeadbandConfig};
use crate::internal::cocapn_core::{check_free_space, Deadband, DeadbandDirection, DeadbandState};
use crate::internal::sd_core::{utilization_pct, Id, Volume};
use crate::laws::deadband::{
    law_alarms_come_one_by_one, law_messages_tell, law_state_by_free_space,
    law_state_describes_its_volume, law_tier_configurations, law_too_slow, law_where_a_deadband_trips,
};
use crate::tiering::{classify_volume_tier, StorageTier};
use std::sync::Arc;
use vstd::prelude::*;

verus! {

/// What a deadband finds of a signal, from the center, the tolerance and the direction it was made
/// with: exceeded at the tolerance from the center or beyond, else approaching at half of it. Below
/// zero with a tolerance above one half, the tolerance is how full a volume may be and the signal
/// what is free.
pub proof fn law_check(
    center: Binary64,
    tolerance: Binary64,
    direction: DeadbandDirection,
    deadband: Deadband,
    signal: Binary64,
    r: DeadbandState,
)
    requires
        call_ensures(Deadband::new, (center, tolerance, direction), deadband),
        call_ensures(Deadband::check, (&deadband, signal), r),
    ensures
        ({
            let half = product(tolerance, decimal(1, 2));
            let watches = direction == DeadbandDirection::Below && below(
                signed(false, center.magnitude()),
                decimal(1, 0x10_0000_0000_0000),
            ) && below(decimal(1, 2), tolerance);
            let left = difference(decimal(1, 1), tolerance);
            let low = direction != DeadbandDirection::Above;
            let high = direction != DeadbandDirection::Below;
            let exceeded = if watches {
                at_most(signal, left)
            } else {
                (low && at_most(signal, difference(center, tolerance))) || (high && at_most(
                    sum(center, tolerance),
                    signal,
                ))
            };
            let approached = if watches {
                at_most(signal, product(left, decimal(3, 2)))
            } else {
                (low && at_most(signal, difference(center, half))) || (high && at_most(
                    sum(center, half),
                    signal,
                ))
            };
            &&& r == DeadbandState::Exceeded <==> exceeded
            &&& r == DeadbandState::Normal <==> !exceeded && !approached
        }),
{
    law_where_a_deadband_trips(center, tolerance, signal);
}

/// What is found of a free share against a threshold: exceeded where no more is free than the
/// threshold leaves, approaching where no more than one and a half times that is.
pub proof fn law_check_free_space(threshold: Binary64, free: Binary64, r: DeadbandState)
    requires
        call_ensures(check_free_space, (threshold, free), r),
    ensures
        ({
            let left = difference(decimal(1, 1), threshold);
            &&& r == DeadbandState::Exceeded <==> at_most(free, left)
            &&& r == DeadbandState::Normal <==> !at_most(free, left) && !at_most(
                free,
                product(left, decimal(3, 2)),
            )
        }),
{
}

/// Where nothing else is said, a volume may be 85 percent full, is warned of at 75 percent, and has
/// to read and write 10 megabytes a second.
pub proof fn law_default_configuration(r: VolumeDeadbandConfig)
    requires
        call_ensures(<VolumeDeadbandConfig as Default>::default, (), r),
    ensures
        r.util_threshold == decimal(85, 100),
        r.util_warn_at == decimal(75, 100),
        r.monitor_speed,
        r.min_read_mbps == 10 && r.min_write_mbps == 10,
{
}

/// The configuration of each tier.
pub proof fn law_configuration_for_tier(tier: &StorageTier, r: VolumeDeadbandConfig)
    requires
        call_ensures(VolumeDeadbandConfig::for_tier, (tier,), r),
    ensures
        ({
            let percent: nat = match *tier {
                StorageTier::Hot => 80,
                StorageTier::Bulk => 90,
                StorageTier::Archive => 95,
                StorageTier::Offload => 95,
            };
            &&& r.util_threshold == decimal(percent, 100)
            &&& r.util_warn_at == decimal((percent - 10) as nat, 100)
            &&& r.monitor_speed <==> *tier != StorageTier::Offload
            &&& r.min_read_mbps == r.min_write_mbps
            &&& r.min_read_mbps == if *tier == StorageTier::Archive {
                1u64
            } else {
                10u64
            }
        }),
{
    law_tier_configurations(*tier);
}

/// The configuration of a volume is its own where it has one, and else that of its tier.
pub proof fn law_configuration_of_volume(
    deadband: &StorageDeadband,
    volume: &Volume,
    tier: StorageTier,
    of_tier: VolumeDeadbandConfig,
    r: VolumeDeadbandConfig,
)
    requires
        call_ensures(StorageDeadband::config_of, (deadband, volume), r),
        call_ensures(classify_volume_tier, (volume.volume_type,), tier),
        call_ensures(VolumeDeadbandConfig::for_tier, (&tier,), of_tier),
    ensures
        deadband.configs().contains_key(volume.id) ==> r == deadband.configs()[volume.id],
        !deadband.configs().contains_key(volume.id) ==> r == of_tier,
{
}

/// What a check finds of a volume. It is found too slow exactly if its speed is monitored and its
/// reads are measured and fall short of the least for reads, or its writes are measured and fall
/// short of the least for writes. It is exceeded or approaching by its free space against the
/// threshold, and one step worse where it is too slow. The rest is said of the volume as it is.
pub proof fn law_check_volume(
    deadband: &StorageDeadband,
    volume: &Volume,
    config: VolumeDeadbandConfig,
    r: StorageDeadbandState,
)
    requires
        call_ensures(StorageDeadband::config_of, (deadband, volume), config),
        call_ensures(StorageDeadband::check_volume, (deadband, volume), r),
    ensures
        ({
            let slow_reads = volume.read_speed_mbps matches Some(read) && read
                < config.min_read_mbps;
            let slow_writes = volume.write_speed_mbps matches Some(write) && write
                < config.min_write_mbps;
            let used = quotient(
                utilization_pct(volume.total_capacity, volume.available_space),
                decimal(100, 1),
            );
            let free = difference(decimal(1, 1), used);
            let left = difference(decimal(1, 1), config.util_threshold);
            let tripped = at_most(free, left);
            let warned = at_most(free, product(left, decimal(3, 2)));
            &&& !r.speed_ok <==> config.monitor_speed && (slow_reads || slow_writes)
            &&& r.speed_ok ==> (r.deadband_state == DeadbandState::Exceeded <==> tripped)
            &&& r.speed_ok ==> (r.deadband_state == DeadbandState::Normal <==> !tripped && !warned)
            &&& !r.speed_ok ==> (r.deadband_state == DeadbandState::Exceeded <==> tripped || warned)
            &&& !r.speed_ok ==> r.deadband_state != DeadbandState::Normal
            &&& r.volume_id == volume.id
            &&& r.volume_name == volume.name
            &&& r.volume_type == volume.volume_type
            &&& r.utilization_pct == product(used, decimal(100, 1))
            &&& r.threshold_pct == product(config.util_threshold, decimal(100, 1))
        }),
{
    let configs = deadband.configs();
    let own = configs.insert(volume.id, config);
    assert(volume_state(own, *volume) == volume_state(configs, *volume));
    law_too_slow(own, *volume);
    law_state_by_free_space(own, *volume);
    law_state_describes_its_volume(own, *volume);
}

/// A configuration that is set is that of its volume alone from then on.
pub proof fn law_set_config(
    deadband: &mut StorageDeadband,
    id: Id,
    config: VolumeDeadbandConfig,
    other: Id,
)
    requires
        call_ensures(StorageDeadband::set_config, (deadband, id, config), ()),
    ensures
        final(deadband).configs().contains_key(id) && final(deadband).configs()[id] == config,
        other != id ==> final(deadband).configs().contains_key(other) == old(
            deadband,
        ).configs().contains_key(other) && final(deadband).configs()[other] == old(
            deadband,
        ).configs()[other],
        final(deadband).fired() == old(deadband).fired(),
{
}

/// A new deadband has no configurations and has not fired.
pub proof fn law_new_deadband(deadband: StorageDeadband, fired: bool, id: Id)
    requires
        call_ensures(StorageDeadband::new, (), deadband),
        call_ensures(StorageDeadband::has_fired, (&deadband,), fired),
    ensures
        !fired,
        !deadband.configs().contains_key(id),
{
}

/// A deadband that is reset has not fired, and keeps its configurations.
pub proof fn law_reset(deadband: &mut StorageDeadband)
    requires
        call_ensures(StorageDeadband::reset_fired, (deadband,), ()),
    ensures
        !final(deadband).fired(),
        final(deadband).configs() == old(deadband).configs(),
{
}

/// Whether a deadband has fired is what it is asked.
pub proof fn law_has_fired(deadband: &StorageDeadband, fired: bool)
    requires
        call_ensures(StorageDeadband::has_fired, (deadband,), fired),
    ensures
        fired == deadband.fired(),
{
}

/// The name of a deadband state.
pub proof fn law_deadband_state_name(state: &DeadbandState, r: &'static str)
    requires
        call_ensures(DeadbandState::name, (state,), r),
    ensures
        r@ == match *state {
            DeadbandState::Normal => "Normal"@,
            DeadbandState::Approaching => "Approaching"@,
            DeadbandState::Exceeded => "Exceeded"@,
        },
{
}

/// A check of one volume reports what is found of it, unless that is normal; a check of some
/// volumes and then some more reports what the two checks do, in order.
pub proof fn law_check_all(
    one: &mut StorageDeadband,
    volume: Arc<Volume>,
    alone: &[Arc<Volume>],
    found: StorageDeadbandState,
    of_one: Vec<StorageDeadbandState>,
    first: &mut StorageDeadband,
    some: &[Arc<Volume>],
    of_some: Vec<StorageDeadbandState>,
    second: &mut StorageDeadband,
    more: &[Arc<Volume>],
    of_more: Vec<StorageDeadbandState>,
    both: &mut StorageDeadband,
    all: &[Arc<Volume>],
    of_all: Vec<StorageDeadbandState>,
)
    requires
        alone@ == seq![volume],
        call_ensures(StorageDeadband::check_all, (one, alone), of_one),
        call_ensures(StorageDeadband::check_volume, (old(one), &*volume), found),
        all@ == some@ + more@,
        old(first).configs() == old(both).configs(),
        old(second).configs() == old(both).configs(),
        call_ensures(StorageDeadband::check_all, (first, some), of_some),
        call_ensures(StorageDeadband::check_all, (second, more), of_more),
        call_ensures(StorageDeadband::check_all, (both, all), of_all),
    ensures
        of_one@ == if found.deadband_state == DeadbandState::Normal {
            Seq::empty()
        } else {
            seq![found]
        },
        of_all@ == of_some@ + of_more@,
        some@.len() == 0 ==> of_some@.len() == 0,
{
    law_alarms_come_one_by_one(old(one).configs(), alone@, alone@, volume);
    law_alarms_come_one_by_one(old(both).configs(), some@, more@, volume);
    if some@.len() == 0 {
        assert(some@ + some@ =~= some@);
        law_alarms_come_one_by_one(old(first).configs(), some@, some@, volume);
        assert((of_some@ + of_some@).len() == of_some@.len());
    }
}

/// A check keeps the configurations. It fires where it reports a volume that is exceeded, and what
/// has fired stays so.
pub proof fn law_check_all_fires(
    deadband: &mut StorageDeadband,
    volumes: &[Arc<Volume>],
    r: Vec<StorageDeadbandState>,
)
    requires
        call_ensures(StorageDeadband::check_all, (deadband, volumes), r),
    ensures
        final(deadband).configs() == old(deadband).configs(),
        final(deadband).fired() <==> old(deadband).fired() || exists|i: int|
            0 <= i < r@.len() && (#[trigger] r@[i]).deadband_state == DeadbandState::Exceeded,
{
}

/// A message names the volume, says how full it is, that the threshold is exceeded or else that it
/// is approached, and whether the volume is fast enough.
pub proof fn law_message(
    state: &StorageDeadbandState,
    utilization: &str,
    threshold: &str,
    r: String,
)
    requires
        state.deadband_state != DeadbandState::Normal,
        call_ensures(StorageDeadbandState::message, (state, utilization, threshold), r),
    ensures
        ({
            let filled: int = 8 + state.volume_name@.len() as int + 5;
            let verdict: int = filled + utilization@.len() + 9;
            &&& r@.subrange(8, 8 + state.volume_name@.len() as int) == state.volume_name@
            &&& r@.subrange(filled, filled + utilization@.len()) == utilization@
            &&& if state.deadband_state == DeadbandState::Exceeded {
                r@.subrange(verdict, verdict + 8) == "EXCEEDED"@
            } else {
                r@.subrange(verdict, verdict + 11) == "approaching"@
            }
            &&& if state.speed_ok {
                r@.skip(r@.len() - 4) == "true"@
            } else {
                r@.skip(r@.len() - 5) == "false"@
            }
        }),
{
    law_messages_tell(
        state.volume_name@,
        state.deadband_state,
        utilization@,
        threshold@,
        state.speed_ok,
    );
}

} // verus!
