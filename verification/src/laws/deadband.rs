//! Deadbands: when a volume is too full or too slow, by which configuration, and which volumes are
//! reported.

use crate::binary64::{
    at_most, below, decimal, difference, product, quotient, signed, sum, Binary64,
};
use crate::deadband::{
    alarms, any_exceeded, message_text, states_of, tier_config, volume_state, StorageDeadbandState,
    VolumeDeadbandConfig,
};
use crate::internal::cocapn_core::{deadband_state, DeadbandDirection, DeadbandState};
use crate::internal::sd_core::{utilization_pct, Id, Volume, VolumeType};
use crate::tiering::StorageTier;
use std::sync::Arc;
use vstd::prelude::*;

verus! {

/// Whether a volume is found too slow: a monitored volume is, exactly if its reads are measured and
/// fall short of the least for reads, or its writes are measured and fall short of the least for
/// writes.
pub proof fn law_too_slow(configs: Map<Id, VolumeDeadbandConfig>, volume: Volume)
    requires
        configs.contains_key(volume.id),
    ensures
        ({
            let config = configs[volume.id];
            let slow_reads = volume.read_speed_mbps matches Some(read) && read
                < config.min_read_mbps;
            let slow_writes = volume.write_speed_mbps matches Some(write) && write
                < config.min_write_mbps;
            !volume_state(configs, volume).speed_ok <==> config.monitor_speed && (slow_reads
                || slow_writes)
        }),
{
}

/// The least speed for writes plays no part where no write speed is measured, nor the least speed
/// for reads where no read speed is, nor either where speed is not monitored. And a faster volume
/// is never found too slow where a slower one is not.
pub proof fn law_speeds_are_judged_apart(
    configs: Map<Id, VolumeDeadbandConfig>,
    volume: Volume,
    config: VolumeDeadbandConfig,
    least: u64,
    faster: u64,
)
    ensures
        ({
            let with = |c: VolumeDeadbandConfig, v: Volume|
                volume_state(configs.insert(volume.id, c), v);
            let other_writes = VolumeDeadbandConfig { min_write_mbps: least, ..config };
            let other_reads = VolumeDeadbandConfig { min_read_mbps: least, ..config };
            &&& volume.write_speed_mbps is None || !config.monitor_speed ==> with(config, volume)
                == with(other_writes, volume)
            &&& volume.read_speed_mbps is None || !config.monitor_speed ==> with(config, volume)
                == with(other_reads, volume)
            &&& (volume.read_speed_mbps matches Some(read) && read <= faster) && with(
                config,
                volume,
            ).speed_ok ==> with(
                config,
                Volume { read_speed_mbps: Some(faster), ..volume },
            ).speed_ok
            &&& (volume.write_speed_mbps matches Some(write) && write <= faster) && with(
                config,
                volume,
            ).speed_ok ==> with(
                config,
                Volume { write_speed_mbps: Some(faster), ..volume },
            ).speed_ok
        }),
{
}

/// How full makes how much of an alarm, for a volume that is fast enough: it is exceeded exactly if
/// no more than `1 - threshold` is free, and normal exactly if more than that and more than one and
/// a half times that is free. For one that is too slow, approaching takes the place of normal and
/// exceeded that of approaching.
pub proof fn law_state_by_free_space(configs: Map<Id, VolumeDeadbandConfig>, volume: Volume)
    requires
        configs.contains_key(volume.id),
    ensures
        ({
            let found = volume_state(configs, volume);
            let used = quotient(
                utilization_pct(volume.total_capacity, volume.available_space),
                decimal(100, 1),
            );
            let free = difference(decimal(1, 1), used);
            let left = difference(decimal(1, 1), configs[volume.id].util_threshold);
            let tripped = at_most(free, left);
            let warned = at_most(free, product(left, decimal(3, 2)));
            &&& found.speed_ok ==> (found.deadband_state == DeadbandState::Exceeded <==> tripped)
            &&& found.speed_ok ==> (found.deadband_state == DeadbandState::Normal <==> !tripped
                && !warned)
            &&& !found.speed_ok ==> found.deadband_state != DeadbandState::Normal
            &&& !found.speed_ok ==> (found.deadband_state == DeadbandState::Exceeded <==> tripped
                || warned)
        }),
{
}

/// A state names the volume it is about, and gives its utilization and its threshold in percent.
pub proof fn law_state_describes_its_volume(
    configs: Map<Id, VolumeDeadbandConfig>,
    volume: Volume,
)
    ensures
        ({
            let found = volume_state(configs, volume);
            let hundred = decimal(100, 1);
            &&& found.volume_id == volume.id
            &&& found.volume_name == volume.name
            &&& found.volume_type == volume.volume_type
            &&& found.utilization_pct == product(
                quotient(
                    utilization_pct(volume.total_capacity, volume.available_space),
                    hundred,
                ),
                hundred,
            )
            &&& configs.contains_key(volume.id) ==> found.threshold_pct == product(
                configs[volume.id].util_threshold,
                hundred,
            )
        }),
{
}

/// A volume is judged by the configuration set for it, whatever is set for others; where none is
/// set for it, it is judged as if that of the tier of its type were.
pub proof fn law_own_configuration_decides(
    configs: Map<Id, VolumeDeadbandConfig>,
    volume: Volume,
    other: Id,
    config: VolumeDeadbandConfig,
)
    requires
        other != volume.id,
    ensures
        volume_state(configs.insert(other, config), volume) == volume_state(configs, volume),
        volume_state(configs.remove(other), volume) == volume_state(configs, volume),
        ({
            let tier = match volume.volume_type {
                VolumeType::Primary => StorageTier::Hot,
                VolumeType::UserData => StorageTier::Hot,
                VolumeType::System => StorageTier::Hot,
                VolumeType::Secondary => StorageTier::Bulk,
                VolumeType::Network => StorageTier::Bulk,
                VolumeType::Virtual => StorageTier::Bulk,
                VolumeType::Unknown => StorageTier::Bulk,
                VolumeType::Cloud => StorageTier::Archive,
                VolumeType::External => StorageTier::Offload,
            };
            volume_state(configs.remove(volume.id), volume) == volume_state(
                configs.insert(volume.id, tier_config(tier)),
                volume,
            )
        }),
{
}

/// What each tier is held to: a hot volume to 80 percent, a bulk volume to 90, the others to 95,
/// with the mark for warnings ten points lower. Speed is monitored except on removable volumes;
/// archives may be as slow as 1 MB/s, the others as 10.
pub proof fn law_tier_configurations(tier: StorageTier)
    ensures
        ({
            let config = tier_config(tier);
            let percent: nat = match tier {
                StorageTier::Hot => 80,
                StorageTier::Bulk => 90,
                StorageTier::Archive => 95,
                StorageTier::Offload => 95,
            };
            &&& config.util_threshold == decimal(percent, 100)
            &&& config.util_warn_at == decimal((percent - 10) as nat, 100)
            &&& config.monitor_speed <==> tier != StorageTier::Offload
            &&& config.min_read_mbps == config.min_write_mbps
            &&& config.min_read_mbps == if tier == StorageTier::Archive {
                1u64
            } else {
                10u64
            }
        }),
{
}

/// Volumes are checked one by one: the alarms of some volumes and of some more are the alarms of
/// all, in order, and the alarms of one volume are its state unless that is normal.
pub proof fn law_alarms_come_one_by_one(
    configs: Map<Id, VolumeDeadbandConfig>,
    first: Seq<Arc<Volume>>,
    more: Seq<Arc<Volume>>,
    volume: Arc<Volume>,
)
    ensures
        alarms(configs, first + more) == alarms(configs, first) + alarms(configs, more),
        ({
            let state = volume_state(configs, *volume);
            alarms(configs, seq![volume]) == if state.deadband_state == DeadbandState::Normal {
                Seq::empty()
            } else {
                seq![state]
            }
        }),
{
    let pred = |state: StorageDeadbandState| state.deadband_state != DeadbandState::Normal;
    assert(states_of(configs, first + more) =~= states_of(configs, first) + states_of(
        configs,
        more,
    ));
    Seq::filter_distributes_over_add(states_of(configs, first), states_of(configs, more), pred);
    let one = states_of(configs, seq![volume]);
    reveal_with_fuel(Seq::filter, 2);
    assert(one.drop_last() =~= Seq::<StorageDeadbandState>::empty());
    assert(one.last() == volume_state(configs, *volume));
}

/// The deadband has fired exactly if an alarm is exceeded: it has over two lists of alarms if it
/// has over one of them, and it has over one alarm if that is exceeded.
pub proof fn law_fires_on_exceeded(
    first: Seq<StorageDeadbandState>,
    more: Seq<StorageDeadbandState>,
    state: StorageDeadbandState,
)
    ensures
        any_exceeded(first + more) <==> any_exceeded(first) || any_exceeded(more),
        any_exceeded(seq![state]) <==> state.deadband_state == DeadbandState::Exceeded,
        !any_exceeded(Seq::<StorageDeadbandState>::empty()),
{
    let all = first + more;
    if any_exceeded(first) {
        let i = choose|i: int|
            0 <= i < first.len() && (#[trigger] first[i]).deadband_state == DeadbandState::Exceeded;
        assert(all[i] == first[i]);
    }
    if any_exceeded(more) {
        let i = choose|i: int|
            0 <= i < more.len() && (#[trigger] more[i]).deadband_state == DeadbandState::Exceeded;
        assert(all[first.len() + i] == more[i]);
    }
    if any_exceeded(all) {
        let i = choose|i: int|
            0 <= i < all.len() && (#[trigger] all[i]).deadband_state == DeadbandState::Exceeded;
        if i < first.len() {
            assert(first[i] == all[i]);
        } else {
            assert(more[i - first.len()] == all[i]);
        }
    }
    assert(seq![state][0] == state);
}

/// When a deadband trips: one that looks above, once the signal reaches its center plus its
/// tolerance; one that looks below, once it reaches its center minus its tolerance, unless it
/// watches free space, and then once it reaches 1 minus its tolerance. It watches free space if its
/// center is 0 or next to it and its tolerance is above one half. A deadband warns half way there,
/// and one that watches free space within one and a half times what is left.
pub proof fn law_where_a_deadband_trips(center: Binary64, tolerance: Binary64, signal: Binary64)
    ensures
        ({
            let half = product(tolerance, decimal(1, 2));
            let watches = below(
                signed(false, center.magnitude()),
                decimal(1, 0x10_0000_0000_0000),
            ) && below(decimal(1, 2), tolerance);
            let left = difference(decimal(1, 1), tolerance);
            let above = deadband_state(center, tolerance, DeadbandDirection::Above, signal);
            let under = deadband_state(center, tolerance, DeadbandDirection::Below, signal);
            let high = at_most(sum(center, tolerance), signal);
            let low = at_most(signal, difference(center, tolerance));
            &&& above == DeadbandState::Exceeded <==> high
            &&& above == DeadbandState::Normal <==> !high && !at_most(sum(center, half), signal)
            &&& !watches ==> {
                &&& under == DeadbandState::Exceeded <==> low
                &&& under == DeadbandState::Normal <==> !low && !at_most(
                    signal,
                    difference(center, half),
                )
            }
            &&& watches ==> {
                &&& under == DeadbandState::Exceeded <==> at_most(signal, left)
                &&& under == DeadbandState::Normal <==> !at_most(signal, left) && !at_most(
                    signal,
                    product(left, decimal(3, 2)),
                )
            }
        }),
{
}

/// A deadband that looks both ways is in the worse of the states of the two that look one way.
pub proof fn law_either_way_is_the_worse(center: Binary64, tolerance: Binary64, signal: Binary64)
    requires
        at_most(tolerance, decimal(1, 2)) || at_most(
            decimal(1, 0x10_0000_0000_0000),
            signed(false, center.magnitude()),
        ),
    ensures
        ({
            let above = deadband_state(center, tolerance, DeadbandDirection::Above, signal);
            let under = deadband_state(center, tolerance, DeadbandDirection::Below, signal);
            let either = deadband_state(center, tolerance, DeadbandDirection::Either, signal);
            &&& either == DeadbandState::Exceeded <==> above == DeadbandState::Exceeded || under
                == DeadbandState::Exceeded
            &&& either == DeadbandState::Normal <==> above == DeadbandState::Normal && under
                == DeadbandState::Normal
        }),
{
}

/// A message begins with the name of the volume, goes on with how full it is, then says in capitals
/// that the threshold is exceeded, or else that it is approached, and ends with whether the volume
/// is fast enough.
pub proof fn law_messages_tell(
    name: Seq<char>,
    state: DeadbandState,
    utilization: Seq<char>,
    threshold: Seq<char>,
    speed_ok: bool,
)
    ensures
        ({
            let message = message_text(name, state, utilization, threshold, speed_ok);
            let filled: int = 8 + name.len() as int + 5;
            let verdict: int = filled + utilization.len() + 9;
            &&& message.subrange(8, 8 + name.len() as int) == name
            &&& message.subrange(filled, filled + utilization.len()) == utilization
            &&& if state == DeadbandState::Exceeded {
                message.subrange(verdict, verdict + 8) == "EXCEEDED"@
            } else {
                message.subrange(verdict, verdict + 11) == "approaching"@
            }
            &&& if speed_ok {
                message.skip(message.len() - 4) == "true"@
            } else {
                message.skip(message.len() - 5) == "false"@
            }
        }),
{
    reveal_strlit("Volume '");
    reveal_strlit("' is ");
    reveal_strlit("% full \u{2014} EXCEEDED threshold (");
    reveal_strlit("% full \u{2014} approaching threshold (");
    reveal_strlit("%). Speed ok: ");
    reveal_strlit("EXCEEDED");
    reveal_strlit("approaching");
    reveal_strlit("true");
    reveal_strlit("false");
}

} // verus!
