//! Tiers and volumes: who belongs where, and how full a volume is.

use crate::binary64::laws::{
    law_equal_ratios_round_alike, law_numbers_are_exact, law_u64_is_finite,
    law_whole_numbers_are_exact,
};
use crate::binary64::{decimal, one_units, product, quotient};
use crate::internal::cocapn_core::DeviceTier;
use crate::internal::sd_core::{utilization_pct, DeviceFormFactor, VolumeType};
use crate::tiering::{corresponding_tier, node_tier, volume_tier, StorageTier};
use vstd::prelude::*;

verus! {

/// Which volumes make up each tier.
pub proof fn law_volumes_of_each_tier(volume_type: VolumeType)
    ensures
        volume_tier(volume_type) == StorageTier::Hot <==> (volume_type == VolumeType::Primary
            || volume_type == VolumeType::UserData || volume_type == VolumeType::System),
        volume_tier(volume_type) == StorageTier::Bulk <==> (volume_type == VolumeType::Secondary
            || volume_type == VolumeType::Network || volume_type == VolumeType::Virtual
            || volume_type == VolumeType::Unknown),
        volume_tier(volume_type) == StorageTier::Archive <==> volume_type == VolumeType::Cloud,
        volume_tier(volume_type) == StorageTier::Offload <==> volume_type == VolumeType::External,
{
}

/// A known form factor decides alone: servers are the backbone, desktops and laptops the cortex,
/// phones and tablets the reflex.
pub proof fn law_form_factor_decides(
    form_factor: DeviceFormFactor,
    cores: Option<u64>,
    memory: Option<u64>,
)
    ensures
        ({
            let tier = node_tier(Some(form_factor), cores, memory);
            &&& form_factor == DeviceFormFactor::Server ==> tier == DeviceTier::Backbone
            &&& form_factor == DeviceFormFactor::Desktop ==> tier == DeviceTier::Cortex
            &&& form_factor == DeviceFormFactor::Laptop ==> tier == DeviceTier::Cortex
            &&& form_factor == DeviceFormFactor::Mobile ==> tier == DeviceTier::Reflex
            &&& form_factor == DeviceFormFactor::Tablet ==> tier == DeviceTier::Reflex
            &&& form_factor == DeviceFormFactor::Other ==> tier == node_tier(None, cores, memory)
        }),
{
}

/// Without a known form factor a device is of the cortex exactly if it has 8 cores and 8 gigabytes,
/// at least of the backbone exactly if it has 2 cores and 1 gigabyte, and never of the cloud; what
/// is not known counts as nothing.
pub proof fn law_hardware_decides(cores: u64, memory: u64)
    ensures
        ({
            let tier = node_tier(None, Some(cores), Some(memory));
            &&& tier == DeviceTier::Cortex <==> cores >= 8 && memory >= 8_000_000_000
            &&& tier == DeviceTier::Reflex <==> cores < 2 || memory < 1_000_000_000
            &&& tier != DeviceTier::Cloud
        }),
        node_tier(None, None, Some(memory)) == node_tier(None, Some(0), Some(memory)),
        node_tier(None, Some(cores), None) == node_tier(None, Some(cores), Some(0)),
        node_tier(None, None, None) == DeviceTier::Reflex,
{
}

/// The device tier of each storage tier.
pub proof fn law_device_tier_of_each_storage_tier(tier: StorageTier)
    ensures
        corresponding_tier(tier) == DeviceTier::Cortex <==> tier == StorageTier::Hot,
        corresponding_tier(tier) == DeviceTier::Backbone <==> tier == StorageTier::Bulk,
        corresponding_tier(tier) == DeviceTier::Cloud <==> tier == StorageTier::Archive,
        corresponding_tier(tier) == DeviceTier::Reflex <==> tier == StorageTier::Offload,
        <DeviceTier as vstd::std_specs::convert::FromSpec<StorageTier>>::from_spec(tier)
            == corresponding_tier(tier),
{
}

/// The utilization of a volume is the fraction of its capacity that is not free, rounded, times
/// 100, rounded; a volume without capacity, or with no less free than it has, is not utilized.
pub proof fn law_utilization_is_the_fraction_used(total: u64, available: u64)
    ensures
        available < total < 0x20_0000_0000_0000 ==> utilization_pct(total, available) == product(
            decimal((total - available) as nat, total as nat),
            decimal(100, 1),
        ),
        available >= total ==> utilization_pct(total, available) == decimal(0, 1),
{
    let one = one_units();
    vstd::arithmetic::power2::lemma_pow2_pos(1074);
    law_whole_numbers_are_exact(0);
    law_whole_numbers_are_exact(100);
    law_u64_is_finite(total);
    if available < total < 0x20_0000_0000_0000 {
        let used = (total - available) as nat;
        law_whole_numbers_are_exact(used);
        law_whole_numbers_are_exact(total as nat);
        assert(((used * one) * one) * total == (used * one) * (total * one)) by (nonlinear_arith);
        assert(total * one > 0) by (nonlinear_arith)
            requires
                total > 0,
                one > 0,
        ;
        law_equal_ratios_round_alike(
            (used * one) * one,
            total as nat * one,
            used * one,
            total as nat,
        );
    } else if available >= total && total > 0 {
        let whole = decimal(total as nat, 1);
        let d = whole.units();
        crate::binary64::lemma_units_increase(0, whole.bits as nat);
        law_numbers_are_exact(0);
        assert(((0 * one) * one) * 1 == 0 * d) by (nonlinear_arith);
        law_equal_ratios_round_alike((0 * one) * one, d, 0, 1);
        let share = quotient(decimal(0, 1), whole);
        assert(share.bits == 0);
        assert((0 * (100 * one)) * 1 == 0 * one) by (nonlinear_arith);
        law_equal_ratios_round_alike(0 * (100 * one), one, 0, 1);
    }
}

} // verus!
