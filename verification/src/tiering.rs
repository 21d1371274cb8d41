//! Classifies nodes and volumes into tiers.
//!
//! | Node | Device tier |
//! |------|-------------|
//! | NAS / home server | Backbone |
//! | Desktop, laptop | Cortex |
//! | Phone, tablet | Reflex |
//!
//! | Volume | Storage tier |
//! |--------|--------------|
//! | Primary, user data, system | Hot |
//! | Secondary, network, virtual, unknown | Bulk |
//! | Cloud | Archive |
//! | External | Offload |

use crate::binary64::laws::{
    law_equal_ratios_round_alike, law_order_is_that_of_bits, law_quotient_keeps_order,
    law_rounds_at_most, law_u64_is_finite, law_whole_numbers_are_exact,
    law_whole_numbers_keep_order, lemma_short_is_exact,
};
use crate::binary64::{
    at_most, decimal, lemma_units_increase, nearest_magnitude, one_units, quotient, units_of,
};
use crate::internal::cocapn_core::DeviceTier;
use crate::internal::sd_core::{Device, DeviceFormFactor, Id, VolumeType};
use vstd::arithmetic::power2::pow2;
use vstd::prelude::*;

verus! {

/// A storage tier: the volume analogue of a device tier.
#[derive(Debug, Clone, Copy, PartialEq, Eq, Hash, PartialOrd, Ord, Structural)]
pub enum StorageTier {
    /// Hot working set (primary SSD): fast, low capacity.
    Hot,
    /// Bulk storage (NAS, secondary drives): high capacity, moderate speed.
    Bulk,
    /// Archive (S3, B2, GCS, Glacier): unlimited, slow.
    Archive,
    /// Offload (external, removable): disconnectable cold storage.
    Offload,
}

impl StorageTier {
    /// The name of the tier with its role.
    pub fn display_name(&self) -> (r: &'static str)
        ensures
            r@ == match *self {
                StorageTier::Hot => "Hot (working set)"@,
                StorageTier::Bulk => "Bulk (NAS / secondary)"@,
                StorageTier::Archive => "Archive (cloud)"@,
                StorageTier::Offload => "Offload (external)"@,
            },
    {
        match self {
            StorageTier::Hot => "Hot (working set)",
            StorageTier::Bulk => "Bulk (NAS / secondary)",
            StorageTier::Archive => "Archive (cloud)",
            StorageTier::Offload => "Offload (external)",
        }
    }
}

/// The role that a node plays in the fleet.
#[derive(Debug, Clone)]
pub struct CoCapnNodeRole {
    pub device_id: Id,
    pub device_name: String,
    pub tier: DeviceTier,
    pub storage_tiers: Vec<StorageTier>,
}

/// Bytes in a gigabyte.
pub const GIGABYTE: u64 = 1_000_000_000;

/// The tier of a device by its hardware alone: logical cores and bytes of memory.
pub open spec fn hardware_tier(cores: u64, memory: u64) -> DeviceTier {
    if cores >= 8 && memory >= 8 * GIGABYTE {
        DeviceTier::Cortex
    } else if cores >= 2 && memory >= GIGABYTE {
        DeviceTier::Backbone
    } else {
        DeviceTier::Reflex
    }
}

/// The tier of a device: by its form factor, or by its hardware where that says nothing.
pub open spec fn node_tier(
    form_factor: Option<DeviceFormFactor>,
    cores: Option<u64>,
    memory: Option<u64>,
) -> DeviceTier {
    match form_factor {
        Some(DeviceFormFactor::Server) => DeviceTier::Backbone,
        Some(DeviceFormFactor::Desktop) => DeviceTier::Cortex,
        Some(DeviceFormFactor::Laptop) => DeviceTier::Cortex,
        Some(DeviceFormFactor::Mobile) => DeviceTier::Reflex,
        Some(DeviceFormFactor::Tablet) => DeviceTier::Reflex,
        _ => hardware_tier(
            match cores {
                Some(c) => c,
                None => 0,
            },
            match memory {
                Some(m) => m,
                None => 0,
            },
        ),
    }
}

/// Classify a device into a device tier.
pub fn classify_node_tier(device: &Device) -> (r: DeviceTier)
    ensures
        r == node_tier(device.form_factor, device.cpu_cores_logical, device.memory_total_bytes),
{
    match device.form_factor {
        Some(DeviceFormFactor::Server) => DeviceTier::Backbone,
        Some(DeviceFormFactor::Desktop) => DeviceTier::Cortex,
        Some(DeviceFormFactor::Laptop) => DeviceTier::Cortex,
        Some(DeviceFormFactor::Mobile) | Some(DeviceFormFactor::Tablet) => DeviceTier::Reflex,
        Some(DeviceFormFactor::Other) | None => {
            let cores: u64 = device.cpu_cores_logical.unwrap_or(0);
            let memory: u64 = device.memory_total_bytes.unwrap_or(0);
            if cores >= 8 && memory >= 8 * GIGABYTE {
                DeviceTier::Cortex
            } else if cores >= 2 && memory >= GIGABYTE {
                DeviceTier::Backbone
            } else {
                DeviceTier::Reflex
            }
        },
    }
}

/// The storage tier of a type of volume.
pub open spec fn volume_tier(volume_type: VolumeType) -> StorageTier {
    match volume_type {
        VolumeType::Primary | VolumeType::UserData | VolumeType::System => StorageTier::Hot,
        VolumeType::Cloud => StorageTier::Archive,
        VolumeType::External => StorageTier::Offload,
        _ => StorageTier::Bulk,
    }
}

/// Classify a type of volume into a storage tier.
pub fn classify_volume_tier(volume_type: VolumeType) -> (r: StorageTier)
    ensures
        r == volume_tier(volume_type),
{
    match volume_type {
        VolumeType::Primary | VolumeType::UserData => StorageTier::Hot,
        VolumeType::Secondary | VolumeType::Network => StorageTier::Bulk,
        VolumeType::Cloud => StorageTier::Archive,
        VolumeType::External => StorageTier::Offload,
        VolumeType::System => StorageTier::Hot,
        VolumeType::Virtual | VolumeType::Unknown => StorageTier::Bulk,
    }
}

/// The device tier that corresponds to a storage tier.
pub open spec fn corresponding_tier(tier: StorageTier) -> DeviceTier {
    match tier {
        StorageTier::Hot => DeviceTier::Cortex,
        StorageTier::Bulk => DeviceTier::Backbone,
        StorageTier::Archive => DeviceTier::Cloud,
        StorageTier::Offload => DeviceTier::Reflex,
    }
}

impl From<StorageTier> for DeviceTier {
    /// Map a storage tier back to the device tier of the same role.
    fn from(st: StorageTier) -> (r: DeviceTier) {
        match st {
            StorageTier::Hot => DeviceTier::Cortex,
            StorageTier::Bulk => DeviceTier::Backbone,
            StorageTier::Archive => DeviceTier::Cloud,
            StorageTier::Offload => DeviceTier::Reflex,
        }
    }
}

impl vstd::std_specs::convert::FromSpecImpl<StorageTier> for DeviceTier {
    open spec fn obeys_from_spec() -> bool {
        true
    }

    open spec fn from_spec(st: StorageTier) -> DeviceTier {
        corresponding_tier(st)
    }
}

/// Storage tiers and device tiers correspond one to one.
pub proof fn law_tiers_correspond(tier: DeviceTier)
    ensures
        exists|st: StorageTier| #[trigger] corresponding_tier(st) == tier,
        forall|a: StorageTier, b: StorageTier|
            #[trigger] corresponding_tier(a) == tier && #[trigger] corresponding_tier(b) == tier
                ==> a == b,
{
    let witness = match tier {
        DeviceTier::Cortex => StorageTier::Hot,
        DeviceTier::Backbone => StorageTier::Bulk,
        DeviceTier::Cloud => StorageTier::Archive,
        DeviceTier::Reflex => StorageTier::Offload,
    };
    assert(corresponding_tier(witness) == tier);
}

/// Comparing bytes of memory with whole gigabytes is the same as dividing by a gigabyte in floating
/// point and comparing then.
pub proof fn law_gigabytes(memory: u64, whole: nat)
    requires
        0 < whole <= 8,
    ensures
        at_most(
            decimal(whole, 1),
            quotient(decimal(memory as nat, 1), decimal(GIGABYTE as nat, 1)),
        ) == (memory >= whole * GIGABYTE),
{
    let one = one_units();
    let limit = whole * 1_000_000_000;
    let unit = decimal(GIGABYTE as nat, 1);
    let x = quotient(decimal(memory as nat, 1), unit);
    law_whole_numbers_are_exact(GIGABYTE as nat);
    law_whole_numbers_are_exact(whole);
    law_whole_numbers_are_exact(limit);
    law_u64_is_finite(GIGABYTE);
    law_u64_is_finite(memory);
    vstd::arithmetic::power2::lemma_pow2_pos(1074);
    law_quotient_keeps_order(decimal(memory as nat, 1), decimal(memory as nat, 1), unit);
    law_order_is_that_of_bits(decimal(whole, 1), x);
    if memory >= limit {
        law_whole_numbers_keep_order(limit, memory as nat);
        law_quotient_keeps_order(decimal(limit, 1), decimal(memory as nat, 1), unit);
        assert(((limit * one) * one) * 1 == (whole * one) * (1_000_000_000 * one))
            by (nonlinear_arith)
            requires
                limit == whole * 1_000_000_000,
        ;
        law_equal_ratios_round_alike((limit * one) * one, 1_000_000_000 * one, whole * one, 1);
    } else {
        let step = pow2(1044);
        let t = (whole * 0x4000_0000 - 1) as nat;
        vstd::arithmetic::power2::lemma_pow2_pos(1044);
        vstd::arithmetic::power2::lemma2_to64();
        vstd::arithmetic::power2::lemma_pow2_adds(30, 1044);
        lemma_short_is_exact(t, 1044);
        law_whole_numbers_are_exact(memory as nat);
        let bound = nearest_magnitude(t * step, 1);
        let n = (memory as nat * one) * one;
        let d = 1_000_000_000 * one;
        assert(n <= units_of(bound) * d) by (nonlinear_arith)
            requires
                n == (memory as nat * one) * one,
                d == 1_000_000_000 * one,
                units_of(bound) == t * step,
                one == 0x4000_0000 * step,
                t == whole * 0x4000_0000 - 1,
                memory + 1 <= whole * 1_000_000_000,
                whole <= 8,
        {
            assert(memory as nat * one <= (whole * 1_000_000_000 - 1) * one);
            assert((memory as nat * one) * one <= ((whole * 1_000_000_000 - 1) * one) * one);
            assert(((whole * 1_000_000_000 - 1) * one) * one == (whole * 1_000_000_000 - 1)
                * 0x4000_0000 * (step * one));
            assert((t * step) * (1_000_000_000 * one) == (whole * 0x4000_0000 - 1) * 1_000_000_000
                * (step * one));
            assert((whole * 1_000_000_000 - 1) * 0x4000_0000 <= (whole * 0x4000_0000 - 1)
                * 1_000_000_000);
            assert(step * one >= 0);
        }
        law_rounds_at_most(n, d, bound);
        assert(t * step < whole * one) by (nonlinear_arith)
            requires
                t == whole * 0x4000_0000 - 1,
                one == 0x4000_0000 * step,
                step > 0,
        ;
        if bound >= decimal(whole, 1).bits {
            if bound > decimal(whole, 1).bits {
                lemma_units_increase(decimal(whole, 1).bits as nat, bound);
            }
            assert(false);
        }
    }
}

} // verus!
