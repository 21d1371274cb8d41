//! Calls that classify nodes and volumes.

use crate::binary64::{decimal, product, quotient, Binary64};
use crate::internal::cocapn_core::DeviceTier;
use crate::internal::sd_core::{
    utilization_of, Device, DeviceFormFactor, Id, Volume, VolumeFingerprint, VolumeType,
};
use crate::laws::tiers::law_utilization_is_the_fraction_used;
use crate::tiering::{classify_node_tier, classify_volume_tier, StorageTier};
use vstd::prelude::*;

verus! {

/// The tier of a node: by its form factor, or by its cores and memory where that says nothing. What
/// is not known of its hardware counts as none.
pub proof fn law_node_tier_call(device: &Device, r: DeviceTier)
    requires
        call_ensures(classify_node_tier, (device,), r),
    ensures
        ({
            let cores: int = match device.cpu_cores_logical {
                Some(c) => c as int,
                None => 0,
            };
            let memory: int = match device.memory_total_bytes {
                Some(m) => m as int,
                None => 0,
            };
            match device.form_factor {
                Some(DeviceFormFactor::Server) => r == DeviceTier::Backbone,
                Some(DeviceFormFactor::Desktop) => r == DeviceTier::Cortex,
                Some(DeviceFormFactor::Laptop) => r == DeviceTier::Cortex,
                Some(DeviceFormFactor::Mobile) => r == DeviceTier::Reflex,
                Some(DeviceFormFactor::Tablet) => r == DeviceTier::Reflex,
                _ => {
                    &&& r == DeviceTier::Cortex <==> cores >= 8 && memory >= 8_000_000_000
                    &&& r == DeviceTier::Reflex <==> cores < 2 || memory < 1_000_000_000
                    &&& r != DeviceTier::Cloud
                },
            }
        }),
{
}

/// The tier of each type of volume.
pub proof fn law_volume_tier_call(volume_type: VolumeType, r: StorageTier)
    requires
        call_ensures(classify_volume_tier, (volume_type,), r),
    ensures
        r == StorageTier::Hot <==> (volume_type == VolumeType::Primary || volume_type
            == VolumeType::UserData || volume_type == VolumeType::System),
        r == StorageTier::Archive <==> volume_type == VolumeType::Cloud,
        r == StorageTier::Offload <==> volume_type == VolumeType::External,
{
}

/// Tiers are called by their names.
pub proof fn law_tier_names(
    storage: &StorageTier,
    device: &DeviceTier,
    a: &'static str,
    b: &'static str,
    c: &'static str,
)
    requires
        call_ensures(StorageTier::display_name, (storage,), a),
        call_ensures(DeviceTier::display_name, (device,), b),
        call_ensures(DeviceTier::name, (device,), c),
    ensures
        a@ == match *storage {
            StorageTier::Hot => "Hot (working set)"@,
            StorageTier::Bulk => "Bulk (NAS / secondary)"@,
            StorageTier::Archive => "Archive (cloud)"@,
            StorageTier::Offload => "Offload (external)"@,
        },
        b@ == match *device {
            DeviceTier::Backbone => "Backbone (always-on / NAS)"@,
            DeviceTier::Cortex => "Cortex (fast compute / desktop)"@,
            DeviceTier::Cloud => "Cloud (API-driven storage)"@,
            DeviceTier::Reflex => "Reflex (intermittent / edge)"@,
        },
        c@ == match *device {
            DeviceTier::Backbone => "Backbone"@,
            DeviceTier::Cortex => "Cortex"@,
            DeviceTier::Cloud => "Cloud"@,
            DeviceTier::Reflex => "Reflex"@,
        },
{
}

/// The utilization of a volume is the share of its capacity that is not free, in percent: nothing
/// where no less is free than there is, and nothing of a volume without capacity.
pub proof fn law_utilization_call(volume: &Volume, r: Binary64, s: Binary64)
    requires
        call_ensures(Volume::utilization_percentage, (volume,), r),
        call_ensures(utilization_of, (volume.total_capacity, volume.available_space), s),
    ensures
        r == s,
        volume.total_capacity == 0 ==> r == decimal(0, 1),
        0 < volume.total_capacity && volume.available_space <= volume.total_capacity ==> r
            == product(
            quotient(
                decimal((volume.total_capacity - volume.available_space) as nat, 1),
                decimal(volume.total_capacity as nat, 1),
            ),
            decimal(100, 1),
        ),
        volume.available_space >= volume.total_capacity ==> r == decimal(0, 1),
{
    law_utilization_is_the_fraction_used(
        volume.total_capacity,
        volume.available_space,
    );
}

/// A new volume has the given name and place, and nothing is known of it: no capacity, no speed, no
/// type.
pub proof fn law_new_volume(
    id: Id,
    fingerprint: VolumeFingerprint,
    name: String,
    mount_path: std::path::PathBuf,
    volume: Volume,
    shown: &str,
)
    requires
        call_ensures(Volume::new, (id, fingerprint, name, mount_path), volume),
        call_ensures(Volume::display_name, (&volume,), shown),
    ensures
        volume.id == id,
        volume.fingerprint == fingerprint,
        volume.name == name,
        shown@ == name@,
        volume.mount_path == mount_path,
        volume.total_capacity == 0 && volume.available_space == 0,
        volume.volume_type == VolumeType::Unknown,
        volume.read_speed_mbps is None && volume.write_speed_mbps is None,
{
}

} // verus!
