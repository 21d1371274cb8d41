//! Storage volumes and the devices that run them.

use crate::binary64::laws::{
    is_amount, law_equal_ratios_round_alike, law_product_keeps_order, law_product_with_share,
    law_quotient_by_itself, law_quotient_is_share, law_quotient_keeps_order, law_u64_is_finite,
    law_whole_numbers_are_exact, law_whole_numbers_keep_order,
};
use crate::binary64::{at_most, decimal, one_units, product, quotient, Binary64};
use crate::time::Timestamp;
use vstd::prelude::*;

verus! {

/// Names a volume, a device or an entry: the 128 bits of its UUID.
pub type Id = u128;

/// The path type of std, which is carried and not looked into.
#[verifier::external_type_specification]
#[verifier::external_body]
pub struct ExPathBuf(std::path::PathBuf);

/// `PathBuf::clone` returns a path equal to its argument.
pub assume_specification[ <std::path::PathBuf as Clone>::clone ](
    path: &std::path::PathBuf,
) -> (r: std::path::PathBuf)
    ensures
        r == *path,
;

/// The JSON type of serde_json, which is carried and not looked into.
#[verifier::external_type_specification]
#[verifier::external_body]
pub struct ExJsonValue(serde_json::Value);

/// `serde_json::Value::clone` returns a value equal to its argument.
pub assume_specification[ <serde_json::Value as Clone>::clone ](
    value: &serde_json::Value,
) -> (r: serde_json::Value)
    ensures
        r == *value,
;

/// What kind of volume is this?
#[derive(Debug, Clone, Copy, PartialEq, Eq, Hash, Structural)]
pub enum VolumeType {
    /// Primary internal drive (SSD, NVMe).
    Primary,
    /// User data volume.
    UserData,
    /// Secondary drive (HDD, large storage).
    Secondary,
    /// Network volume (NAS, SMB, NFS).
    Network,
    /// Cloud volume (S3, B2, GCS).
    Cloud,
    /// External removable drive (USB, Thunderbolt).
    External,
    /// System volume (boot, recovery).
    System,
    /// Virtual or RAM volume.
    Virtual,
    /// Unknown or unmapped volume type.
    Unknown,
}

/// Unique fingerprint for a storage volume.
#[derive(Debug, Clone, PartialEq, Eq, Hash)]
pub struct VolumeFingerprint(pub String);

/// A storage volume: a mounted filesystem, a network share or a cloud bucket.
#[derive(Debug, Clone)]
pub struct Volume {
    pub id: Id,
    pub fingerprint: VolumeFingerprint,
    pub name: String,
    pub mount_path: std::path::PathBuf,
    pub total_capacity: u64,
    pub available_space: u64,
    pub volume_type: VolumeType,
    pub read_speed_mbps: Option<u64>,
    pub write_speed_mbps: Option<u64>,
}

/// The bytes that are used: none where more are reported free than there are.
pub open spec fn used_bytes(total: u64, available: u64) -> nat {
    if available <= total {
        (total - available) as nat
    } else {
        0
    }
}

/// The share of `total` that is used, in percent; 0 for a volume without capacity.
pub open spec fn utilization_pct(total: u64, available: u64) -> Binary64 {
    if total == 0 {
        decimal(0, 1)
    } else {
        product(
            quotient(decimal(used_bytes(total, available), 1), decimal(total as nat, 1)),
            decimal(100, 1),
        )
    }
}

/// The utilization of a volume is from 0 to 100 percent.
pub proof fn law_utilization_is_a_percentage(total: u64, available: u64)
    ensures
        is_amount(utilization_pct(total, available)),
        utilization_pct(total, available).is_finite(),
        at_most(utilization_pct(total, available), decimal(100, 1)),
{
    law_whole_numbers_are_exact(100);
    if total == 0 {
        law_whole_numbers_keep_order(0, 100);
        law_whole_numbers_are_exact(0);
    } else {
        let used = used_bytes(total, available);
        law_u64_is_finite(total);
        law_whole_numbers_keep_order(used, total as nat);
        law_quotient_is_share(decimal(used, 1), decimal(total as nat, 1));
        law_product_with_share(
            quotient(decimal(used, 1), decimal(total as nat, 1)),
            decimal(100, 1),
        );
    }
}

/// A volume with less free space is not less utilized.
pub proof fn law_less_free_is_more_utilized(total: u64, less: u64, more: u64)
    requires
        less <= more,
    ensures
        at_most(utilization_pct(total, more), utilization_pct(total, less)),
{
    law_whole_numbers_are_exact(100);
    law_whole_numbers_are_exact(0);
    if total > 0 {
        let whole = decimal(total as nat, 1);
        let a = decimal(used_bytes(total, more), 1);
        let b = decimal(used_bytes(total, less), 1);
        law_u64_is_finite(total);
        law_whole_numbers_keep_order(used_bytes(total, more), used_bytes(total, less));
        law_u64_is_finite(used_bytes(total, less) as u64);
        law_quotient_keeps_order(a, b, whole);
        law_whole_numbers_keep_order(used_bytes(total, less), total as nat);
        law_quotient_is_share(b, whole);
        law_product_keeps_order(quotient(a, whole), quotient(b, whole), decimal(100, 1));
    }
}

/// A volume with capacity and without free space is utilized to 100 percent.
pub proof fn law_full_is_a_hundred_percent(total: u64)
    requires
        total > 0,
    ensures
        utilization_pct(total, 0) == decimal(100, 1),
{
    let one = one_units();
    law_u64_is_finite(total);
    law_quotient_by_itself(decimal(total as nat, 1));
    law_whole_numbers_are_exact(1);
    law_whole_numbers_are_exact(100);
    vstd::arithmetic::power2::lemma_pow2_pos(1074);
    assert(((1 * one) * (100 * one)) * 1 == (100 * one) * one) by (nonlinear_arith);
    law_equal_ratios_round_alike((1 * one) * (100 * one), one, 100 * one, 1);
}

/// The utilization of a volume in percent.
pub fn utilization_of(total: u64, available: u64) -> (r: Binary64)
    ensures
        r == utilization_pct(total, available),
{
    if total == 0 {
        return Binary64::from_u64(0);
    }
    let used: u64 = total.saturating_sub(available);
    Binary64::from_u64(used).over(Binary64::from_u64(total)).times(Binary64::from_u64(100))
}

impl Volume {
    /// Utilization in percent.
    pub open spec fn utilization(&self) -> Binary64 {
        utilization_pct(self.total_capacity, self.available_space)
    }

    /// A volume of unknown type, without capacity and without measured speeds.
    pub fn new(
        id: Id,
        fingerprint: VolumeFingerprint,
        name: String,
        mount_path: std::path::PathBuf,
    ) -> (r: Volume)
        ensures
            r == (Volume {
                id,
                fingerprint,
                name,
                mount_path,
                total_capacity: 0,
                available_space: 0,
                volume_type: VolumeType::Unknown,
                read_speed_mbps: None,
                write_speed_mbps: None,
            }),
    {
        Volume {
            id,
            fingerprint,
            name,
            mount_path,
            total_capacity: 0,
            available_space: 0,
            volume_type: VolumeType::Unknown,
            read_speed_mbps: None,
            write_speed_mbps: None,
        }
    }

    /// Display name for the volume.
    pub fn display_name(&self) -> (r: &str)
        ensures
            r@ == self.name@,
    {
        self.name.as_str()
    }

    /// Utilization as a percentage, from 0 to 100.
    pub fn utilization_percentage(&self) -> (r: Binary64)
        ensures
            r == self.utilization(),
            is_amount(r),
            at_most(r, decimal(100, 1)),
    {
        proof {
            law_utilization_is_a_percentage(self.total_capacity, self.available_space);
        }
        utilization_of(self.total_capacity, self.available_space)
    }
}

/// Device form factor: helps classify the compute tier.
#[derive(Debug, Clone, Copy, PartialEq, Eq, Hash, Structural)]
pub enum DeviceFormFactor {
    Server,
    Desktop,
    Laptop,
    Mobile,
    Tablet,
    Other,
}

/// Operating system of the device.
#[derive(Debug, Clone, Copy, PartialEq, Eq, Hash, Structural)]
pub enum OperatingSystem {
    Linux,
    MacOS,
    Windows,
    IOS,
    Android,
    Unknown,
}

/// A node of the fleet: a NAS, a desktop, a laptop, a phone or a tablet.
#[derive(Debug, Clone)]
pub struct Device {
    pub id: Id,
    pub name: String,
    pub slug: String,
    pub os: OperatingSystem,
    pub os_version: Option<String>,
    pub hardware_model: Option<String>,
    pub cpu_model: Option<String>,
    pub cpu_architecture: Option<String>,
    pub cpu_cores_physical: Option<u64>,
    pub cpu_cores_logical: Option<u64>,
    pub cpu_frequency_mhz: Option<u64>,
    pub memory_total_bytes: Option<u64>,
    pub form_factor: Option<DeviceFormFactor>,
    pub manufacturer: Option<String>,
    pub gpu_models: Option<Vec<String>>,
    pub boot_disk_type: Option<String>,
    pub boot_disk_capacity_bytes: Option<u64>,
    pub swap_total_bytes: Option<u64>,
    pub network_addresses: Vec<String>,
    pub capabilities: serde_json::Value,
    pub is_online: bool,
    pub last_seen_at: Timestamp,
    pub sync_enabled: bool,
    pub created_at: Timestamp,
    pub updated_at: Timestamp,
    pub is_current: bool,
    pub is_paired: bool,
    pub is_connected: bool,
    pub connection_method: Option<String>,
}

} // verus!
