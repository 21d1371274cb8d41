//! The parts one by one: tiers, deadband, stripe, handoff, escalation, fleet manager.

use cocapn_fleet::binary64::Binary64;
use cocapn_fleet::deadband::{StorageDeadband, StorageDeadbandState, VolumeDeadbandConfig};
use cocapn_fleet::escalation::{EscalationAction, EscalationConfig, EscalationEngine};
use cocapn_fleet::fleet::{FleetConfig, FleetEvent, FleetManager};
use cocapn_fleet::handoff::{StorageHandoff, StorageHandoffState};
use cocapn_fleet::internal::cocapn_core::{
    Deadband, DeadbandDirection, DeadbandState, DeviceTier,
};
use cocapn_fleet::internal::sd_core::{
    Device, DeviceFormFactor, Id, OperatingSystem, Volume, VolumeFingerprint, VolumeType,
};
use cocapn_fleet::stripe::{StorageStripe, StorageStripeEvent};
use cocapn_fleet::tiering::{classify_node_tier, classify_volume_tier, StorageTier};
use cocapn_fleet::time::{Duration, Timestamp};
use std::path::PathBuf;
use std::sync::Arc;
use uuid::Uuid;

fn new_id() -> Id {
    Uuid::new_v4().as_u128()
}

fn number(x: f64) -> Binary64 {
    Binary64::from_bits(x.to_bits())
}

fn float(x: Binary64) -> f64 {
    f64::from_bits(x.to_bits())
}

fn now() -> Timestamp {
    let now = chrono::Utc::now();
    Timestamp { secs: now.timestamp(), nanos: now.timestamp_subsec_nanos() }
}

// Tiers

fn laptop_device() -> Device {
    Device {
        id: new_id(),
        name: "MacBook Pro".into(),
        slug: "macbook-pro".into(),
        os: OperatingSystem::MacOS,
        os_version: Some("14.5".into()),
        hardware_model: Some("MacBookPro18,3".into()),
        cpu_model: Some("Apple M3 Max".into()),
        cpu_architecture: Some("arm64".into()),
        cpu_cores_physical: Some(12),
        cpu_cores_logical: Some(12),
        cpu_frequency_mhz: None,
        memory_total_bytes: Some(36_000_000_000),
        form_factor: Some(DeviceFormFactor::Laptop),
        manufacturer: Some("Apple".into()),
        gpu_models: Some(vec!["Apple M3 Max (40-core)".into()]),
        boot_disk_type: Some("NVMe".into()),
        boot_disk_capacity_bytes: Some(1_000_000_000_000),
        swap_total_bytes: None,
        network_addresses: vec![],
        capabilities: serde_json::Value::Object(serde_json::Map::new()),
        is_online: true,
        last_seen_at: now(),
        sync_enabled: true,
        created_at: now(),
        updated_at: now(),
        is_current: true,
        is_paired: true,
        is_connected: true,
        connection_method: None,
    }
}

#[test]
fn laptop_is_cortex() {
    let dev = laptop_device();
    assert_eq!(classify_node_tier(&dev), DeviceTier::Cortex);
}

#[test]
fn volume_types_map_correctly() {
    assert_eq!(classify_volume_tier(VolumeType::Primary), StorageTier::Hot);
    assert_eq!(classify_volume_tier(VolumeType::Network), StorageTier::Bulk);
    assert_eq!(classify_volume_tier(VolumeType::Cloud), StorageTier::Archive);
    assert_eq!(classify_volume_tier(VolumeType::External), StorageTier::Offload);
}

#[test]
fn storage_tier_device_tier_roundtrip() {
    assert_eq!(DeviceTier::from(StorageTier::Hot), DeviceTier::Cortex);
    assert_eq!(DeviceTier::from(StorageTier::Archive), DeviceTier::Cloud);
}

// The deadband of a signal

#[test]
fn below_exceeded() {
    let db = Deadband::new(number(0.0), number(0.85), DeadbandDirection::Below);
    assert_eq!(db.check(number(0.05)), DeadbandState::Exceeded);
}

#[test]
fn below_normal() {
    let db = Deadband::new(number(0.0), number(0.85), DeadbandDirection::Below);
    assert_eq!(db.check(number(0.60)), DeadbandState::Normal);
}

#[test]
fn below_approaching() {
    let db = Deadband::new(number(0.0), number(0.85), DeadbandDirection::Below);
    assert_eq!(db.check(number(0.18)), DeadbandState::Approaching);
}

#[test]
fn above_exceeded() {
    let db = Deadband::new(number(50.0), number(10.0), DeadbandDirection::Above);
    assert_eq!(db.check(number(65.0)), DeadbandState::Exceeded);
}

#[test]
fn above_normal() {
    let db = Deadband::new(number(50.0), number(10.0), DeadbandDirection::Above);
    assert_eq!(db.check(number(45.0)), DeadbandState::Normal);
}

// The deadband of volumes

fn near_full_volume() -> Arc<Volume> {
    let mut vol = Volume::new(
        new_id(),
        VolumeFingerprint("test".into()),
        "NearFull".into(),
        PathBuf::from("/mnt/nearfull"),
    );
    vol.total_capacity = 1_000_000_000_000; // 1 TB
    vol.available_space = 50_000_000_000; // 50 GB free = 95% full
    vol.volume_type = VolumeType::Secondary;
    vol.read_speed_mbps = Some(100);
    vol.write_speed_mbps = Some(80);
    Arc::new(vol)
}

fn healthy_volume() -> Arc<Volume> {
    let mut vol = Volume::new(
        new_id(),
        VolumeFingerprint("healthy".into()),
        "Healthy".into(),
        PathBuf::from("/mnt/healthy"),
    );
    vol.total_capacity = 1_000_000_000_000;
    vol.available_space = 600_000_000_000; // 40% full
    vol.volume_type = VolumeType::Primary;
    vol.read_speed_mbps = Some(300);
    vol.write_speed_mbps = Some(250);
    Arc::new(vol)
}

#[test]
fn near_full_triggers_exceeded() {
    let mut db = StorageDeadband::new();
    let vols = vec![near_full_volume()];
    let results = db.check_all(&vols);
    assert_eq!(results.len(), 1);
    assert_eq!(results[0].deadband_state, DeadbandState::Exceeded);
}

#[test]
fn healthy_volume_stays_normal() {
    let mut db = StorageDeadband::new();
    let vols = vec![healthy_volume()];
    let results = db.check_all(&vols);
    assert_eq!(results.len(), 0); // nothing returned = all normal
}

// The stripe

fn stripe_with_volumes() -> (StorageStripe, Id, Id, Id) {
    let (hot, bulk, archive) = (new_id(), new_id(), new_id());
    let mut s = StorageStripe::new();
    s.add_volume(
        hot,
        "NVMe SSD".into(),
        StorageTier::Hot,
        500_000_000_000,
        1_000_000_000_000,
        vec![],
    );
    s.add_volume(
        bulk,
        "NAS".into(),
        StorageTier::Bulk,
        8_000_000_000_000,
        10_000_000_000_000,
        vec![],
    );
    s.add_volume(
        archive,
        "Backblaze B2".into(),
        StorageTier::Archive,
        50_000_000_000_000,
        100_000_000_000_000,
        vec![],
    );
    (s, hot, bulk, archive)
}

#[test]
fn fallback_path_bulk_to_archive() {
    let (s, _, bulk_id, archive_id) = stripe_with_volumes();
    let path = s.fallback_path_for(bulk_id);
    assert!(!path.is_empty());
    assert_eq!(path[0], archive_id);
}

#[test]
fn escalation_on_failure() {
    let (mut s, hot_id, _, _) = stripe_with_volumes();
    s.fail_volume(hot_id, "95% full".into());
    let events = s.check_escalations();
    assert!(!events.is_empty());
    match &events[0] {
        StorageStripeEvent::Escalated { from_tier, to_tier, .. } => {
            assert_eq!(*from_tier, StorageTier::Hot);
            assert_eq!(*to_tier, StorageTier::Bulk);
        }
        other => panic!("Expected Escalated event, got {:?}", other),
    }
}

// Handoffs

#[test]
fn handoff_lifecycle() {
    let from = new_id();
    let to = new_id();
    let mut h = StorageHandoff::new(from, to, 1024 * 1024 * 100, Duration::from_secs(10));

    assert_eq!(h.state, StorageHandoffState::Stable);
    h.begin().unwrap();
    assert_eq!(h.state, StorageHandoffState::Draining);

    let p = float(h.progress(Duration::from_secs(3), 10_000_000));
    assert!(p < 0.33, "progress should be {p} < 0.33 for Draining");
    assert_eq!(h.state, StorageHandoffState::Draining);

    let p = float(h.progress(Duration::from_secs(2), 30_000_000));
    assert!(p >= 0.33 && p < 0.66, "progress should be {p} in [0.33, 0.66) for Migrating");
    assert_eq!(h.state, StorageHandoffState::Migrating);

    let p = float(h.progress(Duration::from_secs(6), 60_000_000));
    assert_eq!(p, 1.0, "progress should be 100%");
    assert_eq!(h.state, StorageHandoffState::Complete);
    assert!(h.is_complete());
}

#[test]
fn cancel_during_handoff() {
    let from = new_id();
    let to = new_id();
    let mut h = StorageHandoff::new(from, to, 1000, Duration::from_secs(10));

    h.begin().unwrap();
    h.progress(Duration::from_secs(3), 200);
    h.cancel().unwrap();

    assert_eq!(h.state, StorageHandoffState::Cancelled);
    assert_eq!(h.migrated_bytes, 0);
}

#[test]
fn byte_progress_tracking() {
    let from = new_id();
    let to = new_id();
    let h = StorageHandoff::new(from, to, 1000, Duration::from_secs(10));
    assert_eq!(float(h.byte_progress()), 0.0, "no bytes migrated yet");
}

#[test]
fn byte_progress_actual() {
    let from = new_id();
    let to = new_id();
    let mut h = StorageHandoff::new(from, to, 1000, Duration::from_secs(10));

    h.begin().unwrap();
    h.progress(Duration::from_secs(0), 500);
    assert!((float(h.byte_progress()) - 0.5).abs() < 0.01);
    h.progress(Duration::from_secs(0), 500);
    assert!((float(h.byte_progress()) - 1.0).abs() < 0.01);
}

// Escalation

#[test]
fn escalation_engine_triggers_migration() {
    let mut engine = EscalationEngine::new(EscalationConfig {
        auto_migrate: true,
        cooldown: Duration::from_secs(0),
        ..Default::default()
    });

    let full_id = new_id();
    let archive_id = new_id();

    let mut stripe = StorageStripe::new();
    stripe.add_volume(
        full_id,
        "NVMe".into(),
        StorageTier::Hot,
        30_000_000_000,
        1_000_000_000_000,
        vec![],
    );
    stripe.add_volume(
        archive_id,
        "S3 Cloud".into(),
        StorageTier::Archive,
        500_000_000_000_000,
        1_000_000_000_000_000,
        vec![],
    );

    let mut deadband = StorageDeadband::new();
    deadband.set_config(
        full_id,
        VolumeDeadbandConfig {
            util_threshold: number(0.90),
            util_warn_at: number(0.80),
            ..Default::default()
        },
    );

    let deadband_states = vec![StorageDeadbandState {
        volume_id: full_id,
        volume_name: "NVMe".into(),
        volume_type: VolumeType::Primary,
        utilization_pct: number(97.0),
        deadband_state: DeadbandState::Exceeded,
        threshold_pct: number(90.0),
        speed_ok: true,
    }];

    let actions = engine.process_deadband(&deadband_states, &mut stripe);
    assert!(!actions.is_empty());

    let has_migrate = actions.iter().any(|a| matches!(a, EscalationAction::Migrate { .. }));
    assert!(has_migrate, "Expected at least one Migrate action");
}

// The fleet manager

fn make_vol(name: &str, total: u64, free: u64, vtype: VolumeType, id: Id) -> Arc<Volume> {
    let mut vol = Volume::new(
        id,
        VolumeFingerprint(Uuid::from_u128(id).to_string()),
        name.into(),
        PathBuf::from("/mnt"),
    );
    vol.total_capacity = total;
    vol.available_space = free;
    vol.volume_type = vtype;
    vol.read_speed_mbps = Some(100);
    vol.write_speed_mbps = Some(80);
    Arc::new(vol)
}

#[test]
fn health_check_reports_correctly() {
    let mut fm = FleetManager::new(FleetConfig::default());

    let hot_id = new_id();
    let bulk_id = new_id();

    fm.register_volume(make_vol(
        "NVMe",
        1_000_000_000_000,
        800_000_000_000,
        VolumeType::Primary,
        hot_id,
    ));
    fm.register_volume(make_vol(
        "NAS",
        10_000_000_000_000,
        1_000_000_000_000,
        VolumeType::Network,
        bulk_id,
    ));

    let events = fm.check_health();

    let health = events.iter().find(|e| matches!(e, FleetEvent::HealthCheck { .. }));
    assert!(health.is_some(), "Expected a HealthCheck event");

    if let Some(FleetEvent::HealthCheck { total_volumes, healthy, .. }) = health {
        assert_eq!(*total_volumes, 2);
        assert_eq!(*healthy, 1);
    }

    let has_exceeded = events.iter().any(|e| matches!(e, FleetEvent::DeadbandExceeded { .. }));
    assert!(
        has_exceeded,
        "NAS at 90% should trigger DeadbandExceeded with Bulk threshold of 90%"
    );
}
