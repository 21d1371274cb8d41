//! Edge cases, texts and properties on concrete values.

use cocapn_fleet::binary64::Binary64;
use cocapn_fleet::deadband::{StorageDeadband, StorageDeadbandState, VolumeDeadbandConfig};
use cocapn_fleet::escalation::{EscalationAction, EscalationConfig, EscalationEngine};
use cocapn_fleet::fleet::{FleetConfig, FleetEvent, FleetManager};
use cocapn_fleet::handoff::{StorageHandoff, StorageHandoffState};
use cocapn_fleet::internal::cocapn_core::{
    Deadband, DeadbandDirection, DeadbandState, DeviceTier,
};
use cocapn_fleet::internal::sd_core::{
    Device, DeviceFormFactor, Id, OperatingSystem, Volume, VolumeFingerprint, VolumeType,
};
use cocapn_fleet::stripe::{StorageStripe, StorageStripeEvent};
use cocapn_fleet::tiering::{classify_node_tier, classify_volume_tier, StorageTier};
use cocapn_fleet::time::{Duration, Timestamp};
use std::path::PathBuf;
use std::sync::Arc;

fn number(x: f64) -> Binary64 {
    Binary64::from_bits(x.to_bits())
}

fn float(x: Binary64) -> f64 {
    f64::from_bits(x.to_bits())
}

fn at(secs: i64, nanos: u32) -> Timestamp {
    Timestamp { secs, nanos }
}

fn volume(id: Id, name: &str, total: u64, free: u64, volume_type: VolumeType) -> Volume {
    let mut vol =
        Volume::new(id, VolumeFingerprint(name.into()), name.into(), PathBuf::from("/mnt/vol"));
    vol.total_capacity = total;
    vol.available_space = free;
    vol.volume_type = volume_type;
    vol.read_speed_mbps = Some(100);
    vol.write_speed_mbps = Some(80);
    vol
}

fn exceeded(id: Id) -> StorageDeadbandState {
    StorageDeadbandState {
        volume_id: id,
        volume_name: "full".into(),
        volume_type: VolumeType::Primary,
        utilization_pct: number(99.0),
        deadband_state: DeadbandState::Exceeded,
        threshold_pct: number(80.0),
        speed_ok: true,
    }
}

fn migrations(actions: &[EscalationAction]) -> Vec<(Id, Id, u64)> {
    let mut all = Vec::new();
    for action in actions {
        if let EscalationAction::Migrate { from_volume, to_volume, total_bytes, .. } = action {
            all.push((*from_volume, *to_volume, *total_bytes));
        }
    }
    all
}

// Volumes and devices

#[test]
fn utilization_is_a_percentage() {
    for (total, free) in [(0, 0), (1, 0), (1, 1), (3, 1), (1000, 999), (u64::MAX, 1), (u64::MAX, 0)]
    {
        let pct = float(volume(1, "v", total, free, VolumeType::Primary).utilization_percentage());
        assert!((0.0..=100.0).contains(&pct), "{total} {free}: {pct}");
        let theirs =
            if total == 0 { 0.0 } else { (total - free) as f64 / total as f64 * 100.0 };
        assert_eq!(pct, theirs);
    }
    let mut empty = volume(1, "v", 0, 7, VolumeType::Primary);
    assert_eq!(float(empty.utilization_percentage()), 0.0);
    empty.total_capacity = 8;
    assert_eq!(float(empty.utilization_percentage()), 12.5);
    for (total, free) in [(100, 150), (1, u64::MAX), (0, u64::MAX)] {
        let odd = volume(1, "v", total, free, VolumeType::Primary);
        assert_eq!(float(odd.utilization_percentage()), 0.0);
    }
}

#[test]
fn new_volumes_are_empty() {
    let vol = Volume::new(7, VolumeFingerprint("f".into()), "Name".into(), PathBuf::from("/m"));
    assert_eq!(vol.id, 7);
    assert_eq!(vol.display_name(), "Name");
    assert_eq!(vol.mount_path, PathBuf::from("/m"));
    assert_eq!((vol.total_capacity, vol.available_space), (0, 0));
    assert_eq!(vol.volume_type, VolumeType::Unknown);
    assert_eq!((vol.read_speed_mbps, vol.write_speed_mbps), (None, None));
}

#[test]
fn clones_are_equal() {
    let vol = volume(7, "Name", 10, 5, VolumeType::Cloud);
    let copy = vol.clone();
    assert_eq!(copy.mount_path, PathBuf::from("/mnt/vol"));
    assert_eq!(copy.name, vol.name);
    let dev = device(Some(DeviceFormFactor::Other), Some(4), Some(2_000_000_000));
    assert_eq!(dev.clone().capabilities, serde_json::Value::String("gpu".into()));
}

fn device(form: Option<DeviceFormFactor>, cores: Option<u64>, memory: Option<u64>) -> Device {
    Device {
        id: 1,
        name: "d".into(),
        slug: "d".into(),
        os: OperatingSystem::Linux,
        os_version: None,
        hardware_model: None,
        cpu_model: None,
        cpu_architecture: None,
        cpu_cores_physical: None,
        cpu_cores_logical: cores,
        cpu_frequency_mhz: None,
        memory_total_bytes: memory,
        form_factor: form,
        manufacturer: None,
        gpu_models: None,
        boot_disk_type: None,
        boot_disk_capacity_bytes: None,
        swap_total_bytes: None,
        network_addresses: vec![],
        capabilities: serde_json::Value::String("gpu".into()),
        is_online: true,
        last_seen_at: at(0, 0),
        sync_enabled: true,
        created_at: at(0, 0),
        updated_at: at(0, 0),
        is_current: true,
        is_paired: true,
        is_connected: true,
        connection_method: None,
    }
}

#[test]
fn hardware_decides_without_a_form_factor() {
    let tier = |cores, memory| classify_node_tier(&device(None, cores, memory));
    assert_eq!(tier(Some(8), Some(8_000_000_000)), DeviceTier::Cortex);
    assert_eq!(tier(Some(8), Some(7_999_999_999)), DeviceTier::Backbone);
    assert_eq!(tier(Some(7), Some(64_000_000_000)), DeviceTier::Backbone);
    assert_eq!(tier(Some(2), Some(1_000_000_000)), DeviceTier::Backbone);
    assert_eq!(tier(Some(2), Some(999_999_999)), DeviceTier::Reflex);
    assert_eq!(tier(Some(1), Some(64_000_000_000)), DeviceTier::Reflex);
    assert_eq!(tier(None, Some(64_000_000_000)), DeviceTier::Reflex);
    assert_eq!(tier(Some(64), None), DeviceTier::Reflex);
    for memory in [999_999_999u64, 1_000_000_000, 7_999_999_999, 8_000_000_000, u64::MAX] {
        let gigabytes = memory as f64 / 1_000_000_000.0;
        assert_eq!(memory >= 8_000_000_000, gigabytes >= 8.0);
        assert_eq!(memory >= 1_000_000_000, gigabytes >= 1.0);
    }
}

#[test]
fn form_factor_comes_before_hardware() {
    let tier = |form| classify_node_tier(&device(Some(form), Some(64), Some(u64::MAX)));
    assert_eq!(tier(DeviceFormFactor::Server), DeviceTier::Backbone);
    assert_eq!(tier(DeviceFormFactor::Desktop), DeviceTier::Cortex);
    assert_eq!(tier(DeviceFormFactor::Laptop), DeviceTier::Cortex);
    assert_eq!(tier(DeviceFormFactor::Mobile), DeviceTier::Reflex);
    assert_eq!(tier(DeviceFormFactor::Tablet), DeviceTier::Reflex);
    assert_eq!(tier(DeviceFormFactor::Other), DeviceTier::Cortex);
}

#[test]
fn every_volume_type_has_a_tier() {
    assert_eq!(classify_volume_tier(VolumeType::UserData), StorageTier::Hot);
    assert_eq!(classify_volume_tier(VolumeType::System), StorageTier::Hot);
    assert_eq!(classify_volume_tier(VolumeType::Secondary), StorageTier::Bulk);
    assert_eq!(classify_volume_tier(VolumeType::Virtual), StorageTier::Bulk);
    assert_eq!(classify_volume_tier(VolumeType::Unknown), StorageTier::Bulk);
}

#[test]
fn tiers_have_names() {
    assert_eq!(StorageTier::Hot.display_name(), "Hot (working set)");
    assert_eq!(StorageTier::Bulk.display_name(), "Bulk (NAS / secondary)");
    assert_eq!(StorageTier::Archive.display_name(), "Archive (cloud)");
    assert_eq!(StorageTier::Offload.display_name(), "Offload (external)");
    assert_eq!(DeviceTier::Backbone.display_name(), "Backbone (always-on / NAS)");
    assert_eq!(DeviceTier::Cortex.display_name(), "Cortex (fast compute / desktop)");
    assert_eq!(DeviceTier::Cloud.display_name(), "Cloud (API-driven storage)");
    assert_eq!(DeviceTier::Reflex.display_name(), "Reflex (intermittent / edge)");
    assert_eq!(DeviceTier::Backbone.name(), "Backbone");
    assert_eq!(DeviceTier::Cortex.name(), "Cortex");
    assert_eq!(DeviceTier::Cloud.name(), "Cloud");
    assert_eq!(DeviceTier::Reflex.name(), "Reflex");
    assert_eq!(DeadbandState::Normal.name(), "Normal");
    assert_eq!(DeadbandState::Approaching.name(), "Approaching");
    assert_eq!(DeadbandState::Exceeded.name(), "Exceeded");
    assert!(StorageTier::Hot < StorageTier::Bulk && StorageTier::Archive < StorageTier::Offload);
}

#[test]
fn storage_and_device_tiers_correspond_one_to_one() {
    assert_eq!(DeviceTier::from(StorageTier::Bulk), DeviceTier::Backbone);
    assert_eq!(DeviceTier::from(StorageTier::Offload), DeviceTier::Reflex);
}

// The deadband of a signal

#[test]
fn deadband_around_a_center() {
    let below = Deadband::new(number(50.0), number(10.0), DeadbandDirection::Below);
    assert_eq!(below.check(number(40.0)), DeadbandState::Exceeded);
    assert_eq!(below.check(number(45.0)), DeadbandState::Approaching);
    assert_eq!(below.check(number(45.1)), DeadbandState::Normal);
    assert_eq!(below.check(number(90.0)), DeadbandState::Normal);
    let above = Deadband::new(number(50.0), number(10.0), DeadbandDirection::Above);
    assert_eq!(above.check(number(60.0)), DeadbandState::Exceeded);
    assert_eq!(above.check(number(55.0)), DeadbandState::Approaching);
    assert_eq!(above.check(number(54.9)), DeadbandState::Normal);
    let either = Deadband::new(number(50.0), number(10.0), DeadbandDirection::Either);
    assert_eq!(either.check(number(40.0)), DeadbandState::Exceeded);
    assert_eq!(either.check(number(60.0)), DeadbandState::Exceeded);
    assert_eq!(either.check(number(45.0)), DeadbandState::Approaching);
    assert_eq!(either.check(number(55.0)), DeadbandState::Approaching);
    assert_eq!(either.check(number(50.0)), DeadbandState::Normal);
    assert_eq!(either.check(number(f64::NAN)), DeadbandState::Normal);
}

#[test]
fn small_tolerances_are_around_the_center() {
    let low = Deadband::new(number(0.0), number(0.5), DeadbandDirection::Below);
    assert_eq!(low.check(number(0.01)), DeadbandState::Normal);
    assert_eq!(low.check(number(-0.5)), DeadbandState::Exceeded);
    let high = Deadband::new(number(0.0), number(0.75), DeadbandDirection::Below);
    assert_eq!(high.check(number(0.25)), DeadbandState::Exceeded);
    assert_eq!(high.check(number(0.375)), DeadbandState::Approaching);
    assert_eq!(high.check(number(0.38)), DeadbandState::Normal);
}

#[test]
fn less_free_space_is_never_milder() {
    let db = Deadband::new(number(0.0), number(0.85), DeadbandDirection::Below);
    let mut worst = DeadbandState::Exceeded;
    for i in 0..=1000 {
        let state = db.check(number(i as f64 / 1000.0));
        assert!(state as u8 <= worst as u8, "at {i}");
        worst = state;
    }
    assert_eq!(worst, DeadbandState::Normal);
}

// The deadband of volumes

#[test]
fn fuller_volumes_are_never_milder() {
    let mut db = StorageDeadband::new();
    let mut last = 0;
    for used in 0..=100u64 {
        let found = db.check_all(&[Arc::new(volume(1, "v", 100, 100 - used, VolumeType::Network))]);
        let severity = found.first().map_or(0, |s| s.deadband_state as u8);
        assert!(severity >= last, "at {used}%");
        last = severity;
    }
    assert_eq!(last, DeadbandState::Exceeded as u8);
}

#[test]
fn slow_volumes_are_one_step_worse() {
    let mut db = StorageDeadband::new();
    for (free, fast, slow) in [
        (90, None, Some(DeadbandState::Approaching)),
        (25, Some(DeadbandState::Approaching), Some(DeadbandState::Exceeded)),
        (5, Some(DeadbandState::Exceeded), Some(DeadbandState::Exceeded)),
    ] {
        let mut vol = volume(1, "v", 100, free, VolumeType::Primary);
        let found = db.check_all(&[Arc::new(vol.clone())]);
        assert_eq!(found.first().map(|s| s.deadband_state), fast, "{free} free");
        vol.write_speed_mbps = Some(9);
        let found = db.check_all(&[Arc::new(vol)]);
        assert_eq!(found.first().map(|s| s.deadband_state), slow, "{free} free, slow");
        assert!(!found[0].speed_ok);
    }
}

#[test]
fn unmeasured_or_unmonitored_speed_is_fine() {
    let mut db = StorageDeadband::new();
    let mut vol = volume(1, "v", 100, 90, VolumeType::Primary);
    vol.read_speed_mbps = None;
    vol.write_speed_mbps = None;
    assert!(db.check_all(&[Arc::new(vol.clone())]).is_empty());
    vol.volume_type = VolumeType::External;
    vol.read_speed_mbps = Some(0);
    assert!(db.check_all(&[Arc::new(vol)]).is_empty());
}

#[test]
fn alarms_come_in_order_with_their_numbers() {
    let mut db = StorageDeadband::new();
    let found = db.check_all(&[
        Arc::new(volume(1, "full", 1000, 50, VolumeType::Secondary)),
        Arc::new(volume(2, "fine", 1000, 600, VolumeType::Primary)),
        Arc::new(volume(3, "near", 1000, 250, VolumeType::Primary)),
    ]);
    assert_eq!(found.iter().map(|s| s.volume_id).collect::<Vec<Id>>(), vec![1, 3]);
    assert_eq!(found[0].deadband_state, DeadbandState::Exceeded);
    assert_eq!(found[1].deadband_state, DeadbandState::Approaching);
    assert_eq!(float(found[0].utilization_pct), 950.0 / 1000.0 * 100.0 / 100.0 * 100.0);
    assert_eq!(float(found[1].threshold_pct), 0.80 * 100.0);
    assert_eq!(found[0].volume_type, VolumeType::Secondary);
}

#[test]
fn own_configuration_comes_before_that_of_the_tier() {
    let mut db = StorageDeadband::new();
    let vol = Arc::new(volume(1, "v", 100, 30, VolumeType::Network));
    assert!(db.check_all(&[vol.clone()]).is_empty());
    db.set_config(
        1,
        VolumeDeadbandConfig { util_threshold: number(0.6), ..VolumeDeadbandConfig::default() },
    );
    let found = db.check_all(&[vol]);
    assert_eq!(found[0].deadband_state, DeadbandState::Exceeded);
}

#[test]
fn messages_say_what_was_found() {
    let mut state = exceeded(1);
    assert_eq!(
        state.message("99.0", "80"),
        "Volume 'full' is 99.0% full \u{2014} EXCEEDED threshold (80%). Speed ok: true"
    );
    state.deadband_state = DeadbandState::Approaching;
    state.speed_ok = false;
    assert_eq!(
        state.message("72.5", "80"),
        "Volume 'full' is 72.5% full \u{2014} approaching threshold (80%). Speed ok: false"
    );
}

#[test]
fn only_exceeded_volumes_fire() {
    let mut db = StorageDeadband::default();
    db.check_all(&[Arc::new(volume(1, "v", 100, 90, VolumeType::Primary))]);
    assert!(!db.has_fired());
    let near = Arc::new(volume(1, "v", 100, 25, VolumeType::Primary));
    assert_eq!(db.check_all(&[near.clone()])[0].deadband_state, DeadbandState::Approaching);
    assert!(!db.has_fired());
    let full = Arc::new(volume(2, "v", 100, 5, VolumeType::Primary));
    db.check_all(&[full, near]);
    assert!(db.has_fired());
    db.check_all(&[]);
    db.set_config(1, VolumeDeadbandConfig::default());
    assert!(db.has_fired());
    db.reset_fired();
    assert!(!db.has_fired());
}

#[test]
fn any_fraction_is_a_threshold() {
    for percent in 0..=100u64 {
        let mut db = StorageDeadband::new();
        let util_threshold = number(percent as f64 / 100.0);
        db.set_config(1, VolumeDeadbandConfig { util_threshold, ..Default::default() });
        for used in 0..=100u64 {
            let vol = volume(1, "v", 100, 100 - used, VolumeType::Network);
            let pct = used as f64 / 100.0 * 100.0 / 100.0;
            let free = 1.0 - pct;
            let trip = 1.0 - percent as f64 / 100.0;
            let expected = if free <= trip {
                Some(DeadbandState::Exceeded)
            } else if free <= trip * 1.5 {
                Some(DeadbandState::Approaching)
            } else {
                None
            };
            let found = db.check_all(&[Arc::new(vol)]).first().map(|s| s.deadband_state);
            assert_eq!(found, expected, "{used}% used, threshold {percent}%");
            if used == 100 {
                assert_eq!(found, Some(DeadbandState::Exceeded));
            }
        }
    }
}

// The stripe

fn stripe(volumes: &[(Id, StorageTier, u64)]) -> StorageStripe {
    let mut s = StorageStripe::new();
    for (id, tier, free) in volumes {
        s.add_volume(*id, format!("v{id}"), *tier, *free, 1000, vec![]);
    }
    s
}

#[test]
fn fallback_goes_tier_by_tier_and_by_free_space() {
    let mut s = stripe(&[
        (1, StorageTier::Hot, 10),
        (2, StorageTier::Archive, 500),
        (3, StorageTier::Bulk, 100),
        (4, StorageTier::Bulk, 300),
        (5, StorageTier::Archive, 700),
        (6, StorageTier::Hot, 900),
        (7, StorageTier::Offload, 1000),
        (8, StorageTier::Bulk, 200),
    ]);
    assert_eq!(s.fallback_path_for(1), vec![4, 8, 3, 5, 2]);
    assert_eq!(s.fallback_path_for(3), vec![5, 2]);
    assert_eq!(s.fallback_path_for(2), Vec::<Id>::new());
    assert_eq!(s.fallback_path_for(7), Vec::<Id>::new());
    s.fail_volume(4, "gone".into());
    assert_eq!(s.fallback_path_for(1), vec![8, 3, 5, 2]);
    assert_eq!(s.fallback_path_for(4), vec![5, 2]);
}

#[test]
fn equal_free_space_keeps_the_order_of_the_walk() {
    let s = stripe(&[
        (1, StorageTier::Hot, 10),
        (2, StorageTier::Bulk, 50),
        (3, StorageTier::Bulk, 50),
        (4, StorageTier::Bulk, 60),
    ]);
    assert_eq!(s.fallback_path_along(&[1, 2, 3, 4], 1), vec![4, 2, 3]);
    assert_eq!(s.fallback_path_along(&[4, 3, 2, 1], 1), vec![4, 3, 2]);
}

#[test]
fn walks_visit_every_volume_once() {
    let s = stripe(&[
        (1, StorageTier::Hot, 10),
        (2, StorageTier::Bulk, 50),
        (9, StorageTier::Archive, 5),
    ]);
    let mut walk = s.walk();
    walk.sort();
    assert_eq!(walk, vec![1, 2, 9]);
}

#[test]
fn bulk_takes_over_before_archive() {
    let mut s = stripe(&[
        (1, StorageTier::Hot, 10),
        (2, StorageTier::Archive, 900),
        (3, StorageTier::Bulk, 5),
        (4, StorageTier::Offload, 10),
    ]);
    s.fail_volume(1, "full".into());
    s.fail_volume(4, "unplugged".into());
    let events = s.check_escalations_along(&[4, 3, 2, 1]);
    assert_eq!(events.len(), 2);
    assert!(matches!(
        events[0],
        StorageStripeEvent::Escalated {
            from_tier: StorageTier::Offload,
            to_tier: StorageTier::Bulk,
            volume_id: 3
        }
    ));
    assert!(matches!(
        events[1],
        StorageStripeEvent::Escalated {
            from_tier: StorageTier::Hot,
            to_tier: StorageTier::Bulk,
            volume_id: 3
        }
    ));
}

#[test]
fn named_targets_are_the_only_ones() {
    let mut s = StorageStripe::new();
    s.add_volume(1, "a".into(), StorageTier::Hot, 1, 10, vec![8, 2, 3]);
    s.add_volume(2, "b".into(), StorageTier::Archive, 1, 10, vec![]);
    s.add_volume(3, "c".into(), StorageTier::Hot, 1, 10, vec![]);
    s.add_volume(4, "d".into(), StorageTier::Bulk, 1, 10, vec![]);
    s.fail_volume(1, "full".into());
    let target = |s: &StorageStripe| match s.check_escalations_along(&[1]).first() {
        Some(StorageStripeEvent::Escalated { volume_id, .. }) => Some(*volume_id),
        _ => None,
    };
    assert_eq!(target(&s), Some(2));
    s.fail_volume(2, "gone".into());
    assert_eq!(target(&s), Some(3));
    s.fail_volume(3, "gone".into());
    assert_eq!(target(&s), None);
}

#[test]
fn archive_volumes_have_no_successor() {
    let mut s = stripe(&[(1, StorageTier::Archive, 10), (2, StorageTier::Archive, 20)]);
    s.fail_volume(1, "gone".into());
    assert!(s.check_escalations().is_empty());
}

#[test]
fn failing_and_adding_report_what_they_did() {
    let mut s = StorageStripe::new();
    let added = s.add_volume(1, "a".into(), StorageTier::Bulk, 5, 10, vec![]);
    assert!(matches!(added, StorageStripeEvent::VolumeAdded(1, StorageTier::Bulk)));
    match s.fail_volume(1, "95% full".into()) {
        Some(StorageStripeEvent::VolumeFailed { volume_id, reason }) => {
            assert_eq!((volume_id, reason.as_str()), (1, "95% full"));
        }
        other => panic!("unexpected {other:?}"),
    }
    assert!(s.fail_volume(1, "again".into()).is_some());
    assert!(s.healthy_volumes_in_tier(StorageTier::Bulk).is_empty());
    assert_eq!(s.tier_for_volume(1), Some(StorageTier::Bulk));
    s.add_volume(1, "b".into(), StorageTier::Bulk, 7, 10, vec![]);
    let healthy = s.healthy_volumes_in_tier(StorageTier::Bulk);
    assert_eq!(healthy.len(), 1);
    assert_eq!((healthy[0].volume_name.as_str(), healthy[0].free_bytes), ("b", 7));
}

// Handoffs

#[test]
fn begin_says_why_it_cannot() {
    let mut h = StorageHandoff::new(1, 2, 1000, Duration::from_secs(10));
    h.begin().unwrap();
    assert_eq!(h.begin().unwrap_err(), "Cannot begin handoff from state Draining");
    h.progress(Duration::from_secs(5), 0);
    assert_eq!(h.begin().unwrap_err(), "Cannot begin handoff from state Migrating");
    h.progress(Duration::from_secs(3), 0);
    assert_eq!(h.begin().unwrap_err(), "Cannot begin handoff from state Settling");
    h.progress(Duration::from_secs(3), 0);
    assert_eq!(h.begin().unwrap_err(), "Cannot begin handoff from state Complete");
    assert_eq!(h.cancel().unwrap_err(), "Cannot cancel a completed handoff");
    let mut h = StorageHandoff::new(1, 2, 1000, Duration::from_secs(10));
    h.cancel().unwrap();
    assert_eq!(h.begin().unwrap_err(), "Cannot begin handoff from state Cancelled");
}

#[test]
fn cancelled_handoffs_serve_from_the_source() {
    let mut h = StorageHandoff::new(1, 2, 1000, Duration::from_secs(10));
    h.begin().unwrap();
    for secs in [3, 2, 3] {
        h.progress(Duration::from_secs(secs), 200);
        let mut cancelled = h.clone();
        cancelled.cancel().unwrap();
        assert_eq!(cancelled.state, StorageHandoffState::Cancelled);
        assert!(cancelled.active_on_source());
        assert!(!cancelled.active_on_destination());
        assert!(h.active_on_source() || h.active_on_destination());
    }
    h.progress(Duration::from_secs(3), 200);
    assert!(h.is_complete() && !h.active_on_source() && !h.active_on_destination());
}

#[test]
fn progress_is_that_of_the_machine() {
    let mut h = StorageHandoff::new(1, 2, 1000, Duration { secs: 7, nanos: 300_000_000 });
    h.begin().unwrap();
    let mut weight: f64 = 0.0;
    for _ in 0..9 {
        let share = (0.9f64 / 7.3).clamp(0.0, 1.0);
        weight = (weight + share).min(1.0);
        let ours = float(h.progress(Duration { secs: 0, nanos: 900_000_000 }, 1));
        assert_eq!(ours.to_bits(), weight.to_bits());
        let expected = if weight < 0.33 {
            StorageHandoffState::Draining
        } else if weight < 0.66 {
            StorageHandoffState::Migrating
        } else if weight < 1.0 {
            StorageHandoffState::Settling
        } else {
            StorageHandoffState::Complete
        };
        assert_eq!(h.state, expected);
    }
    assert!(h.is_complete());
    assert_eq!(h.migrated_bytes, 9);
}

#[test]
fn short_transitions_take_a_millisecond() {
    let mut h = StorageHandoff::new(1, 2, 1000, Duration::from_secs(0));
    h.begin().unwrap();
    let half = float(h.progress(Duration { secs: 0, nanos: 500_000 }, 0));
    assert_eq!(half, 0.0005 / 0.001);
    h.progress(Duration { secs: 0, nanos: 1_000_000 }, 0);
    assert!(h.is_complete());
}

#[test]
fn a_step_of_the_whole_transition_completes() {
    for secs in [1, 10, 300, 1 << 53, (1 << 53) + 1] {
        let mut h = StorageHandoff::new(1, 2, 1000, Duration { secs, nanos: 999_999_999 });
        h.begin().unwrap();
        h.progress(Duration { secs, nanos: 999_999_999 }, 0);
        assert_eq!(h.state, StorageHandoffState::Complete);
        assert_eq!(float(h.progress(Duration::from_secs(1), 0)), 1.0);
        assert!(h.is_complete());
    }
}

#[test]
fn bytes_saturate_and_clamp() {
    let mut h = StorageHandoff::new(1, 2, 1000, Duration::from_secs(10));
    h.begin().unwrap();
    h.progress(Duration::from_secs(0), 250);
    assert_eq!(float(h.byte_progress()), 0.25);
    h.progress(Duration::from_secs(0), u64::MAX);
    assert_eq!(h.migrated_bytes, u64::MAX);
    assert_eq!(float(h.byte_progress()), 1.0);
}

// Escalation

fn full_stripe() -> StorageStripe {
    stripe(&[(1, StorageTier::Hot, 10), (2, StorageTier::Bulk, 1000)])
}

#[test]
fn targets_absorb_what_the_threshold_leaves() {
    let mut engine = EscalationEngine::new(EscalationConfig::default());
    let mut s = full_stripe();
    let actions = engine.process_deadband_at(at(0, 0), &[1, 2], &[exceeded(1)], &mut s);
    assert_eq!(migrations(&actions), vec![(1, 2, (1000.0 * (1.0 - 85.0 / 100.0)) as u64)]);
    assert!(s.healthy_volumes_in_tier(StorageTier::Hot).is_empty());
    assert!(matches!(
        actions[0],
        EscalationAction::Migrate { from_tier: StorageTier::Hot, to_tier: StorageTier::Bulk, .. }
    ));
}

#[test]
fn targets_without_room_take_nothing() {
    let mut engine = EscalationEngine::new(EscalationConfig {
        target_max_util_pct: number(100.0),
        ..EscalationConfig::default()
    });
    let mut s = full_stripe();
    let actions = engine.process_deadband_at(at(0, 0), &[1, 2], &[exceeded(1)], &mut s);
    assert!(matches!(actions[..], [EscalationAction::NoOp]));
}

fn target_with(free: u64, total: u64) -> StorageStripe {
    let mut s = StorageStripe::new();
    s.add_volume(1, "N".into(), StorageTier::Hot, 10, 1000, vec![]);
    s.add_volume(2, "B2".into(), StorageTier::Archive, free, total, vec![]);
    s
}

#[test]
fn full_targets_take_nothing() {
    for (free, moves) in [(100_000, false), (150_000, false), (150_001, true), (900_000, true)] {
        let mut engine = EscalationEngine::new(EscalationConfig::default());
        let mut s = target_with(free, 1_000_000);
        let actions = engine.process_deadband_at(at(0, 0), &[1, 2], &[exceeded(1)], &mut s);
        assert_eq!(!migrations(&actions).is_empty(), moves, "{free} free");
        if !moves {
            assert!(matches!(actions[..], [EscalationAction::NoOp]));
        }
    }
}

#[test]
fn only_the_volume_at_hand_is_migrated() {
    let mut engine = EscalationEngine::new(EscalationConfig {
        cooldown: Duration::from_secs(0),
        ..EscalationConfig::default()
    });
    let mut s = StorageStripe::new();
    s.add_volume(1, "H".into(), StorageTier::Hot, 100, 1000, vec![]);
    s.add_volume(2, "B".into(), StorageTier::Bulk, 100, 1000, vec![]);
    s.add_volume(3, "A".into(), StorageTier::Archive, 900_000, 1_000_000, vec![]);
    s.fail_volume(1, "x".into());
    let actions = engine.process_deadband(&[exceeded(2)], &mut s);
    assert_eq!(actions.len(), 1);
    assert!(matches!(
        actions[0],
        EscalationAction::Migrate {
            from_volume: 2,
            to_volume: 3,
            from_tier: StorageTier::Bulk,
            to_tier: StorageTier::Archive,
            total_bytes: 135_000
        }
    ));
    assert_eq!(s.check_escalations().len(), 2);
    assert!(s.escalation_along(&[1, 2, 3], 3).is_none());
    assert!(s.escalation_along(&[1, 2, 3], 9).is_none());
    assert!(matches!(
        s.escalation_along(&[1, 2, 3], 1),
        Some(StorageStripeEvent::Escalated { from_tier: StorageTier::Hot, volume_id: 3, .. })
    ));
}

#[test]
fn cooldown_ends_to_the_nanosecond() {
    let run = |secs: i64, nanos: u32| {
        let mut engine = EscalationEngine::new(EscalationConfig {
            cooldown: Duration::from_secs(10),
            ..EscalationConfig::default()
        });
        let mut s = full_stripe();
        let states = [exceeded(1)];
        let first = engine.process_deadband_at(at(100, 5), &[1, 2], &states, &mut s);
        assert_eq!(migrations(&first).len(), 1);
        let again = engine.process_deadband_at(at(secs, nanos), &[1, 2], &states, &mut s);
        migrations(&again).len()
    };
    assert_eq!(run(100, 5), 0);
    assert_eq!(run(110, 4), 0);
    assert_eq!(run(110, 5), 1);
    assert_eq!(run(100, 4), 1);
    assert_eq!(run(1_000_000_000, 0), 1);
}

#[test]
fn the_clock_decides_about_cooldown() {
    let mut engine = EscalationEngine::new(EscalationConfig {
        cooldown: Duration::from_secs(3600),
        ..EscalationConfig::default()
    });
    let mut s = full_stripe();
    let states = [exceeded(1)];
    assert_eq!(migrations(&engine.process_deadband(&states, &mut s)).len(), 1);
    let now = chrono::Utc::now().timestamp();
    let soon = engine.process_deadband_at(at(now + 3500, 0), &[1, 2], &states, &mut s);
    assert!(migrations(&soon).is_empty());
    let later = engine.process_deadband_at(at(now + 3601, 0), &[1, 2], &states, &mut s);
    assert_eq!(migrations(&later).len(), 1);
}

#[test]
fn unplanned_escalations_start_no_cooldown() {
    let mut engine = EscalationEngine::new(EscalationConfig {
        auto_migrate: false,
        ..EscalationConfig::default()
    });
    let mut s = full_stripe();
    let actions = engine.process_deadband_at(at(0, 0), &[1, 2], &[exceeded(1)], &mut s);
    assert!(matches!(actions[..], [EscalationAction::NoOp]));
    assert!(s.healthy_volumes_in_tier(StorageTier::Hot).is_empty());
}

#[test]
fn unknown_volumes_are_not_migrated() {
    let mut engine = EscalationEngine::new(EscalationConfig::default());
    let mut s = full_stripe();
    s.fail_volume(1, "full".into());
    let actions = engine.process_deadband_at(at(0, 0), &[1, 2], &[exceeded(77)], &mut s);
    assert!(matches!(actions[..], [EscalationAction::NoOp]));
}

#[test]
fn degraded_tiers_are_announced() {
    let engine = EscalationEngine::new(EscalationConfig::default());
    let s = full_stripe();
    let event = StorageStripeEvent::Degraded { remaining_tiers: vec![StorageTier::Archive] };
    match engine.action_for(&s, 1, &event) {
        Some(EscalationAction::Degraded { tier, volumes }) => {
            assert_eq!((tier, volumes), (StorageTier::Hot, vec![1]));
        }
        other => panic!("unexpected {other:?}"),
    }
    match engine.action_for(&s, 9, &event) {
        Some(EscalationAction::Degraded { tier, volumes }) => {
            assert_eq!((tier, volumes), (StorageTier::Bulk, vec![9]));
        }
        other => panic!("unexpected {other:?}"),
    }
    let added = StorageStripeEvent::VolumeAdded(1, StorageTier::Hot);
    assert!(engine.action_for(&s, 1, &added).is_none());
}

#[test]
fn large_free_space_may_be_rounded_up() {
    let mut engine = EscalationEngine::new(EscalationConfig {
        target_max_util_pct: number(1e-18),
        ..EscalationConfig::default()
    });
    let free = (1u64 << 53) + 3;
    let mut s = stripe(&[(1, StorageTier::Hot, 10), (2, StorageTier::Bulk, free)]);
    let actions = engine.process_deadband_at(at(0, 0), &[1, 2], &[exceeded(1)], &mut s);
    assert_eq!(migrations(&actions), vec![(1, 2, free as f64 as u64)]);
    assert!(free as f64 as u64 > free);
}

#[test]
fn targets_absorb_no_more_than_they_have_free() {
    let two_to_minus_34 = 1.0 / (1u64 << 34) as f64;
    for free in [3, (1 << 53) - 1, (1 << 53) + 3, (1 << 60) + 65, u64::MAX - 1, u64::MAX] {
        for pct in [two_to_minus_34, 0.5, 1.0, 50.0, 85.0, 100.0] {
            let mut engine = EscalationEngine::new(EscalationConfig {
                target_max_util_pct: number(pct),
                ..EscalationConfig::default()
            });
            let mut s = StorageStripe::new();
            s.add_volume(1, "a".into(), StorageTier::Hot, 10, 1000, vec![]);
            s.add_volume(2, "b".into(), StorageTier::Bulk, free, free, vec![]);
            let actions = engine.process_deadband_at(at(0, 0), &[1, 2], &[exceeded(1)], &mut s);
            let expected = (free as f64 * (1.0 - pct / 100.0)) as u64;
            let moved = migrations(&actions).first().map_or(0, |m| m.2);
            assert_eq!(moved, expected, "{free} free at {pct}%");
            assert!(moved <= free);
        }
    }
}

// The fleet manager

fn manager(dry_run: bool) -> FleetManager {
    let mut fm = FleetManager::new(FleetConfig { dry_run, ..FleetConfig::default() });
    fm.register_volume(Arc::new(volume(1, "SSD", 1000, 100, VolumeType::Primary)));
    fm.register_volume(Arc::new(volume(2, "NAS", 1000, 900, VolumeType::Network)));
    fm.register_volume(Arc::new(volume(3, "USB", 1000, 60, VolumeType::External)));
    fm
}

#[test]
fn a_health_check_reports_in_order() {
    let mut fm = manager(false);
    let events = fm.check_health_at(at(0, 0), &[3, 2, 1], &[1, 2, 3]);
    assert_eq!(events.len(), 4);
    match &events[0] {
        FleetEvent::DeadbandWarn { volume_name, utilization_pct } => {
            assert_eq!(volume_name, "USB");
            assert_eq!(float(*utilization_pct), 940.0 / 1000.0 * 100.0 / 100.0 * 100.0);
        }
        other => panic!("unexpected {other:?}"),
    }
    assert!(
        matches!(&events[1], FleetEvent::DeadbandExceeded { volume_name, .. } if volume_name == "SSD")
    );
    match &events[2] {
        FleetEvent::HandoffStarted { from_volume, to_volume, from_name, to_name } => {
            assert_eq!((*from_volume, *to_volume), (1, 2));
            assert_eq!((from_name.as_str(), to_name.as_str()), ("SSD", "NAS"));
        }
        other => panic!("unexpected {other:?}"),
    }
    assert!(matches!(
        events[3],
        FleetEvent::HealthCheck { total_volumes: 3, healthy: 1, warning: 1, critical: 1 }
    ));
    let handoff = fm.active_handoff(1).unwrap();
    assert_eq!(handoff.state, StorageHandoffState::Draining);
    assert_eq!(handoff.current_state(), StorageHandoffState::Draining);
    assert!(handoff.entries.is_empty());
    assert_eq!((handoff.from_volume, handoff.to_volume), (1, 2));
    assert_eq!(handoff.total_bytes, (900.0 * (1.0 - 85.0 / 100.0)) as u64);
    assert_eq!(handoff.transition_duration, Duration::from_secs(300));
    assert!(fm.active_handoff(2).is_none());
}

#[test]
fn a_dry_run_begins_nothing() {
    let mut fm = manager(true);
    let events = fm.check_health_at(at(0, 0), &[1, 2, 3], &[1, 2, 3]);
    assert!(events.iter().any(|e| matches!(e, FleetEvent::HandoffStarted { .. })));
    assert!(fm.active_handoff(1).is_none());
}

#[test]
fn a_quiet_fleet_reports_a_summary_alone() {
    let mut fm = FleetManager::new(FleetConfig::default());
    fm.register_volume(Arc::new(volume(2, "NAS", 1000, 900, VolumeType::Network)));
    let events = fm.check_health();
    assert_eq!(events.len(), 1);
    assert!(matches!(
        events[0],
        FleetEvent::HealthCheck { total_volumes: 1, healthy: 1, warning: 0, critical: 0 }
    ));
}

#[test]
fn the_escalation_configuration_is_used() {
    let mut config = FleetConfig::default();
    config.escalation.auto_migrate = false;
    let mut fm = FleetManager::new(config);
    fm.register_volume(Arc::new(volume(1, "SSD", 1000, 10, VolumeType::Primary)));
    fm.register_volume(Arc::new(volume(2, "NAS", 1000, 900, VolumeType::Network)));
    let events = fm.check_health();
    assert!(!events.iter().any(|e| matches!(e, FleetEvent::HandoffStarted { .. })));
}

#[test]
fn unregistered_volumes_are_gone_and_out_of_use() {
    let mut fm = manager(false);
    fm.unregister_volume(2);
    let events = fm.check_health_at(at(0, 0), &[1, 2, 3], &[1, 2, 3]);
    assert!(!events.iter().any(|e| matches!(e, FleetEvent::HandoffStarted { .. })));
    assert!(matches!(events.last(), Some(FleetEvent::HealthCheck { total_volumes: 2, .. })));
}

#[test]
fn checked_volumes_stay_shared() {
    let vol = Arc::new(volume(2, "NAS", 1000, 900, VolumeType::Network));
    let mut fm = FleetManager::new(FleetConfig::default());
    fm.register_volume(vol.clone());
    fm.check_health();
    assert_eq!(Arc::strong_count(&vol), 2);
}

#[test]
fn defaults_are_as_documented() {
    let config = FleetConfig::default();
    assert_eq!(config.check_interval, Duration::from_secs(60));
    assert!(config.volume_deadband_configs.is_empty());
    assert!(!config.dry_run);
    assert_eq!(config.escalation.cooldown, Duration::from_secs(300));
    assert!(config.escalation.prioritize_cold_files && config.escalation.auto_migrate);
    assert_eq!(float(config.escalation.target_max_util_pct), 85.0);
    assert_eq!(FleetManager::new(config).check_interval(), Duration::from_secs(60));
    let deadband = VolumeDeadbandConfig::default();
    assert_eq!((float(deadband.util_threshold), float(deadband.util_warn_at)), (0.85, 0.75));
    assert_eq!((deadband.min_read_mbps, deadband.min_write_mbps), (10, 10));
    let archive = VolumeDeadbandConfig::for_tier(&StorageTier::Archive);
    assert_eq!((archive.min_read_mbps, archive.min_write_mbps), (1, 1));
}

#[test]
fn timestamps_stay_within_the_calendar() {
    assert!(at(0, 0).is_valid());
    assert!(at(8_210_266_876_799, 999_999_999).is_valid());
    assert!(!at(8_210_266_876_800, 0).is_valid());
    assert!(at(-8_334_601_228_800, 0).is_valid());
    assert!(!at(-8_334_601_228_801, 0).is_valid());
    assert!(!at(0, 1_000_000_000).is_valid());
    for secs in [-8_334_601_228_801, -8_334_601_228_800, 8_210_266_876_799, 8_210_266_876_800] {
        assert_eq!(chrono::DateTime::from_timestamp(secs, 0).is_some(), at(secs, 0).is_valid());
    }
}
