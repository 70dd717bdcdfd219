use mtp_rs::error::PtpError;
use mtp_rs::mtp::types::ObjectHandle;
use mtp_rs::transport::virtual_device::config::{VirtualDeviceConfig, VirtualStorageConfig};
use mtp_rs::transport::virtual_device::registry::{
    clear_dropped_paths, clear_object_info_errors, dropped_paths_since_pause,
    find_virtual_config_by_location, find_virtual_config_by_serial, force_cancel_wedge,
    force_object_info_error, force_operation_wedge, force_partial_read_caps, list_virtual_devices,
    pause_watcher, register_active_state, register_virtual_device, rekey_virtual_object,
    release_watcher, rescan_virtual_device, unregister_active_state, unregister_virtual_device,
    was_path_dropped, ActiveStates, Registry, VIRTUAL_LOCATION_BASE,
};
use mtp_rs::transport::virtual_device::state::{
    build_event, DiskEntry, TrackedObject, VirtualDeviceState, DROPPED_PATHS_CAP,
};
use mtp_rs::transport::virtual_device::tree::StorageListing;
use std::time::Duration;

#[test]
fn default_config_is_complete_except_storages() {
    let config = VirtualDeviceConfig::default();

    assert!(!config.manufacturer.is_empty());
    assert!(!config.model.is_empty());
    assert!(!config.serial.is_empty());

    assert!(config.storages.is_empty());

    assert!(config.supports_rename);
    assert!(config.supports_partial_object_64);
    assert_eq!(config.event_poll_interval, Duration::from_millis(50));
    assert!(config.watch_backing_dirs);
}

fn make_config(serial: &str) -> VirtualDeviceConfig {
    VirtualDeviceConfig {
        manufacturer: "TestCorp".into(),
        model: "Virtual Phone".into(),
        serial: serial.into(),
        storages: vec![VirtualStorageConfig {
            description: "Internal Storage".into(),
            capacity: 1024 * 1024 * 1024,
            backing_dir: "/tmp/backing".to_string(),
            read_only: false,
        }],
        event_poll_interval: Duration::ZERO,
        watch_backing_dirs: false,
        ..Default::default()
    }
}

#[test]
fn register_and_list() {
    let mut registry = Registry::new();
    let config = make_config("reg-test-001");
    let info = register_virtual_device(&mut registry, &config);

    assert!(info.location_id >= VIRTUAL_LOCATION_BASE);
    assert_eq!(info.serial_number.as_deref(), Some("reg-test-001"));
    assert_eq!(info.manufacturer.as_deref(), Some("TestCorp"));

    let devices = list_virtual_devices(&registry);
    assert!(devices.iter().any(|d| d.serial_number.as_deref() == Some("reg-test-001")));

    unregister_virtual_device(&mut registry, info.location_id);
}

#[test]
fn find_by_location() {
    let mut registry = Registry::new();
    let info = register_virtual_device(&mut registry, &make_config("reg-test-002"));

    let found = find_virtual_config_by_location(&registry, info.location_id);
    assert!(found.is_some());
    assert_eq!(found.unwrap().serial, "reg-test-002");

    unregister_virtual_device(&mut registry, info.location_id);
}

#[test]
fn find_by_serial() {
    let mut registry = Registry::new();
    let info = register_virtual_device(&mut registry, &make_config("reg-test-003"));

    let found = find_virtual_config_by_serial(&registry, "reg-test-003");
    assert!(found.is_some());
    assert_eq!(found.unwrap().serial, "reg-test-003");

    assert!(find_virtual_config_by_serial(&registry, "nonexistent").is_none());

    unregister_virtual_device(&mut registry, info.location_id);
}

#[test]
fn unregister() {
    let mut registry = Registry::new();
    let info = register_virtual_device(&mut registry, &make_config("reg-test-004"));

    unregister_virtual_device(&mut registry, info.location_id);

    assert!(find_virtual_config_by_location(&registry, info.location_id).is_none());
    assert!(find_virtual_config_by_serial(&registry, "reg-test-004").is_none());
}

#[test]
fn location_id_unique_after_unregister() {
    let mut registry = Registry::new();
    let info_a = register_virtual_device(&mut registry, &make_config("reg-test-unique-a"));

    let info_b = register_virtual_device(&mut registry, &make_config("reg-test-unique-b"));

    unregister_virtual_device(&mut registry, info_a.location_id);

    let info_c = register_virtual_device(&mut registry, &make_config("reg-test-unique-c"));

    assert_ne!(info_c.location_id, info_a.location_id);
    assert_ne!(info_c.location_id, info_b.location_id);

    unregister_virtual_device(&mut registry, info_b.location_id);
    unregister_virtual_device(&mut registry, info_c.location_id);
}

#[test]
fn operation_wedge_reports_an_unknown_serial() {
    assert!(!force_operation_wedge(&mut ActiveStates::new(), "no-such-device"));
}

#[test]
fn rescan_nonexistent_serial_returns_none() {
    assert!(rescan_virtual_device(&mut ActiveStates::new(), "no-such-device", &Vec::new()).is_none());
}

#[test]
fn pause_watcher_returns_none_for_unknown_serial() {
    assert!(pause_watcher(&mut ActiveStates::new(), "pause-refcount-no-such-serial").is_none());
}

#[test]
fn dropped_paths_for_unknown_serial_returns_empty() {
    let mut active = ActiveStates::new();
    assert!(dropped_paths_since_pause(&active, "dropped-paths-no-such-serial").is_empty());
    assert!(!was_path_dropped(&active, "dropped-paths-no-such-serial", "anything"));
    clear_dropped_paths(&mut active, "dropped-paths-no-such-serial");
}

fn opened(serial: &str) -> ActiveStates {
    let mut active = ActiveStates::new();
    let state = VirtualDeviceState::new(&make_config(serial));
    register_active_state(&mut active, serial, state);
    active
}

#[test]
fn pause_refcount_composes_across_concurrent_guards() {
    let mut active = opened("pause-refcount-001");
    let guard_a = pause_watcher(&mut active, "pause-refcount-001").expect("device is open");
    assert_eq!(active.slots[0].pause_count, 1);
    let guard_b = pause_watcher(&mut active, "pause-refcount-001").expect("still open");
    assert_eq!(active.slots[0].pause_count, 2);
    release_watcher(&mut active, guard_a);
    assert_eq!(active.slots[0].pause_count, 1);
    assert!(!active.slots[0].observe("/tmp/x".to_string()));
    release_watcher(&mut active, guard_b);
    assert_eq!(active.slots[0].pause_count, 0);
    assert!(active.slots[0].observe("/tmp/y".to_string()));
    assert_eq!(dropped_paths_since_pause(&active, "pause-refcount-001"), vec!["/tmp/x"]);
    unregister_active_state(&mut active, "pause-refcount-001");
    assert!(pause_watcher(&mut active, "pause-refcount-001").is_none());
}

#[test]
fn dropped_paths_observation_round_trip() {
    let mut active = opened("dropped-paths-001");
    assert!(dropped_paths_since_pause(&active, "dropped-paths-001").is_empty());
    assert!(!was_path_dropped(&active, "dropped-paths-001", "sentinel-xyz"));
    for path in ["/tmp/cmdr-mtp/internal/foo.txt", "/tmp/cmdr-mtp/internal/sentinel-xyz"] {
        active.slots[0].dropped_paths.push_back(path.to_string());
    }
    let paths = dropped_paths_since_pause(&active, "dropped-paths-001");
    assert_eq!(paths.len(), 2);
    assert_eq!(paths[0], "/tmp/cmdr-mtp/internal/foo.txt");
    assert!(was_path_dropped(&active, "dropped-paths-001", "sentinel-xyz"));
    assert!(was_path_dropped(&active, "dropped-paths-001", "/foo.txt"));
    assert!(!was_path_dropped(&active, "dropped-paths-001", "not-there"));
    clear_dropped_paths(&mut active, "dropped-paths-001");
    assert!(dropped_paths_since_pause(&active, "dropped-paths-001").is_empty());
}

#[test]
fn dropped_paths_ring_evicts_oldest_past_cap() {
    let mut active = opened("dropped-paths-cap-001");
    let guard = pause_watcher(&mut active, "dropped-paths-cap-001").unwrap();
    for i in 0..(DROPPED_PATHS_CAP + 5) {
        assert!(!active.slots[0].observe(format!("/tmp/drop-{i}")));
    }
    release_watcher(&mut active, guard);
    let paths = dropped_paths_since_pause(&active, "dropped-paths-cap-001");
    assert_eq!(paths.len(), DROPPED_PATHS_CAP);
    assert_eq!(paths[0], "/tmp/drop-5");
    assert_eq!(paths[paths.len() - 1], format!("/tmp/drop-{}", DROPPED_PATHS_CAP + 4));
}

fn disk(entries: &[(&str, &str)]) -> Vec<StorageListing> {
    vec![StorageListing {
        storage: 0x10001,
        entries: entries
            .iter()
            .map(|(path, parent)| DiskEntry { rel_path: path.to_string(), parent: parent.to_string() })
            .collect(),
    }]
}

#[test]
fn rescan_detects_external_changes() {
    let serial = "rescan-test-001";
    let mut active = opened(serial);
    let first = disk(&[("Photos", ""), ("Photos/pic.jpg", "Photos"), ("existing.txt", "")]);
    let summary = rescan_virtual_device(&mut active, serial, &first).unwrap();
    assert_eq!((summary.added, summary.removed), (3, 0));
    let photos = active.slots[0].objects.iter().find(|o| o.rel_path == "Photos").unwrap().handle;
    let child = active.slots[0].objects.iter().find(|o| o.rel_path == "Photos/pic.jpg").unwrap();
    assert_eq!(child.parent, photos);
    assert_eq!(active.slots[0].event_queue.len(), 4);
    active.slots[0].event_queue.clear();

    let second = disk(&[("Photos", ""), ("new_file.txt", "")]);
    let summary = rescan_virtual_device(&mut active, serial, &second).unwrap();
    assert_eq!(summary.removed, 2);
    assert_eq!(summary.added, 1);
    let paths: Vec<&str> = active.slots[0].objects.iter().map(|o| o.rel_path.as_str()).collect();
    assert_eq!(paths.len(), 2);
    assert!(paths.contains(&"new_file.txt") && paths.contains(&"Photos"));
    assert_eq!(active.slots[0].objects.iter().find(|o| o.rel_path == "Photos").unwrap().handle, photos);
    assert!(active.slots[0].objects.iter().all(|o| o.parent != photos));
    let codes: Vec<u16> = active.slots[0]
        .event_queue
        .iter()
        .map(|event| u16::from_le_bytes([event[6], event[7]]))
        .collect();
    assert_eq!(codes, vec![0x4003, 0x4003, 0x4002, 0x400C]);
}

#[test]
fn rescan_no_changes_returns_zero() {
    let serial = "rescan-test-002";
    let mut active = opened(serial);
    let listing = disk(&[("stable.txt", "")]);
    rescan_virtual_device(&mut active, serial, &listing).unwrap();
    active.slots[0].event_queue.clear();
    let summary = rescan_virtual_device(&mut active, serial, &listing).unwrap();
    assert_eq!(summary.added, 0);
    assert_eq!(summary.removed, 0);
    assert!(active.slots[0].event_queue.is_empty());
}

#[test]
fn rescan_catches_up_with_every_storage() {
    let mut active = opened("rescan-003");
    let mut listing = disk(&[("a", "")]);
    listing.push(StorageListing {
        storage: 0x20001,
        entries: vec![DiskEntry { rel_path: "a".to_string(), parent: String::new() }],
    });
    let summary = rescan_virtual_device(&mut active, "rescan-003", &listing).unwrap();
    assert_eq!((summary.added, summary.removed), (2, 0));
    let storages: Vec<u32> = active.slots[0].objects.iter().map(|o| o.storage).collect();
    assert_eq!(storages, vec![0x10001, 0x20001]);
    assert_ne!(active.slots[0].objects[0].handle, active.slots[0].objects[1].handle);
    active.slots[0].event_queue.clear();
    let again = rescan_virtual_device(&mut active, "rescan-003", &listing).unwrap();
    assert_eq!((again.added, again.removed), (0, 0));
    assert!(active.slots[0].event_queue.is_empty());
}

#[test]
fn a_rescan_needs_handles_only_for_what_is_new() {
    let mut active = opened("rescan-004");
    let mut listing = disk(&[("a", ""), ("b", ""), ("c", "")]);
    rescan_virtual_device(&mut active, "rescan-004", &listing).unwrap();
    active.slots[0].next_handle = u32::MAX - 1;
    let summary = rescan_virtual_device(&mut active, "rescan-004", &listing).unwrap();
    assert_eq!((summary.added, summary.removed), (0, 0));
    listing[0].entries.push(DiskEntry { rel_path: "d".to_string(), parent: String::new() });
    let summary = rescan_virtual_device(&mut active, "rescan-004", &listing).unwrap();
    assert_eq!((summary.added, summary.removed), (1, 0));
    assert_eq!(active.slots[0].next_handle, u32::MAX);
    let summary = rescan_virtual_device(&mut active, "rescan-004", &listing).unwrap();
    assert_eq!((summary.added, summary.removed), (0, 0));
}

#[test]
fn locations_grow_whatever_is_unregistered() {
    let mut registry = Registry::new();
    let mut last = 0;
    for i in 0..5 {
        let info = register_virtual_device(&mut registry, &make_config(&format!("grow-{i}")));
        assert!(info.location_id > last);
        last = info.location_id;
        if i % 2 == 0 {
            unregister_virtual_device(&mut registry, info.location_id);
        }
    }
    assert_eq!(list_virtual_devices(&registry).len(), 2);
}

#[test]
fn a_watcher_runs_again_once_every_guard_is_released() {
    let mut active = opened("guards-001");
    let mut guards = Vec::new();
    for held in 1..=3 {
        guards.push(pause_watcher(&mut active, "guards-001").unwrap());
        assert_eq!(active.slots[0].pause_count, held);
    }
    release_watcher(&mut active, guards.remove(1));
    guards.push(pause_watcher(&mut active, "guards-001").unwrap());
    while let Some(guard) = guards.pop() {
        assert!(active.slots[0].pause_count > 0);
        release_watcher(&mut active, guard);
    }
    assert_eq!(active.slots[0].pause_count, 0);
}

#[test]
fn rekey_object_invalidates_old_handle() {
    let mut active = opened("rekey-001");
    let listing = disk(&[("DCIM", ""), ("DCIM/a.jpg", "DCIM")]);
    rescan_virtual_device(&mut active, "rekey-001", &listing).unwrap();
    let (old, new) = rekey_virtual_object(&mut active, "rekey-001", "DCIM").unwrap();
    assert_ne!(old, new);
    assert!(active.slots[0].objects.iter().all(|o| o.handle != old.0));
    let child = active.slots[0].objects.iter().find(|o| o.rel_path == "DCIM/a.jpg").unwrap();
    assert_eq!(child.parent, new.0);
}

#[test]
fn rekey_unknown_path_or_serial_returns_none() {
    let mut active = opened("rekey-test-none");
    rescan_virtual_device(&mut active, "rekey-test-none", &disk(&[("Download", "")])).unwrap();
    assert!(rekey_virtual_object(&mut active, "no-such-serial", "Download").is_none());
    assert!(rekey_virtual_object(&mut active, "rekey-test-none", "Nope").is_none());
}

fn container(kind: u16, code: u16, tx: u32, rest: &[u8]) -> Vec<u8> {
    let mut data = Vec::new();
    data.extend_from_slice(&((12 + rest.len()) as u32).to_le_bytes());
    data.extend_from_slice(&kind.to_le_bytes());
    data.extend_from_slice(&code.to_le_bytes());
    data.extend_from_slice(&tx.to_le_bytes());
    data.extend_from_slice(rest);
    data
}

#[test]
fn a_command_without_data_is_carried_out_at_once() {
    let mut state = VirtualDeviceState::new(&make_config("bulk-001"));
    let mut params = 7u32.to_le_bytes().to_vec();
    params.extend_from_slice(&0xFFFF_FFFFu32.to_le_bytes());
    params.push(1);
    let dispatch = state.send_bulk(&container(1, 0x1007, 3, &params)).unwrap().unwrap();
    assert_eq!((dispatch.code, dispatch.tx_id), (0x1007, 3));
    assert_eq!(dispatch.params, vec![7, 0xFFFF_FFFF]);
    assert_eq!(dispatch.payload, None);
}

#[test]
fn a_command_with_data_waits_for_it() {
    let mut state = VirtualDeviceState::new(&make_config("bulk-002"));
    assert!(state.send_bulk(&container(1, 0x100D, 9, &5u32.to_le_bytes())).unwrap().is_none());
    let dispatch = state.send_bulk(&container(2, 0x100D, 9, b"hello")).unwrap().unwrap();
    assert_eq!((dispatch.code, dispatch.tx_id), (0x100D, 9));
    assert_eq!(dispatch.params, vec![5]);
    assert_eq!(dispatch.payload.as_deref(), Some(b"hello".as_slice()));
    assert_eq!(
        state.send_bulk(&container(2, 0x100D, 9, b"again")).unwrap_err().describe(),
        "Invalid data: received data container without pending command"
    );
}

#[test]
fn malformed_containers_are_refused() {
    let mut state = VirtualDeviceState::new(&make_config("bulk-003"));
    assert_eq!(
        state.send_bulk(&[0; 11]).unwrap_err().describe(),
        "Invalid data: container too small"
    );
    assert_eq!(
        state.send_bulk(&container(4, 0x1007, 3, &[])).unwrap_err().describe(),
        "Invalid data: unexpected container type: 4"
    );
}

#[test]
fn operation_wedge_surfaces_device_reset_without_a_cancel() {
    let mut active = opened("wedge-001");
    assert!(force_operation_wedge(&mut active, "wedge-001"));
    let state = &mut active.slots[0];
    assert!(matches!(state.send_bulk(&container(1, 0x1007, 1, &[])), Err(PtpError::DeviceReset)));
    assert!(state.send_bulk(&container(1, 0x1007, 2, &[])).unwrap().is_some());
}

#[test]
fn a_data_phase_never_meets_the_operation_wedge() {
    let mut active = opened("wedge-002");
    assert!(active.slots[0].send_bulk(&container(1, 0x100D, 1, &[])).unwrap().is_none());
    assert!(force_operation_wedge(&mut active, "wedge-002"));
    assert!(active.slots[0].send_bulk(&container(2, 0x100D, 1, &[1])).unwrap().is_some());
    assert!(active.slots[0].pending_operation_wedge);
}

#[test]
fn cancel_wedge_surfaces_device_reset() {
    let mut active = opened("wedge-003");
    assert!(active.slots[0].cancel_transfer().is_ok());
    assert!(force_cancel_wedge(&mut active, "wedge-003"));
    assert!(matches!(active.slots[0].cancel_transfer(), Err(PtpError::DeviceReset)));
    assert!(active.slots[0].cancel_transfer().is_ok());
    assert!(!force_cancel_wedge(&mut active, "no-such-device"));
}

#[test]
fn responses_and_events_come_out_in_order() {
    let mut state = VirtualDeviceState::new(&make_config("bulk-004"));
    assert!(state.receive_bulk().is_err());
    state.queue_response(vec![1]);
    state.queue_response(vec![2]);
    assert_eq!(state.receive_bulk().unwrap(), vec![1]);
    assert_eq!(state.receive_bulk().unwrap(), vec![2]);
    assert_eq!(state.receive_interrupt(), None);
    state.event_queue.push_back(build_event(0x4002, 5));
    assert_eq!(
        state.receive_interrupt(),
        Some(vec![16, 0, 0, 0, 4, 0, 0x02, 0x40, 0, 0, 0, 0, 5, 0, 0, 0])
    );
    assert_eq!(state.receive_interrupt(), None);
}

#[test]
fn partial_read_caps_are_used_up_one_by_one() {
    let mut active = opened("caps-001");
    assert!(force_partial_read_caps(&mut active, "caps-001", vec![10, 200]));
    assert!(!force_partial_read_caps(&mut active, "no-such-device", vec![1]));
    let state = &mut active.slots[0];
    assert_eq!(state.take_read_cap(100), 10);
    assert_eq!(state.take_read_cap(100), 100);
    assert_eq!(state.take_read_cap(100), 100);
}

#[test]
fn objects_can_be_made_undescribable() {
    let mut active = ActiveStates::new();
    let mut config = make_config("info-001");
    config.undescribable_objects = vec!["bad.txt".to_string()];
    register_active_state(&mut active, "info-001", VirtualDeviceState::new(&config));
    active.slots[0].objects.push(TrackedObject {
        handle: 1,
        storage: 0x10001,
        parent: 0,
        rel_path: "bad.txt".to_string(),
    });
    active.slots[0].next_handle = 2;
    assert_eq!(active.slots[0].object_info_error(1), Some(0x2002));
    assert_eq!(active.slots[0].object_info_error(2), None);
    assert!(force_object_info_error(&mut active, "info-001", ObjectHandle(1), Some(0x200F)));
    assert_eq!(active.slots[0].object_info_error(1), Some(0x200F));
    assert!(force_object_info_error(&mut active, "info-001", ObjectHandle(1), None));
    assert_eq!(active.slots[0].object_info_error(1), Some(0x2002));
    assert!(force_object_info_error(&mut active, "info-001", ObjectHandle(2), Some(0x2002)));
    assert!(clear_object_info_errors(&mut active, "info-001"));
    assert_eq!(active.slots[0].object_info_error(2), None);
    assert!(!clear_object_info_errors(&mut active, "no-such-device"));
}
