use mtp_rs::mtp::backend::Backend;
use mtp_rs::mtp::device::{
    find_by_location, find_by_serial, find_device, find_first, list_devices, needs_split_header,
    DeviceTarget, MtpDevice, MtpDeviceBuilder, MtpDeviceInfo, SessionPlan, UsbDeviceInfo, WpdPlan,
    DEFAULT_TIMEOUT_MILLIS,
};
use mtp_rs::mtp::opening::{DeviceOpening, OpenEvent, OpenStep};
use mtp_rs::error::PtpError;
use mtp_rs::mtp::error::Error;
use mtp_rs::mtp::types::{Capabilities, DeviceInfo, MtpMatchReason};
use mtp_rs::transport::virtual_device::config::{VirtualDeviceConfig, VirtualStorageConfig};
use std::time::Duration;

#[test]
fn builder_timeout() {
    let builder = MtpDeviceBuilder::new();
    assert_eq!(builder.timeout, Duration::from_millis(DEFAULT_TIMEOUT_MILLIS));

    let custom = MtpDeviceBuilder::new().timeout(Duration::from_secs(45));
    assert_eq!(custom.timeout, Duration::from_secs(45));
}

fn samsung(serial: Option<&str>, location_id: u64) -> MtpDeviceInfo {
    MtpDeviceInfo {
        vendor_id: 0x04e8,
        product_id: 0x6860,
        manufacturer: Some("Samsung".to_string()),
        product: Some("Galaxy S24".to_string()),
        serial_number: serial.map(|s| s.to_string()),
        location_id,
        speed: None,
        match_reason: MtpMatchReason::StandardClass,
    }
}

#[test]
fn device_info_display() {
    let with_serial = MtpDeviceInfo {
        vendor_id: 0x04e8,
        product_id: 0x6860,
        manufacturer: Some("Samsung".to_string()),
        product: Some("Galaxy S24".to_string()),
        serial_number: Some("ABC123".to_string()),
        location_id: 0x00200000,
        speed: None,
        match_reason: MtpMatchReason::StandardClass,
    };
    let display = with_serial.display();
    assert!(display.contains("Samsung") && display.contains("Galaxy S24"));
    assert!(display.contains("ABC123") && display.contains("00200000"));

    let no_serial = MtpDeviceInfo { serial_number: None, ..with_serial.clone() };
    assert!(!no_serial.display().contains("serial:"));

    let unknown = MtpDeviceInfo { manufacturer: None, product: None, ..with_serial };
    assert!(unknown.display().contains("Unknown"));
}

#[test]
fn a_device_is_shown_with_its_location_in_hex() {
    assert_eq!(
        samsung(Some("ABC123"), 0x00200000).display(),
        "Samsung Galaxy S24 (serial: ABC123, location: 00200000)"
    );
    assert_eq!(samsung(None, 0xAB).display(), "Samsung Galaxy S24 (location: 000000ab)");
}

#[test]
fn devices_are_listed_and_found_in_order() {
    let usb = UsbDeviceInfo {
        vendor_id: 1,
        product_id: 2,
        manufacturer: None,
        product: Some("Phone".to_string()),
        serial_number: Some("S1".to_string()),
        location_id: 10,
        speed: None,
        match_reason: MtpMatchReason::KnownVidPid,
    };
    let all = list_devices(vec![usb], vec![samsung(Some("S2"), 20), samsung(Some("S2"), 30)]);
    assert_eq!(all.len(), 3);
    assert_eq!(all[0].product.as_deref(), Some("Phone"));
    assert_eq!(find_first(&all).unwrap(), 0);
    assert_eq!(find_by_location(&all, 30).unwrap(), 2);
    assert_eq!(find_by_serial(&all, "S2").unwrap(), 1);
    assert!(matches!(find_by_serial(&all, "S"), Err(Error::NoDevice)));
    assert!(matches!(find_by_location(&all, 0), Err(Error::NoDevice)));
    assert!(matches!(find_first(&[]), Err(Error::NoDevice)));
    assert_eq!(find_device(&all, &DeviceTarget::Serial("S2".to_string())).unwrap(), 1);
    assert_eq!(find_device(&all, &DeviceTarget::Location(30)).unwrap(), 2);
}

#[test]
fn resetting_an_absent_device_reports_no_device() {
    let builder = MtpDevice::builder();
    assert!(matches!(
        builder.reset_by_serial(false, &[samsung(Some("S2"), 20)], "no-such-device-serial"),
        Err(Error::NoDevice)
    ));
    assert!(matches!(builder.reset_by_location(false, &[], 5), Err(Error::NoDevice)));
    assert_eq!(builder.reset_by_serial(false, &[samsung(Some("S2"), 20)], "S2").unwrap(), 0);
    assert!(matches!(builder.reset_first(&[]), Err(Error::NoDevice)));
}

#[test]
fn resetting_a_virtual_device_says_it_has_no_transport_to_reset() {
    let builder = MtpDevice::builder();
    assert!(matches!(
        builder.reset_by_serial(true, &[samsung(Some("S2"), 20)], "S2"),
        Err(Error::Unsupported)
    ));
    assert!(matches!(
        builder.reset_by_location(true, &[samsung(Some("S2"), 20)], 20),
        Err(Error::Unsupported)
    ));
}

#[test]
fn open_virtual_empty_storages_rejected() {
    let config = VirtualDeviceConfig { serial: "empty-001".into(), ..Default::default() };
    let err = MtpDevice::builder().open_virtual(&config).unwrap_err();
    assert!(err.describe().contains("at least one storage"));
}

fn virtual_config(serial: &str) -> VirtualDeviceConfig {
    VirtualDeviceConfig {
        serial: serial.to_string(),
        storages: vec![VirtualStorageConfig {
            description: "Internal Storage".to_string(),
            capacity: 1024,
            backing_dir: "/tmp/none".to_string(),
            read_only: false,
        }],
        ..Default::default()
    }
}

#[test]
fn a_virtual_device_comes_before_a_real_one() {
    let builder = MtpDeviceBuilder::new().backend(Backend::Wpd);
    match builder.open_by_serial("v", Some(virtual_config("v")), false).step {
        OpenStep::Virtual(config) => assert_eq!(config.serial, "v"),
        other => panic!("{other:?}"),
    }
    assert!(builder.open_virtual(&virtual_config("v")).is_ok());
    let opening = MtpDeviceBuilder::new().open_by_location(5, Some(virtual_config("v")), true);
    assert!(matches!(opening.step, OpenStep::Virtual(_)));
}

fn listed() -> OpenEvent {
    OpenEvent::UsbListed(Ok(vec![samsung(Some("S1"), 10), samsung(Some("S2"), 20)]))
}

fn after(mut opening: DeviceOpening, event: OpenEvent) -> DeviceOpening {
    opening.advance(event);
    opening
}

#[test]
fn a_device_is_opened_over_usb_outside_windows() {
    let auto = MtpDeviceBuilder::new();
    assert!(matches!(auto.wpd_plan(false), WpdPlan::Skip));
    let opening = auto.open_first(false);
    assert!(matches!(opening.step, OpenStep::ListUsb));
    assert!(matches!(after(opening, listed()).step, OpenStep::OpenUsb(0)));
    let opening = auto.open_by_serial("S2", None, false);
    assert!(matches!(after(opening, listed()).step, OpenStep::OpenUsb(1)));
    let opening = auto.open_by_location(20, None, false);
    assert!(matches!(after(opening, listed()).step, OpenStep::OpenUsb(1)));
    let opening = auto.open_by_location(30, None, false);
    assert!(matches!(after(opening, listed()).step, OpenStep::Fail(Error::NoDevice)));
    let failed = OpenEvent::UsbListed(Err(PtpError::Timeout));
    assert!(matches!(after(auto.open_first(false), failed).step, OpenStep::Fail(Error::Timeout)));
}

#[test]
fn on_windows_wpd_is_tried_before_usb() {
    let auto = MtpDeviceBuilder::new();
    assert!(matches!(auto.wpd_plan(true), WpdPlan::Try));
    let tried = |r: Result<(), Error>| after(auto.open_first(true), OpenEvent::WpdTried(r));
    assert!(matches!(auto.open_first(true).step, OpenStep::TryWpd));
    assert!(matches!(tried(Ok(())).step, OpenStep::Opened));
    assert!(matches!(tried(Err(Error::Busy)).step, OpenStep::Fail(Error::Busy)));
    let fallen = tried(Err(Error::NoDevice));
    assert!(matches!(fallen.step, OpenStep::ListUsb));
    assert!(matches!(after(fallen, listed()).step, OpenStep::OpenUsb(0)));
    let found = after(auto.open_by_location(20, None, true), listed());
    assert!(matches!(found.step, OpenStep::TryWpdFor(1)));
    let fallen = after(found, OpenEvent::WpdTried(Err(Error::NoDevice)));
    assert!(matches!(fallen.step, OpenStep::OpenUsb(1)));
}

#[test]
fn a_named_backend_is_kept() {
    for windows in [false, true] {
        let usb = MtpDeviceBuilder::new().backend(Backend::Usb);
        assert!(matches!(usb.open_first(windows).step, OpenStep::ListUsb));
        let found = after(usb.open_by_location(10, None, windows), listed());
        assert!(matches!(found.step, OpenStep::OpenUsb(0)));
    }
    let wpd = MtpDeviceBuilder::new().backend(Backend::Wpd);
    assert!(matches!(wpd.wpd_plan(false), WpdPlan::Refuse));
    assert!(matches!(wpd.open_first(false).step, OpenStep::Fail(Error::Unsupported)));
    let found = after(wpd.open_by_location(10, None, false), listed());
    assert!(matches!(found.step, OpenStep::Fail(Error::Unsupported)));
    let failed = after(wpd.open_first(true), OpenEvent::WpdTried(Err(Error::NoDevice)));
    assert!(matches!(failed.step, OpenStep::Fail(Error::NoDevice)));
}

#[test]
fn a_builder_keeps_what_it_is_given() {
    let builder = MtpDeviceBuilder::new()
        .known_devices(&[(1, 2), (3, 4)])
        .reuse_existing_session(0xBAAA_AAAD);
    assert_eq!(builder.known_devices, vec![(1, 2), (3, 4)]);
    assert!(matches!(builder.session_plan(), SessionPlan::Reuse(0xBAAA_AAAD)));
    assert!(matches!(MtpDeviceBuilder::new().session_plan(), SessionPlan::Fresh(1)));
}

#[test]
fn an_open_device_tells_what_it_supports() {
    let device = MtpDevice {
        device_info: DeviceInfo {
            manufacturer: "Garmin".to_string(),
            model: "Watch".to_string(),
            serial_number: "1".to_string(),
        },
        capabilities: Capabilities {
            can_upload: true,
            can_delete: true,
            can_rename: false,
            can_move: false,
            can_copy: false,
            can_create_folder: true,
            supports_partial_download: true,
            supports_thumbnails: false,
            supports_events: true,
        },
    };
    assert!(device.supports_upload());
    assert!(!device.supports_rename());
    assert_eq!(device.device_info().model, "Watch");
    assert!(device.capabilities().supports_events);
    assert!(needs_split_header("Garmin"));
    assert!(!needs_split_header("garmin"));
}
