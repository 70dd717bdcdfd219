//! Devices: what is known of one before it is opened, how one is picked, and how it is opened.

use vstd::prelude::*;

use crate::mtp::backend::Backend;
use crate::mtp::error::{Error, ErrorView};
use crate::mtp::types::{Capabilities, DeviceInfo, MtpMatchReason, UsbSpeed};
use crate::outside;
use crate::search;
use crate::text;
use crate::transport::virtual_device::config::VirtualDeviceConfig;
use std::time::Duration;

verus! {

/// A USB device as the transport lists it.
#[derive(Debug)]
pub struct UsbDeviceInfo {
    pub vendor_id: u16,
    pub product_id: u16,
    pub manufacturer: Option<String>,
    pub product: Option<String>,
    pub serial_number: Option<String>,
    pub location_id: u64,
    pub speed: Option<UsbSpeed>,
    pub match_reason: MtpMatchReason,
}

/// Information about an MTP device that has not been opened.
///
/// The vendor, product and serial number identify a physical device wherever it is plugged in; the
/// location identifies the port it is plugged into.
#[derive(Debug)]
pub struct MtpDeviceInfo {
    /// USB vendor ID.
    pub vendor_id: u16,
    /// USB product ID. The same device may report different ones depending on its USB mode.
    pub product_id: u16,
    /// Manufacturer name, if the device reports one.
    pub manufacturer: Option<String>,
    /// Product name, if the device reports one.
    pub product: Option<String>,
    /// Serial number, if the device reports one.
    pub serial_number: Option<String>,
    /// Physical USB location. Stable across reconnections to the same port.
    pub location_id: u64,
    /// Negotiated link speed, if the operating system reports it.
    pub speed: Option<UsbSpeed>,
    /// Why this USB device was classified as an MTP candidate.
    pub match_reason: MtpMatchReason,
}

/// An optional text as a view.
pub open spec fn optional_text(s: Option<String>) -> Option<Seq<char>> {
    match s {
        Some(s) => Some(s@),
        None => None,
    }
}

/// An [`MtpDeviceInfo`] with its texts as sequences of characters.
pub struct MtpDeviceInfoView {
    pub vendor_id: u16,
    pub product_id: u16,
    pub manufacturer: Option<Seq<char>>,
    pub product: Option<Seq<char>>,
    pub serial_number: Option<Seq<char>>,
    pub location_id: u64,
    pub speed: Option<UsbSpeed>,
    pub match_reason: MtpMatchReason,
}

impl View for MtpDeviceInfo {
    type V = MtpDeviceInfoView;

    open spec fn view(&self) -> MtpDeviceInfoView {
        MtpDeviceInfoView {
            vendor_id: self.vendor_id,
            product_id: self.product_id,
            manufacturer: optional_text(self.manufacturer),
            product: optional_text(self.product),
            serial_number: optional_text(self.serial_number),
            location_id: self.location_id,
            speed: self.speed,
            match_reason: self.match_reason,
        }
    }
}

impl View for UsbDeviceInfo {
    type V = MtpDeviceInfoView;

    open spec fn view(&self) -> MtpDeviceInfoView {
        MtpDeviceInfoView {
            vendor_id: self.vendor_id,
            product_id: self.product_id,
            manufacturer: optional_text(self.manufacturer),
            product: optional_text(self.product),
            serial_number: optional_text(self.serial_number),
            location_id: self.location_id,
            speed: self.speed,
            match_reason: self.match_reason,
        }
    }
}

impl Clone for MtpDeviceInfo {
    fn clone(&self) -> (r: Self)
        ensures
            r@ == self@,
    {
        MtpDeviceInfo {
            vendor_id: self.vendor_id,
            product_id: self.product_id,
            manufacturer: self.manufacturer.clone(),
            product: self.product.clone(),
            serial_number: self.serial_number.clone(),
            location_id: self.location_id,
            speed: self.speed,
            match_reason: self.match_reason,
        }
    }
}

/// A name for display, where the device reports none.
pub open spec fn name_or_unknown(name: Option<Seq<char>>) -> Seq<char> {
    match name {
        Some(name) => name,
        None => "Unknown"@,
    }
}

/// The display text of a device.
pub open spec fn device_text(d: MtpDeviceInfoView) -> Seq<char> {
    let head = name_or_unknown(d.manufacturer) + " "@ + name_or_unknown(d.product);
    match d.serial_number {
        Some(serial) => head + " (serial: "@ + serial + ", location: "@ + text::hex_padded(
            d.location_id as nat,
            8,
        ) + ")"@,
        None => head + " (location: "@ + text::hex_padded(d.location_id as nat, 8) + ")"@,
    }
}

impl MtpDeviceInfo {
    /// The neutral form of a USB listing entry.
    pub fn from_usb(d: UsbDeviceInfo) -> (r: Self)
        ensures
            r@ == d@,
    {
        MtpDeviceInfo {
            vendor_id: d.vendor_id,
            product_id: d.product_id,
            manufacturer: d.manufacturer,
            product: d.product,
            serial_number: d.serial_number,
            location_id: d.location_id,
            speed: d.speed,
            match_reason: d.match_reason,
        }
    }

    /// Format the device info for display.
    pub fn display(&self) -> (r: String)
        ensures
            r@ == device_text(self@),
    {
        let mut r = match &self.manufacturer {
            Some(name) => name.clone(),
            None => "Unknown".to_owned(),
        };
        r.append(" ");
        match &self.product {
            Some(name) => {
                r.append(name.as_str());
            },
            None => {
                r.append("Unknown");
            },
        }
        match &self.serial_number {
            Some(serial) => {
                r.append(" (serial: ");
                r.append(serial.as_str());
                r.append(", location: ");
            },
            None => {
                r.append(" (location: ");
            },
        }
        r.append(text::write_hex_padded(self.location_id, 8).as_str());
        r.append(")");
        r
    }
}

/// Listing entries as views.
pub open spec fn device_views(devices: Seq<MtpDeviceInfo>) -> Seq<MtpDeviceInfoView> {
    devices.map_values(|d: MtpDeviceInfo| d@)
}

/// USB listing entries as views.
pub open spec fn usb_views(devices: Seq<UsbDeviceInfo>) -> Seq<MtpDeviceInfoView> {
    devices.map_values(|d: UsbDeviceInfo| d@)
}

/// All devices: those on USB, then the virtual ones.
pub fn list_devices(usb: Vec<UsbDeviceInfo>, virtual_devices: Vec<MtpDeviceInfo>) -> (r: Vec<
    MtpDeviceInfo,
>)
    ensures
        device_views(r@) == usb_views(usb@) + device_views(virtual_devices@),
{
    let ghost entries = usb@;
    let mut r: Vec<MtpDeviceInfo> = Vec::new();
    let ghost mut done: int = 0;
    for d in it: usb.into_iter()
        invariant
            it.seq() == entries,
            done == it.index(),
            device_views(r@) == usb_views(entries.take(done)),
    {
        let ghost view = d@;
        r.push(MtpDeviceInfo::from_usb(d));
        proof {
            assert(usb_views(entries.take(done + 1)) =~= usb_views(entries.take(done)).push(view));
            done = done + 1;
            assert(device_views(r@) =~= usb_views(entries.take(done)));
        }
    }
    assert(entries.take(done) =~= entries);
    let ghost listed = r@;
    let mut virtual_devices = virtual_devices;
    let ghost extra = virtual_devices@;
    r.append(&mut virtual_devices);
    assert(device_views(listed + extra) =~= device_views(listed) + device_views(extra));
    r
}

/// Which device is meant.
#[derive(Debug)]
pub enum DeviceTarget {
    /// The first one there is.
    First,
    /// The one with this serial number.
    Serial(String),
    /// The one at this location.
    Location(u64),
}

/// A [`DeviceTarget`] with its text as a sequence of characters.
pub enum DeviceTargetView {
    First,
    Serial(Seq<char>),
    Location(u64),
}

impl View for DeviceTarget {
    type V = DeviceTargetView;

    open spec fn view(&self) -> DeviceTargetView {
        match self {
            DeviceTarget::First => DeviceTargetView::First,
            DeviceTarget::Serial(serial) => DeviceTargetView::Serial(serial@),
            DeviceTarget::Location(location_id) => DeviceTargetView::Location(*location_id),
        }
    }
}

/// Where the device that is meant stands among several: the first that fits.
pub open spec fn picked(devices: Seq<MtpDeviceInfoView>, target: DeviceTargetView) -> Option<int> {
    match target {
        DeviceTargetView::First => if devices.len() > 0 {
            Some(0)
        } else {
            None
        },
        DeviceTargetView::Serial(serial) => search::first_where(
            devices,
            |d: MtpDeviceInfoView| d.serial_number == Some(serial),
        ),
        DeviceTargetView::Location(location_id) => search::first_where(
            devices,
            |d: MtpDeviceInfoView| d.location_id == location_id,
        ),
    }
}

/// What looking for a device comes to.
pub open spec fn found(devices: Seq<MtpDeviceInfoView>, target: DeviceTargetView) -> Result<
    int,
    ErrorView,
> {
    match picked(devices, target) {
        Some(i) => Ok(i),
        None => Err(ErrorView::NoDevice),
    }
}

/// The place of a device as a number of the specification.
pub open spec fn place(r: Result<usize, Error>) -> Result<int, ErrorView> {
    match r {
        Ok(i) => Ok(i as int),
        Err(e) => Err(e@),
    }
}

/// The first of several devices.
pub fn find_first(devices: &[MtpDeviceInfo]) -> (r: Result<usize, Error>)
    ensures
        place(r) == found(device_views(devices@), DeviceTargetView::First),
        r matches Ok(i) ==> i < devices@.len(),
{
    if devices.len() > 0 {
        Ok(0)
    } else {
        Err(Error::NoDevice)
    }
}

/// The first device at a location.
pub fn find_by_location(devices: &[MtpDeviceInfo], location_id: u64) -> (r: Result<usize, Error>)
    ensures
        place(r) == found(device_views(devices@), DeviceTargetView::Location(location_id)),
        r matches Ok(i) ==> i < devices@.len(),
{
    let ghost all = device_views(devices@);
    let ghost p = |d: MtpDeviceInfoView| d.location_id == location_id;
    let mut i: usize = 0;
    while i < devices.len()
        invariant
            i <= devices@.len(),
            all == device_views(devices@),
            p == (|d: MtpDeviceInfoView| d.location_id == location_id),
            forall|j: int| 0 <= j < i ==> !p(#[trigger] all[j]),
        decreases devices.len() - i,
    {
        assert(all[i as int] == devices@[i as int]@);
        if devices[i].location_id == location_id {
            proof {
                assert(p(all[i as int]));
                search::lemma_first_where_at(all, p, i as int);
            }
            return Ok(i);
        }
        i = i + 1;
    }
    proof {
        search::lemma_first_where_none(all, p);
    }
    Err(Error::NoDevice)
}

/// Whether a device reports this serial number.
pub fn serial_matches(d: &MtpDeviceInfo, serial: &str) -> (r: bool)
    ensures
        r == (d@.serial_number == Some(serial@)),
{
    match &d.serial_number {
        Some(own) => text::same(own.as_str(), serial),
        None => false,
    }
}

/// The first device with a serial number.
pub fn find_by_serial(devices: &[MtpDeviceInfo], serial: &str) -> (r: Result<usize, Error>)
    ensures
        place(r) == found(device_views(devices@), DeviceTargetView::Serial(serial@)),
        r matches Ok(i) ==> i < devices@.len(),
{
    let ghost all = device_views(devices@);
    let ghost p = |d: MtpDeviceInfoView| d.serial_number == Some(serial@);
    let mut i: usize = 0;
    while i < devices.len()
        invariant
            i <= devices@.len(),
            all == device_views(devices@),
            p == (|d: MtpDeviceInfoView| d.serial_number == Some(serial@)),
            forall|j: int| 0 <= j < i ==> !p(#[trigger] all[j]),
        decreases devices.len() - i,
    {
        assert(all[i as int] == devices@[i as int]@);
        if serial_matches(&devices[i], serial) {
            proof {
                assert(p(all[i as int]));
                search::lemma_first_where_at(all, p, i as int);
            }
            return Ok(i);
        }
        i = i + 1;
    }
    proof {
        search::lemma_first_where_none(all, p);
    }
    Err(Error::NoDevice)
}

/// Where the device that is meant stands among several.
pub fn find_device(devices: &[MtpDeviceInfo], target: &DeviceTarget) -> (r: Result<usize, Error>)
    ensures
        place(r) == found(device_views(devices@), target@),
        r matches Ok(i) ==> i < devices@.len(),
{
    match target {
        DeviceTarget::First => find_first(devices),
        DeviceTarget::Serial(serial) => find_by_serial(devices, serial.as_str()),
        DeviceTarget::Location(location_id) => find_by_location(devices, *location_id),
    }
}

/// How the WPD backend enters into opening a device.
#[derive(Debug, Clone, Copy, PartialEq, Eq, Structural)]
pub enum WpdPlan {
    /// Try WPD before USB.
    Try,
    /// Go straight to USB.
    Skip,
    /// WPD was asked for where there is none.
    Refuse,
}

/// How a PTP session is opened.
#[derive(Debug, Clone, Copy, PartialEq, Eq, Structural)]
pub enum SessionPlan {
    /// Close a session that is already open, and open a fresh one with this ID.
    Fresh(u32),
    /// Keep a session with this ID if it is already open.
    Reuse(u32),
}

/// The bulk transfer timeout a builder starts with: 30 seconds.
pub const DEFAULT_TIMEOUT_MILLIS: u64 = 30_000;

/// Options for opening a device.
pub struct MtpDeviceBuilder {
    pub timeout: Duration,
    pub known_devices: Vec<(u16, u16)>,
    pub backend: Backend,
    pub reuse_existing_session_id: Option<u32>,
}

impl Default for MtpDeviceBuilder {
    fn default() -> (r: Self)
        ensures
            r.timeout == outside::milliseconds(DEFAULT_TIMEOUT_MILLIS),
            r.known_devices@ == Seq::<(u16, u16)>::empty(),
            r.backend == Backend::Auto,
            r.reuse_existing_session_id is None,
    {
        MtpDeviceBuilder::new()
    }
}

impl MtpDeviceBuilder {
    /// The defaults: thirty seconds of timeout, no known devices, the platform's backend, a fresh
    /// session.
    pub fn new() -> (r: Self)
        ensures
            r.timeout == outside::milliseconds(DEFAULT_TIMEOUT_MILLIS),
            r.known_devices@ == Seq::<(u16, u16)>::empty(),
            r.backend == Backend::Auto,
            r.reuse_existing_session_id is None,
    {
        MtpDeviceBuilder {
            timeout: outside::from_millis(DEFAULT_TIMEOUT_MILLIS),
            known_devices: Vec::new(),
            backend: Backend::Auto,
            reuse_existing_session_id: None,
        }
    }

    /// Choose which backend to open.
    pub fn backend(self, backend: Backend) -> (r: Self)
        ensures
            r.backend == backend,
            r.timeout == self.timeout,
            r.known_devices == self.known_devices,
            r.reuse_existing_session_id == self.reuse_existing_session_id,
    {
        MtpDeviceBuilder {
            timeout: self.timeout,
            known_devices: self.known_devices,
            backend,
            reuse_existing_session_id: self.reuse_existing_session_id,
        }
    }

    /// Set the bulk transfer timeout.
    pub fn timeout(self, timeout: Duration) -> (r: Self)
        ensures
            r.timeout == timeout,
            r.backend == self.backend,
            r.known_devices == self.known_devices,
            r.reuse_existing_session_id == self.reuse_existing_session_id,
    {
        MtpDeviceBuilder {
            timeout,
            known_devices: self.known_devices,
            backend: self.backend,
            reuse_existing_session_id: self.reuse_existing_session_id,
        }
    }

    /// Also accept devices with these vendor and product IDs, whatever their descriptors say.
    pub fn known_devices(self, known: &[(u16, u16)]) -> (r: Self)
        ensures
            r.known_devices@ == known@,
            r.timeout == self.timeout,
            r.backend == self.backend,
            r.reuse_existing_session_id == self.reuse_existing_session_id,
    {
        MtpDeviceBuilder {
            timeout: self.timeout,
            known_devices: vstd::slice::slice_to_vec(known),
            backend: self.backend,
            reuse_existing_session_id: self.reuse_existing_session_id,
        }
    }

    /// Reuse a device-side session with this ID when it is already open. Applies to USB only.
    pub fn reuse_existing_session(self, session_id: u32) -> (r: Self)
        ensures
            r.reuse_existing_session_id == Some(session_id),
            r.timeout == self.timeout,
            r.known_devices == self.known_devices,
            r.backend == self.backend,
    {
        MtpDeviceBuilder {
            timeout: self.timeout,
            known_devices: self.known_devices,
            backend: self.backend,
            reuse_existing_session_id: Some(session_id),
        }
    }

    /// How to open the PTP session.
    pub fn session_plan(&self) -> (r: SessionPlan)
        ensures
            r == (match self.reuse_existing_session_id {
                Some(id) => SessionPlan::Reuse(id),
                None => SessionPlan::Fresh(1),
            }),
    {
        match self.reuse_existing_session_id {
            Some(id) => SessionPlan::Reuse(id),
            None => SessionPlan::Fresh(1),
        }
    }

    /// Whether WPD is tried before USB on this platform.
    pub fn wpd_plan(&self, windows: bool) -> (r: WpdPlan)
        ensures
            r == wpd_choice(self.backend, windows),
    {
        wpd_plan_of(self.backend, windows)
    }

    /// Which USB device to reset, given whether the serial number belongs to a virtual one: a virtual
    /// device has no USB transport to reset.
    pub fn reset_by_serial(&self, is_virtual: bool, devices: &[MtpDeviceInfo], serial: &str) -> (r:
        Result<usize, Error>)
        ensures
            place(r) == (if is_virtual {
                Err(ErrorView::Unsupported)
            } else {
                found(device_views(devices@), DeviceTargetView::Serial(serial@))
            }),
            r matches Ok(i) ==> i < devices@.len(),
    {
        if is_virtual {
            return Err(Error::Unsupported);
        }
        find_by_serial(devices, serial)
    }

    /// Which USB device to reset, given whether the location belongs to a virtual one.
    pub fn reset_by_location(&self, is_virtual: bool, devices: &[MtpDeviceInfo], location_id: u64) -> (r:
        Result<usize, Error>)
        ensures
            place(r) == (if is_virtual {
                Err(ErrorView::Unsupported)
            } else {
                found(device_views(devices@), DeviceTargetView::Location(location_id))
            }),
            r matches Ok(i) ==> i < devices@.len(),
    {
        if is_virtual {
            return Err(Error::Unsupported);
        }
        find_by_location(devices, location_id)
    }

    /// Which USB device to reset where none is named.
    pub fn reset_first(&self, devices: &[MtpDeviceInfo]) -> (r: Result<usize, Error>)
        ensures
            place(r) == found(device_views(devices@), DeviceTargetView::First),
            r matches Ok(i) ==> i < devices@.len(),
    {
        find_first(devices)
    }

    /// Check a configuration before a virtual device is opened with it: a device without storage is
    /// refused.
    pub fn open_virtual(&self, config: &VirtualDeviceConfig) -> (r: Result<(), Error>)
        ensures
            crate::mtp::error::outcome(r) == (if config@.storages.len() == 0 {
                Err(
                    ErrorView::InvalidData {
                        message: "VirtualDeviceConfig requires at least one storage"@,
                    },
                )
            } else {
                Ok(())
            }),
    {
        if config.storages.is_empty() {
            return Err(Error::invalid_data("VirtualDeviceConfig requires at least one storage"));
        }
        Ok(())
    }
}

/// Whether WPD is tried before USB.
pub open spec fn wpd_choice(backend: Backend, windows: bool) -> WpdPlan {
    match backend {
        Backend::Usb => WpdPlan::Skip,
        Backend::Auto => if windows {
            WpdPlan::Try
        } else {
            WpdPlan::Skip
        },
        Backend::Wpd => if windows {
            WpdPlan::Try
        } else {
            WpdPlan::Refuse
        },
    }
}

/// Whether WPD is tried before USB.
pub fn wpd_plan_of(backend: Backend, windows: bool) -> (r: WpdPlan)
    ensures
        r == wpd_choice(backend, windows),
{
    match backend {
        Backend::Auto => if windows {
            WpdPlan::Try
        } else {
            WpdPlan::Skip
        },
        Backend::Usb => WpdPlan::Skip,
        Backend::Wpd => if windows {
            WpdPlan::Try
        } else {
            WpdPlan::Refuse
        },
    }
}

/// Whether a failed WPD attempt leaves the device to USB.
pub open spec fn falls_back(backend: Backend, e: ErrorView) -> bool {
    backend != Backend::Wpd && e is NoDevice
}

/// Whether the device wants the header of a data phase sent in a transfer of its own.
pub fn needs_split_header(manufacturer: &str) -> (r: bool)
    ensures
        r == (manufacturer@ == "Garmin"@),
{
    text::same(manufacturer, "Garmin")
}

/// An open device: its identity and what it supports.
#[derive(Debug)]
pub struct MtpDevice {
    pub device_info: DeviceInfo,
    pub capabilities: Capabilities,
}

impl MtpDevice {
    /// Options for opening a device.
    pub fn builder() -> (r: MtpDeviceBuilder)
        ensures
            r.timeout == outside::milliseconds(DEFAULT_TIMEOUT_MILLIS),
            r.known_devices@ == Seq::<(u16, u16)>::empty(),
            r.backend == Backend::Auto,
            r.reuse_existing_session_id is None,
    {
        MtpDeviceBuilder::new()
    }

    /// Device identity.
    pub fn device_info(&self) -> (r: &DeviceInfo)
        ensures
            *r == self.device_info,
    {
        &self.device_info
    }

    /// What this device supports.
    pub fn capabilities(&self) -> (r: &Capabilities)
        ensures
            *r == self.capabilities,
    {
        &self.capabilities
    }

    /// Whether the device supports renaming objects.
    pub fn supports_rename(&self) -> (r: bool)
        ensures
            r == self.capabilities.can_rename,
    {
        self.capabilities.can_rename
    }

    /// Whether the device supports creating objects.
    pub fn supports_upload(&self) -> (r: bool)
        ensures
            r == self.capabilities.can_upload,
    {
        self.capabilities.can_upload
    }
}

} // verus!
