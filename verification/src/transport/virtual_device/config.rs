//! Configuration types for virtual MTP devices.

use vstd::prelude::*;

use crate::outside;
use crate::text;
use std::time::Duration;

verus! {

/// Configuration for a virtual MTP device, which works on local directories instead of USB hardware.
///
/// Build one from the default and set only the fields that matter. Storages have no honest default:
/// only the caller knows which directory backs one.
#[derive(Debug)]
pub struct VirtualDeviceConfig {
    /// Manufacturer name the device reports.
    pub manufacturer: String,
    /// Model name the device reports.
    pub model: String,
    /// Serial number of the device.
    pub serial: String,
    /// Storage configurations. At least one is required.
    pub storages: Vec<VirtualStorageConfig>,
    /// Whether the device advertises renaming.
    pub supports_rename: bool,
    /// Whether the device advertises `GetPartialObject64`. The 32-bit operation is always advertised.
    pub supports_partial_object_64: bool,
    /// How long a wait for an event lasts when none is pending.
    pub event_poll_interval: Duration,
    /// Whether to watch the backing directories for changes made behind the device's back.
    pub watch_backing_dirs: bool,
    /// Storage-relative paths whose `GetObjectInfo` answers `GeneralError`, while the objects stay
    /// present and readable otherwise.
    pub undescribable_objects: Vec<String>,
}

/// Configuration for one storage of a virtual device.
#[derive(Debug)]
pub struct VirtualStorageConfig {
    /// Human-readable storage description.
    pub description: String,
    /// Maximum storage capacity in bytes.
    pub capacity: u64,
    /// Local directory behind this storage.
    pub backing_dir: String,
    /// Whether writes are refused.
    pub read_only: bool,
}

/// A [`VirtualStorageConfig`] with its texts as sequences of characters.
pub struct VirtualStorageConfigView {
    pub description: Seq<char>,
    pub capacity: u64,
    pub backing_dir: Seq<char>,
    pub read_only: bool,
}

impl View for VirtualStorageConfig {
    type V = VirtualStorageConfigView;

    open spec fn view(&self) -> VirtualStorageConfigView {
        VirtualStorageConfigView {
            description: self.description@,
            capacity: self.capacity,
            backing_dir: self.backing_dir@,
            read_only: self.read_only,
        }
    }
}

/// A [`VirtualDeviceConfig`] with its parts as views.
pub struct VirtualDeviceConfigView {
    pub manufacturer: Seq<char>,
    pub model: Seq<char>,
    pub serial: Seq<char>,
    pub storages: Seq<VirtualStorageConfigView>,
    pub supports_rename: bool,
    pub supports_partial_object_64: bool,
    pub event_poll_interval: Duration,
    pub watch_backing_dirs: bool,
    pub undescribable_objects: Seq<Seq<char>>,
}

/// Storage configurations as views.
pub open spec fn storage_views(storages: Seq<VirtualStorageConfig>) -> Seq<VirtualStorageConfigView> {
    storages.map_values(|s: VirtualStorageConfig| s@)
}

impl View for VirtualDeviceConfig {
    type V = VirtualDeviceConfigView;

    open spec fn view(&self) -> VirtualDeviceConfigView {
        VirtualDeviceConfigView {
            manufacturer: self.manufacturer@,
            model: self.model@,
            serial: self.serial@,
            storages: storage_views(self.storages@),
            supports_rename: self.supports_rename,
            supports_partial_object_64: self.supports_partial_object_64,
            event_poll_interval: self.event_poll_interval,
            watch_backing_dirs: self.watch_backing_dirs,
            undescribable_objects: text::views(self.undescribable_objects@),
        }
    }
}

impl Clone for VirtualStorageConfig {
    fn clone(&self) -> (r: Self)
        ensures
            r@ == self@,
    {
        VirtualStorageConfig {
            description: self.description.clone(),
            capacity: self.capacity,
            backing_dir: self.backing_dir.clone(),
            read_only: self.read_only,
        }
    }
}

impl Clone for VirtualDeviceConfig {
    fn clone(&self) -> (r: Self)
        ensures
            r@ == self@,
    {
        let storages = self.storages.clone();
        let undescribable_objects = self.undescribable_objects.clone();
        assert(storage_views(storages@) =~= storage_views(self.storages@));
        assert(text::views(undescribable_objects@) =~= text::views(self.undescribable_objects@));
        VirtualDeviceConfig {
            manufacturer: self.manufacturer.clone(),
            model: self.model.clone(),
            serial: self.serial.clone(),
            storages,
            supports_rename: self.supports_rename,
            supports_partial_object_64: self.supports_partial_object_64,
            event_poll_interval: self.event_poll_interval,
            watch_backing_dirs: self.watch_backing_dirs,
            undescribable_objects,
        }
    }
}

/// How long the default device waits for an event.
pub const DEFAULT_EVENT_POLL_MILLIS: u64 = 50;

impl Default for VirtualDeviceConfig {
    /// An obviously fake identity, the behaviour of a modern phone, and no storage.
    fn default() -> (r: Self)
        ensures
            r@ == (VirtualDeviceConfigView {
                manufacturer: "mtp-rs"@,
                model: "Virtual Device"@,
                serial: "virtual-0001"@,
                storages: Seq::empty(),
                supports_rename: true,
                supports_partial_object_64: true,
                event_poll_interval: outside::milliseconds(DEFAULT_EVENT_POLL_MILLIS),
                watch_backing_dirs: true,
                undescribable_objects: Seq::empty(),
            }),
    {
        let r = VirtualDeviceConfig {
            manufacturer: "mtp-rs".to_owned(),
            model: "Virtual Device".to_owned(),
            serial: "virtual-0001".to_owned(),
            storages: Vec::new(),
            supports_rename: true,
            supports_partial_object_64: true,
            event_poll_interval: outside::from_millis(DEFAULT_EVENT_POLL_MILLIS),
            watch_backing_dirs: true,
            undescribable_objects: Vec::new(),
        };
        assert(r@.storages =~= Seq::empty());
        assert(r@.undescribable_objects =~= Seq::empty());
        r
    }
}

} // verus!
