//! The registries of virtual devices: those that can be discovered, and those that are open.

use vstd::prelude::*;

use crate::mtp::device::{MtpDeviceInfo, MtpDeviceInfoView};
use crate::mtp::types::{MtpMatchReason, ObjectHandle};
use crate::ptp::PtpHandle;
use crate::search;
use crate::text;
use crate::transport::virtual_device::config::{VirtualDeviceConfig, VirtualDeviceConfigView};
use crate::transport::virtual_device::state;
use crate::transport::virtual_device::state::{RescanSummary, TrackedObjectView, VirtualDeviceState,
    VirtualDeviceStateView};
use crate::transport::virtual_device::tree;
use crate::transport::virtual_device::tree::{StorageListing, StorageListingView};

verus! {

/// Base of the locations of virtual devices, far above those of real ones.
pub const VIRTUAL_LOCATION_BASE: u64 = 0xFFFF_0000_0000_0000;

/// How many virtual devices can be registered before their locations run out.
pub const VIRTUAL_LOCATION_COUNT: u64 = 0x1_0000_0000_0000;

/// A registered virtual device.
pub struct VirtualRegistration {
    pub info: MtpDeviceInfo,
    pub config: VirtualDeviceConfig,
}

/// A [`VirtualRegistration`] with its parts as views.
pub struct VirtualRegistrationView {
    pub info: MtpDeviceInfoView,
    pub config: VirtualDeviceConfigView,
}

impl View for VirtualRegistration {
    type V = VirtualRegistrationView;

    open spec fn view(&self) -> VirtualRegistrationView {
        VirtualRegistrationView { info: self.info@, config: self.config@ }
    }
}

/// The devices that can be discovered, and how many have ever been registered.
pub struct Registry {
    pub devices: Vec<VirtualRegistration>,
    pub next_index: u64,
}

/// A [`Registry`] with its parts as views.
pub struct RegistryView {
    pub devices: Seq<VirtualRegistrationView>,
    pub next_index: int,
}

/// Registrations as views.
pub open spec fn registration_views(devices: Seq<VirtualRegistration>) -> Seq<
    VirtualRegistrationView,
> {
    devices.map_values(|d: VirtualRegistration| d@)
}

impl View for Registry {
    type V = RegistryView;

    open spec fn view(&self) -> RegistryView {
        RegistryView {
            devices: registration_views(self.devices@),
            next_index: self.next_index as int,
        }
    }
}

/// What discovery says of a virtual device registered as number `index`.
pub open spec fn virtual_info(config: VirtualDeviceConfigView, index: int) -> MtpDeviceInfoView {
    MtpDeviceInfoView {
        vendor_id: 0xFFFF,
        product_id: 0x0001,
        manufacturer: Some(config.manufacturer),
        product: Some(config.model),
        serial_number: Some(config.serial),
        location_id: (VIRTUAL_LOCATION_BASE + index) as u64,
        speed: None,
        match_reason: MtpMatchReason::KnownVidPid,
    }
}

impl RegistryView {
    /// Every location was handed out by a registration, and to one device only.
    pub open spec fn wf(self) -> bool {
        &&& 0 <= self.next_index <= VIRTUAL_LOCATION_COUNT
        &&& forall|i: int|
            0 <= i < self.devices.len() ==> VIRTUAL_LOCATION_BASE <= (
            #[trigger] self.devices[i]).info.location_id < VIRTUAL_LOCATION_BASE + self.next_index
        &&& forall|i: int, j: int|
            0 <= i < j < self.devices.len() ==> (#[trigger] self.devices[i]).info.location_id != (
            #[trigger] self.devices[j]).info.location_id
    }

    /// The registry after one more device was registered.
    pub open spec fn with_device(self, config: VirtualDeviceConfigView) -> RegistryView {
        RegistryView {
            devices: self.devices.push(
                VirtualRegistrationView { info: virtual_info(config, self.next_index), config },
            ),
            next_index: self.next_index + 1,
        }
    }

    /// The registry without whatever is at a location.
    pub open spec fn without_location(self, location_id: u64) -> RegistryView {
        RegistryView {
            devices: self.devices.filter(
                |d: VirtualRegistrationView| d.info.location_id != location_id,
            ),
            ..self
        }
    }

    /// The configuration of the first device at a location.
    pub open spec fn config_at(self, location_id: u64) -> Option<VirtualDeviceConfigView> {
        match search::first_where(
            self.devices,
            |d: VirtualRegistrationView| d.info.location_id == location_id,
        ) {
            Some(i) => Some(self.devices[i].config),
            None => None,
        }
    }

    /// The configuration of the first device with a serial number.
    pub open spec fn config_of(self, serial: Seq<char>) -> Option<VirtualDeviceConfigView> {
        match search::first_where(
            self.devices,
            |d: VirtualRegistrationView| d.info.serial_number == Some(serial),
        ) {
            Some(i) => Some(self.devices[i].config),
            None => None,
        }
    }
}

impl Registry {
    /// A registry without devices.
    pub fn new() -> (r: Self)
        ensures
            r@ == (RegistryView { devices: Seq::empty(), next_index: 0 }),
            r@.wf(),
    {
        let r = Registry { devices: Vec::new(), next_index: 0 };
        assert(r@.devices =~= Seq::empty());
        r
    }
}

/// Register a virtual device, so that it can be discovered. Returns what discovery will say of it, with
/// a location that no other virtual device has had.
pub fn register_virtual_device(registry: &mut Registry, config: &VirtualDeviceConfig) -> (r:
    MtpDeviceInfo)
    requires
        old(registry).next_index < VIRTUAL_LOCATION_COUNT,
    ensures
        r@ == virtual_info(config@, old(registry)@.next_index),
        final(registry)@ == old(registry)@.with_device(config@),
        old(registry)@.wf() ==> final(registry)@.wf(),
{
    let ghost before = registry@;
    let index: u64 = registry.next_index;
    registry.next_index = index + 1;
    let info = MtpDeviceInfo {
        vendor_id: 0xFFFF,
        product_id: 0x0001,
        manufacturer: Some(config.manufacturer.clone()),
        product: Some(config.model.clone()),
        serial_number: Some(config.serial.clone()),
        location_id: VIRTUAL_LOCATION_BASE + index,
        speed: None,
        match_reason: MtpMatchReason::KnownVidPid,
    };
    let registration = VirtualRegistration { info: info.clone(), config: config.clone() };
    let ghost added = registration@;
    registry.devices.push(registration);
    assert(registry@.devices =~= before.devices.push(added));
    info
}

/// Remove a registered virtual device by its location.
pub fn unregister_virtual_device(registry: &mut Registry, location_id: u64)
    ensures
        final(registry)@ == old(registry)@.without_location(location_id),
{
    let ghost before = registry@;
    let ghost p = |d: VirtualRegistrationView| d.info.location_id != location_id;
    let mut devices: Vec<VirtualRegistration> = Vec::new();
    std::mem::swap(&mut devices, &mut registry.devices);
    let ghost all = devices@;
    let ghost views = before.devices;
    let ghost mut done: int = 0;
    proof {
        assert(views =~= registration_views(all));
        assert(views.take(0) =~= Seq::empty());
        reveal(Seq::filter);
        assert(registry@.devices =~= views.take(0).filter(p));
    }
    for device in it: devices.into_iter()
        invariant
            it.seq() == all,
            done == it.index(),
            views == registration_views(all),
            p == (|d: VirtualRegistrationView| d.info.location_id != location_id),
            registry@ == (RegistryView { devices: views.take(done).filter(p), ..before }),
    {
        let ghost view = device@;
        let ghost now = registry@;
        proof {
            assert(views[done] == view);
            assert(views.take(done + 1).drop_last() =~= views.take(done));
            assert(views.take(done + 1).last() == view);
            reveal(Seq::filter);
        }
        if device.info.location_id != location_id {
            assert(p(view));
            registry.devices.push(device);
            assert(registry@.devices =~= now.devices.push(view));
        } else {
            assert(!p(view));
        }
        proof {
            done = done + 1;
        }
    }
    assert(views.take(done) =~= views);
}

/// What discovery says of the registered virtual devices.
pub fn list_virtual_devices(registry: &Registry) -> (r: Vec<MtpDeviceInfo>)
    ensures
        crate::mtp::device::device_views(r@) == registry@.devices.map_values(
            |d: VirtualRegistrationView| d.info,
        ),
{
    let mut r: Vec<MtpDeviceInfo> = Vec::new();
    let mut i: usize = 0;
    while i < registry.devices.len()
        invariant
            i <= registry.devices@.len(),
            r@.len() == i,
            forall|j: int| 0 <= j < i ==> (#[trigger] r@[j])@ == registry@.devices[j].info,
        decreases registry.devices.len() - i,
    {
        r.push(registry.devices[i].info.clone());
        i = i + 1;
    }
    assert(crate::mtp::device::device_views(r@) =~= registry@.devices.map_values(
        |d: VirtualRegistrationView| d.info,
    ));
    r
}

/// A configuration that may be missing, as a view.
pub open spec fn config_view(config: Option<VirtualDeviceConfig>) -> Option<VirtualDeviceConfigView> {
    match config {
        Some(config) => Some(config@),
        None => None,
    }
}

/// The configuration of the virtual device at a location.
pub fn find_virtual_config_by_location(registry: &Registry, location_id: u64) -> (r: Option<
    VirtualDeviceConfig,
>)
    ensures
        config_view(r) == registry@.config_at(location_id),
{
    let ghost p = |d: VirtualRegistrationView| d.info.location_id == location_id;
    let mut i: usize = 0;
    while i < registry.devices.len()
        invariant
            i <= registry.devices@.len(),
            p == (|d: VirtualRegistrationView| d.info.location_id == location_id),
            forall|j: int| 0 <= j < i ==> !p(#[trigger] registry@.devices[j]),
        decreases registry.devices.len() - i,
    {
        if registry.devices[i].info.location_id == location_id {
            proof {
                assert(p(registry@.devices[i as int]));
                search::lemma_first_where_at(registry@.devices, p, i as int);
            }
            return Some(registry.devices[i].config.clone());
        }
        assert(!p(registry@.devices[i as int]));
        i = i + 1;
    }
    proof {
        search::lemma_first_where_none(registry@.devices, p);
    }
    None
}

/// The configuration of the virtual device with a serial number.
pub fn find_virtual_config_by_serial(registry: &Registry, serial: &str) -> (r: Option<
    VirtualDeviceConfig,
>)
    ensures
        config_view(r) == registry@.config_of(serial@),
{
    let ghost p = |d: VirtualRegistrationView| d.info.serial_number == Some(serial@);
    let mut i: usize = 0;
    while i < registry.devices.len()
        invariant
            i <= registry.devices@.len(),
            p == (|d: VirtualRegistrationView| d.info.serial_number == Some(serial@)),
            forall|j: int| 0 <= j < i ==> !p(#[trigger] registry@.devices[j]),
        decreases registry.devices.len() - i,
    {
        if crate::mtp::device::serial_matches(&registry.devices[i].info, serial) {
            proof {
                assert(p(registry@.devices[i as int]));
                search::lemma_first_where_at(registry@.devices, p, i as int);
            }
            return Some(registry.devices[i].config.clone());
        }
        assert(!p(registry@.devices[i as int]));
        i = i + 1;
    }
    proof {
        search::lemma_first_where_none(registry@.devices, p);
    }
    None
}

/// A device that was registered is found at the location it was given, and under its serial number
/// unless an earlier device has the same one.
pub proof fn law_registered_devices_are_found(registry: RegistryView, config: VirtualDeviceConfigView)
    requires
        registry.wf(),
        registry.next_index < VIRTUAL_LOCATION_COUNT,
    ensures
        registry.with_device(config).wf(),
        registry.with_device(config).config_at(
            virtual_info(config, registry.next_index).location_id,
        ) == Some(config),
        registry.config_of(config.serial) is None ==> registry.with_device(config).config_of(
            config.serial,
        ) == Some(config),
{
    let after = registry.with_device(config);
    let at = registry.devices.len() as int;
    let location_id = virtual_info(config, registry.next_index).location_id;
    let here = |d: VirtualRegistrationView| d.info.location_id == location_id;
    let named = |d: VirtualRegistrationView| d.info.serial_number == Some(config.serial);
    assert forall|i: int| 0 <= i < at implies !here(#[trigger] after.devices[i]) by {
        assert(after.devices[i] == registry.devices[i]);
    }
    search::lemma_first_where_at(after.devices, here, at);
    if registry.config_of(config.serial) is None {
        search::lemma_first_where(registry.devices, named);
        assert forall|i: int| 0 <= i < at implies !named(#[trigger] after.devices[i]) by {
            assert(after.devices[i] == registry.devices[i]);
        }
        search::lemma_first_where_at(after.devices, named, at);
    }
}

proof fn lemma_filter_keeps_order(
    devices: Seq<VirtualRegistrationView>,
    p: spec_fn(VirtualRegistrationView) -> bool,
)
    requires
        forall|i: int, j: int|
            0 <= i < j < devices.len() ==> (#[trigger] devices[i]).info.location_id != (
            #[trigger] devices[j]).info.location_id,
    ensures
        ({
            let out = devices.filter(p);
            &&& forall|i: int| 0 <= i < out.len() ==> devices.contains(#[trigger] out[i]) && p(out[i])
            &&& forall|i: int, j: int|
                0 <= i < j < out.len() ==> (#[trigger] out[i]).info.location_id != (
                #[trigger] out[j]).info.location_id
        }),
    decreases devices.len(),
{
    reveal(Seq::filter);
    if devices.len() > 0 {
        let rest = devices.drop_last();
        let sub = rest.filter(p);
        let out = devices.filter(p);
        lemma_filter_keeps_order(rest, p);
        assert forall|i: int| 0 <= i < out.len() implies devices.contains(#[trigger] out[i]) && p(
            out[i],
        ) by {
            if i < sub.len() {
                assert(out[i] == sub[i]);
                let k = choose|k: int| 0 <= k < rest.len() && rest[k] == sub[i];
                assert(devices[k] == out[i]);
            } else {
                assert(devices[devices.len() - 1] == out[i]);
            }
        }
        if p(devices.last()) {
            assert forall|i: int, j: int| 0 <= i < j < out.len() implies (
            #[trigger] out[i]).info.location_id != (#[trigger] out[j]).info.location_id by {
                assert(out[i] == sub[i]);
                if j < sub.len() {
                    assert(out[j] == sub[j]);
                } else {
                    assert(rest.contains(sub[i]));
                    let k = choose|k: int| 0 <= k < rest.len() && rest[k] == sub[i];
                    assert(devices[k] == out[i]);
                    assert(devices[devices.len() - 1] == out[j]);
                }
            }
        }
    }
}

/// A device that was unregistered is found no longer, and every other device is found as before.
pub proof fn law_unregistered_devices_are_gone(registry: RegistryView, location_id: u64, other: u64)
    requires
        registry.wf(),
    ensures
        registry.without_location(location_id).wf(),
        registry.without_location(location_id).config_at(location_id) is None,
        other != location_id ==> registry.without_location(location_id).config_at(other)
            == registry.config_at(other),
{
    let p = |d: VirtualRegistrationView| d.info.location_id != location_id;
    let here = |d: VirtualRegistrationView| d.info.location_id == location_id;
    let there = |d: VirtualRegistrationView| d.info.location_id == other;
    let after = registry.without_location(location_id);
    lemma_filter_keeps_order(registry.devices, p);
    assert forall|i: int| 0 <= i < after.devices.len() implies VIRTUAL_LOCATION_BASE <= (
    #[trigger] after.devices[i]).info.location_id < VIRTUAL_LOCATION_BASE + after.next_index by {
        let k = choose|k: int|
            0 <= k < registry.devices.len() && registry.devices[k] == after.devices[i];
        assert(registry.devices[k] == after.devices[i]);
    }
    assert forall|i: int| 0 <= i < after.devices.len() implies !here(#[trigger] after.devices[i]) by {
        assert(p(after.devices[i]));
    }
    search::lemma_first_where_none(after.devices, here);
    if other != location_id {
        search::lemma_first_where(registry.devices, there);
        search::lemma_first_where(after.devices, there);
        match search::first_where(registry.devices, there) {
            Some(k) => {
                registry.devices.lemma_filter_contains(p, k);
                let i = choose|i: int|
                    0 <= i < after.devices.len() && after.devices[i] == registry.devices[k];
                assert(there(after.devices[i]));
                let found = search::first_where(after.devices, there)->0;
                if found < i {
                    assert(after.devices[found].info.location_id
                        != after.devices[i].info.location_id);
                }
            },
            None => {
                if search::first_where(after.devices, there) is Some {
                    let i = search::first_where(after.devices, there)->0;
                    assert(registry.devices.contains(after.devices[i]));
                    let k = choose|k: int|
                        0 <= k < registry.devices.len() && registry.devices[k] == after.devices[i];
                    assert(there(registry.devices[k]));
                }
            },
        }
    }
}

/// A change of the registry.
pub enum RegistryChange {
    Register(VirtualDeviceConfigView),
    Unregister(u64),
}

/// The registry after changes, one after another, to an empty one.
pub open spec fn registry_run(changes: Seq<RegistryChange>) -> RegistryView
    decreases changes.len(),
{
    if changes.len() == 0 {
        RegistryView { devices: Seq::empty(), next_index: 0 }
    } else {
        let before = registry_run(changes.drop_last());
        match changes.last() {
            RegistryChange::Register(config) => before.with_device(config),
            RegistryChange::Unregister(location_id) => before.without_location(location_id),
        }
    }
}

/// The locations that changes hand out, in the order of the registrations.
pub open spec fn locations_given(changes: Seq<RegistryChange>) -> Seq<u64>
    decreases changes.len(),
{
    if changes.len() == 0 {
        Seq::empty()
    } else {
        let before = changes.drop_last();
        match changes.last() {
            RegistryChange::Register(config) => locations_given(before).push(
                virtual_info(config, registry_run(before).next_index).location_id,
            ),
            RegistryChange::Unregister(_) => locations_given(before),
        }
    }
}

/// Locations are never handed out twice: over any run of registrations and removals each location given is
/// greater than all that were given before it, whatever was unregistered in between.
pub proof fn law_locations_are_never_reused(changes: Seq<RegistryChange>)
    requires
        locations_given(changes).len() <= VIRTUAL_LOCATION_COUNT,
    ensures
        registry_run(changes).wf(),
        registry_run(changes).next_index == locations_given(changes).len(),
        forall|i: int|
            0 <= i < locations_given(changes).len() ==> #[trigger] locations_given(changes)[i]
                == VIRTUAL_LOCATION_BASE + i,
        forall|i: int, j: int|
            0 <= i < j < locations_given(changes).len() ==> #[trigger] locations_given(changes)[i]
                < #[trigger] locations_given(changes)[j],
    decreases changes.len(),
{
    if changes.len() > 0 {
        let before = changes.drop_last();
        law_locations_are_never_reused(before);
        match changes.last() {
            RegistryChange::Register(config) => {
                law_registered_devices_are_found(registry_run(before), config);
            },
            RegistryChange::Unregister(location_id) => {
                law_unregistered_devices_are_gone(registry_run(before), location_id, location_id);
            },
        }
    }
}

/// An open device: its serial number, and the slot that holds its state.
pub struct ActiveEntry {
    pub serial: String,
    pub slot: usize,
}

/// An [`ActiveEntry`] with its serial number as a sequence of characters.
pub struct ActiveEntryView {
    pub serial: Seq<char>,
    pub slot: int,
}

impl View for ActiveEntry {
    type V = ActiveEntryView;

    open spec fn view(&self) -> ActiveEntryView {
        ActiveEntryView { serial: self.serial@, slot: self.slot as int }
    }
}

/// The open devices. A slot outlives its entry, so that a guard taken before a device was closed still
/// has a state to act on.
pub struct ActiveStates {
    pub entries: Vec<ActiveEntry>,
    pub slots: Vec<VirtualDeviceState>,
}

/// An [`ActiveStates`] with its parts as views.
pub struct ActiveStatesView {
    pub entries: Seq<ActiveEntryView>,
    pub slots: Seq<VirtualDeviceStateView>,
}

/// Entries as views.
pub open spec fn entry_views(entries: Seq<ActiveEntry>) -> Seq<ActiveEntryView> {
    entries.map_values(|e: ActiveEntry| e@)
}

/// Device states as views.
pub open spec fn state_views(slots: Seq<VirtualDeviceState>) -> Seq<VirtualDeviceStateView> {
    slots.map_values(|s: VirtualDeviceState| s@)
}

impl View for ActiveStates {
    type V = ActiveStatesView;

    open spec fn view(&self) -> ActiveStatesView {
        ActiveStatesView { entries: entry_views(self.entries@), slots: state_views(self.slots@) }
    }
}

impl ActiveStatesView {
    /// Every entry has its slot.
    pub open spec fn wf(self) -> bool {
        forall|i: int|
            0 <= i < self.entries.len() ==> 0 <= (#[trigger] self.entries[i]).slot < self.slots.len()
    }

    /// Where the first open device with a serial number stands among the entries.
    pub open spec fn entry_of(self, serial: Seq<char>) -> Option<int> {
        search::first_where(self.entries, |e: ActiveEntryView| e.serial == serial)
    }

    /// The slot of the first open device with a serial number.
    pub open spec fn slot_of(self, serial: Seq<char>) -> Option<int> {
        match self.entry_of(serial) {
            Some(i) => Some(self.entries[i].slot),
            None => None,
        }
    }

    /// The open devices without the first one that has a serial number. Its slot stays.
    pub open spec fn closed(self, serial: Seq<char>) -> ActiveStatesView {
        match self.entry_of(serial) {
            Some(i) => ActiveStatesView { entries: self.entries.remove(i), ..self },
            None => self,
        }
    }

    /// The open devices with one more.
    pub open spec fn opened(self, serial: Seq<char>, device: VirtualDeviceStateView) -> ActiveStatesView {
        ActiveStatesView {
            entries: self.entries.push(ActiveEntryView { serial, slot: self.slots.len() as int }),
            slots: self.slots.push(device),
        }
    }

    /// The same devices, with another state in one slot.
    pub open spec fn with_state(self, slot: int, device: VirtualDeviceStateView) -> ActiveStatesView {
        ActiveStatesView { slots: self.slots.update(slot, device), ..self }
    }
}

impl ActiveStates {
    /// No open devices.
    pub fn new() -> (r: Self)
        ensures
            r@ == (ActiveStatesView { entries: Seq::empty(), slots: Seq::empty() }),
            r@.wf(),
    {
        let r = ActiveStates { entries: Vec::new(), slots: Vec::new() };
        assert(r@.entries =~= Seq::empty());
        assert(r@.slots =~= Seq::empty());
        r
    }

    /// Where the first open device with a serial number stands among the entries.
    fn position(&self, serial: &str) -> (r: Option<usize>)
        ensures
            self@.entry_of(serial@) == (match r {
                Some(i) => Some(i as int),
                None => None,
            }),
            r matches Some(i) ==> i < self.entries@.len(),
    {
        let ghost p = |e: ActiveEntryView| e.serial == serial@;
        let mut i: usize = 0;
        while i < self.entries.len()
            invariant
                i <= self.entries@.len(),
                p == (|e: ActiveEntryView| e.serial == serial@),
                forall|j: int| 0 <= j < i ==> !p(#[trigger] self@.entries[j]),
            decreases self.entries.len() - i,
        {
            if text::same(self.entries[i].serial.as_str(), serial) {
                proof {
                    assert(p(self@.entries[i as int]));
                    search::lemma_first_where_at(self@.entries, p, i as int);
                }
                return Some(i);
            }
            assert(!p(self@.entries[i as int]));
            i = i + 1;
        }
        proof {
            search::lemma_first_where_none(self@.entries, p);
        }
        None
    }

    /// The slot of the first open device with a serial number.
    fn find(&self, serial: &str) -> (r: Option<usize>)
        requires
            self@.wf(),
        ensures
            self@.slot_of(serial@) == (match r {
                Some(k) => Some(k as int),
                None => None,
            }),
            r matches Some(k) ==> k < self.slots@.len(),
    {
        match self.position(serial) {
            Some(i) => {
                assert(self@.entries[i as int].slot < self@.slots.len());
                Some(self.entries[i].slot)
            },
            None => None,
        }
    }
}

/// Enter an open device. Returns the slot of its state.
pub fn register_active_state(active: &mut ActiveStates, serial: &str, device: VirtualDeviceState) -> (r:
    usize)
    requires
        old(active)@.wf(),
    ensures
        final(active)@.wf(),
        r == old(active)@.slots.len(),
        final(active)@ == old(active)@.opened(serial@, device@),
{
    let ghost before = active@;
    let slot: usize = active.slots.len();
    let entry = ActiveEntry { serial: serial.to_owned(), slot };
    let ghost added = entry@;
    let ghost view = device@;
    active.entries.push(entry);
    active.slots.push(device);
    assert(active@.entries =~= before.entries.push(added));
    assert(active@.slots =~= before.slots.push(view));
    slot
}

/// Take out the first open device with a serial number.
pub fn unregister_active_state(active: &mut ActiveStates, serial: &str)
    requires
        old(active)@.wf(),
    ensures
        final(active)@.wf(),
        final(active)@ == old(active)@.closed(serial@),
{
    let ghost before = active@;
    match active.position(serial) {
        Some(i) => {
            let _ = active.entries.remove(i);
            assert(active@.entries =~= before.entries.remove(i as int));
        },
        None => {},
    }
}

/// A hold on the filesystem watcher of a device. The watcher runs again once every guard has been
/// released.
#[derive(Debug)]
pub struct WatcherGuard {
    pub slot: usize,
}

/// The state of a device whose watcher one more guard holds.
pub open spec fn paused(device: VirtualDeviceStateView) -> VirtualDeviceStateView {
    VirtualDeviceStateView { pause_count: device.pause_count + 1, ..device }
}

/// The state of a device whose watcher one guard has let go of.
pub open spec fn resumed(device: VirtualDeviceStateView) -> VirtualDeviceStateView {
    VirtualDeviceStateView {
        pause_count: if device.pause_count > 0 {
            device.pause_count - 1
        } else {
            0
        },
        ..device
    }
}

/// Pause the filesystem watcher of an open device. While at least one guard is held, changes are
/// remembered and dropped. Returns `None` if no open device has that serial number.
pub fn pause_watcher(active: &mut ActiveStates, serial: &str) -> (r: Option<WatcherGuard>)
    requires
        old(active)@.wf(),
        old(active)@.slot_of(serial@) matches Some(k) ==> old(active)@.slots[k].pause_count
            < usize::MAX,
    ensures
        final(active)@.wf(),
        match old(active)@.slot_of(serial@) {
            Some(k) => {
                &&& r == Some(WatcherGuard { slot: k as usize })
                &&& final(active)@ == old(active)@.with_state(k, paused(old(active)@.slots[k]))
            },
            None => r is None && final(active)@ == old(active)@,
        },
{
    match active.find(serial) {
        Some(k) => {
            let ghost before = active@;
            assert(before.slots[k as int] == active.slots@[k as int]@);
            active.slots[k].pause();
            assert(active@.slots =~= before.with_state(k as int, active@.slots[k as int]).slots);
            Some(WatcherGuard { slot: k })
        },
        None => None,
    }
}

/// Release a guard.
pub fn release_watcher(active: &mut ActiveStates, guard: WatcherGuard)
    requires
        old(active)@.wf(),
        guard.slot < old(active)@.slots.len(),
    ensures
        final(active)@.wf(),
        final(active)@ == old(active)@.with_state(
            guard.slot as int,
            resumed(old(active)@.slots[guard.slot as int]),
        ),
{
    let ghost before = active@;
    let k: usize = guard.slot;
    active.slots[k].resume();
    assert(active@.slots =~= before.with_state(k as int, active@.slots[k as int]).slots);
}

/// What happens to the guards of one watcher.
pub enum GuardChange {
    Taken,
    Released,
}

/// How many guards are held after changes, one after another.
pub open spec fn guards_held(changes: Seq<GuardChange>) -> int
    decreases changes.len(),
{
    if changes.len() == 0 {
        0
    } else {
        guards_held(changes.drop_last()) + (match changes.last() {
            GuardChange::Taken => 1int,
            GuardChange::Released => -1int,
        })
    }
}

/// Whether every guard that is released was held.
pub open spec fn is_guard_run(changes: Seq<GuardChange>) -> bool
    decreases changes.len(),
{
    changes.len() == 0 || (is_guard_run(changes.drop_last()) && (changes.last() is Released
        ==> guards_held(changes.drop_last()) > 0))
}

/// A device after changes to the guards of its watcher.
pub open spec fn guarded(
    device: VirtualDeviceStateView,
    changes: Seq<GuardChange>,
) -> VirtualDeviceStateView
    decreases changes.len(),
{
    if changes.len() == 0 {
        device
    } else {
        let before = guarded(device, changes.drop_last());
        match changes.last() {
            GuardChange::Taken => paused(before),
            GuardChange::Released => resumed(before),
        }
    }
}

/// Guards compose: over any run the watcher counts exactly the guards that are held, in whatever order they
/// were taken and released, and nothing else of the device changes. So a watcher that was running is running
/// again exactly when all of them have been released.
pub proof fn law_guards_compose(device: VirtualDeviceStateView, changes: Seq<GuardChange>)
    requires
        device.pause_count >= 0,
        is_guard_run(changes),
    ensures
        guards_held(changes) >= 0,
        guarded(device, changes) == (VirtualDeviceStateView {
            pause_count: device.pause_count + guards_held(changes),
            ..device
        }),
        guards_held(changes) == 0 ==> guarded(device, changes) == device,
        device.pause_count == 0 ==> (guarded(device, changes).pause_count > 0 <==> guards_held(
            changes,
        ) > 0),
    decreases changes.len(),
{
    if changes.len() > 0 {
        law_guards_compose(device, changes.drop_last());
    }
}

/// The paths the watcher has dropped while paused, oldest first; none if no open device has that serial
/// number.
pub fn dropped_paths_since_pause(active: &ActiveStates, serial: &str) -> (r: Vec<String>)
    requires
        active@.wf(),
    ensures
        text::views(r@) == active@.dropped_of(serial@),
{
    match active.find(serial) {
        Some(k) => active.slots[k].dropped(),
        None => {
            let r: Vec<String> = Vec::new();
            assert(text::views(r@) =~= Seq::empty());
            r
        },
    }
}

impl ActiveStatesView {
    /// The paths an open device has dropped.
    pub open spec fn dropped_of(self, serial: Seq<char>) -> Seq<Seq<char>> {
        match self.slot_of(serial) {
            Some(k) => self.slots[k].dropped_paths,
            None => Seq::empty(),
        }
    }
}

/// Whether one of several paths ends with `suffix`.
pub open spec fn one_ends_with(paths: Seq<Seq<char>>, suffix: Seq<char>) -> bool {
    exists|i: int| 0 <= i < paths.len() && suffix.is_suffix_of(#[trigger] paths[i])
}

/// Whether any path the watcher has dropped while paused ends with `suffix`.
pub fn was_path_dropped(active: &ActiveStates, serial: &str, suffix: &str) -> (r: bool)
    requires
        active@.wf(),
    ensures
        r == one_ends_with(active@.dropped_of(serial@), suffix@),
{
    let paths = dropped_paths_since_pause(active, serial);
    let ghost views = active@.dropped_of(serial@);
    let mut i: usize = 0;
    while i < paths.len()
        invariant
            i <= paths@.len(),
            views == active@.dropped_of(serial@),
            views == text::views(paths@),
            forall|j: int| 0 <= j < i ==> !suffix@.is_suffix_of(#[trigger] views[j]),
        decreases paths.len() - i,
    {
        if text::ends_with(paths[i].as_str(), suffix) {
            assert(suffix@.is_suffix_of(views[i as int]));
            return true;
        }
        assert(!suffix@.is_suffix_of(views[i as int]));
        i = i + 1;
    }
    false
}

/// Forget the paths a device has dropped. Without an open device of that serial number nothing happens.
pub fn clear_dropped_paths(active: &mut ActiveStates, serial: &str)
    requires
        old(active)@.wf(),
    ensures
        final(active)@.wf(),
        final(active)@ == (match old(active)@.slot_of(serial@) {
            Some(k) => old(active)@.with_state(
                k,
                VirtualDeviceStateView { dropped_paths: Seq::empty(), ..old(active)@.slots[k] },
            ),
            None => old(active)@,
        }),
{
    match active.find(serial) {
        Some(k) => {
            let ghost before = active@;
            active.slots[k].clear_dropped();
            assert(active@.slots =~= before.with_state(k as int, active@.slots[k as int]).slots);
        },
        None => {},
    }
}

/// What the ring of dropped paths holds after several more were dropped.
pub open spec fn remembered_all(paths: Seq<Seq<char>>, more: Seq<Seq<char>>) -> Seq<Seq<char>>
    decreases more.len(),
{
    if more.len() == 0 {
        paths
    } else {
        state::remembered(remembered_all(paths, more.drop_last()), more.last())
    }
}

/// The ring keeps the newest paths in the order they were dropped: everything as long as it fits, and
/// the last ones once it doesn't.
pub proof fn law_ring_keeps_the_newest(paths: Seq<Seq<char>>, more: Seq<Seq<char>>)
    requires
        paths.len() <= state::DROPPED_PATHS_CAP,
    ensures
        ({
            let all = paths + more;
            let over = all.len() - state::DROPPED_PATHS_CAP;
            remembered_all(paths, more) == (if over > 0 {
                all.skip(over)
            } else {
                all
            })
        }),
    decreases more.len(),
{
    let all = paths + more;
    if more.len() == 0 {
        assert(all =~= paths);
    } else {
        law_ring_keeps_the_newest(paths, more.drop_last());
        let fewer = paths + more.drop_last();
        assert(all =~= fewer.push(more.last()));
        let over = fewer.len() - state::DROPPED_PATHS_CAP;
        if over > 0 {
            assert(fewer.skip(over).push(more.last()).skip(1) =~= all.skip(over + 1));
        } else if over == 0 {
            assert(fewer.push(more.last()).skip(1) =~= all.skip(1));
        }
    }
}

impl ActiveStatesView {
    /// The open devices after the first one with a serial number was rescanned.
    pub open spec fn rescanned(self, serial: Seq<char>, disk: Seq<StorageListingView>) -> ActiveStatesView {
        match self.slot_of(serial) {
            Some(k) => self.with_state(k, tree::rescanned_all(self.slots[k], disk)),
            None => self,
        }
    }
}

/// A rescan right after a rescan changes nothing: there is a summary exactly where an open device has that
/// serial number, and it counts nothing added and nothing removed. Where there was room for the first rescan,
/// there is room for the second.
pub proof fn law_a_second_rescan_finds_nothing(
    active: ActiveStatesView,
    serial: Seq<char>,
    disk: Seq<StorageListingView>,
)
    requires
        active.wf(),
        tree::lists_each_storage_once(disk),
    ensures
        ({
            let once = active.rescanned(serial, disk);
            &&& once.rescanned(serial, disk) == once
            &&& once.slot_of(serial) == active.slot_of(serial)
            &&& once.slot_of(serial) is None <==> forall|i: int|
                0 <= i < active.entries.len() ==> (#[trigger] active.entries[i]).serial != serial
            &&& once.slot_of(serial) matches Some(k) ==> tree::removed_count(once.slots[k], disk) == 0
                && tree::added_count(once.slots[k], disk) == 0 && (tree::has_room(
                active.slots[k],
                disk,
            ) ==> tree::has_room(once.slots[k], disk))
        }),
{
    let once = active.rescanned(serial, disk);
    let p = |e: ActiveEntryView| e.serial == serial;
    search::lemma_first_where(active.entries, p);
    match active.entry_of(serial) {
        Some(i) => {
            let k = active.entries[i].slot;
            tree::law_rescan_settles_every_storage(active.slots[k], disk);
            assert(once.slots[k] == tree::rescanned_all(active.slots[k], disk));
            assert(once.slots.update(k, once.slots[k]) =~= once.slots);
            assert(p(active.entries[i]));
        },
        None => {
            assert forall|i: int| 0 <= i < active.entries.len() implies (
            #[trigger] active.entries[i]).serial != serial by {
                assert(!p(active.entries[i]));
            }
        },
    }
}

/// Rescan an open device against what is on disk. Returns how much was added and removed, or `None` if no
/// open device has that serial number.
pub fn rescan_virtual_device(active: &mut ActiveStates, serial: &str, disk: &Vec<StorageListing>) -> (r:
    Option<RescanSummary>)
    requires
        old(active)@.wf(),
        old(active)@.slot_of(serial@) matches Some(k) ==> tree::has_room(
            old(active)@.slots[k],
            tree::listing_views(disk@),
        ),
    ensures
        final(active)@.wf(),
        ({
            let seen = tree::listing_views(disk@);
            &&& final(active)@ == old(active)@.rescanned(serial@, seen)
            &&& match old(active)@.slot_of(serial@) {
                Some(k) => {
                    let device = old(active)@.slots[k];
                    &&& r matches Some(summary)
                    &&& summary.removed == tree::removed_count(device, seen)
                    &&& summary.added == tree::added_count(device, seen)
                },
                None => r is None,
            }
        }),
{
    match active.find(serial) {
        Some(k) => {
            let ghost before = active@;
            assert(before.slots[k as int] == active.slots@[k as int]@);
            let summary = active.slots[k].rescan_backing_dirs(disk);
            assert(active@.slots =~= before.with_state(k as int, active@.slots[k as int]).slots);
            Some(summary)
        },
        None => None,
    }
}

/// Give the object at a path a new handle, as a phone does across a media rescan. Returns the old and
/// the new handle, or `None` if no open device has that serial number or no tracked object that path.
pub fn rekey_virtual_object(active: &mut ActiveStates, serial: &str, rel_path: &str) -> (r: Option<
    (PtpHandle, PtpHandle),
>)
    requires
        old(active)@.wf(),
        old(active)@.slot_of(serial@) matches Some(k) ==> old(active)@.slots[k].next_handle
            < u32::MAX,
    ensures
        final(active)@.wf(),
        match old(active)@.slot_of(serial@) {
            Some(k) => {
                let device = old(active)@.slots[k];
                match search::first_where(
                    device.objects,
                    |o: TrackedObjectView| o.rel_path == rel_path@,
                ) {
                    Some(i) => {
                        &&& r == Some(
                            (
                                PtpHandle(device.objects[i].handle),
                                PtpHandle(device.next_handle as u32),
                            ),
                        )
                        &&& final(active)@ == old(active)@.with_state(k, tree::rekeyed(device, i))
                    },
                    None => r is None && final(active)@ == old(active)@,
                }
            },
            None => r is None && final(active)@ == old(active)@,
        },
{
    match active.find(serial) {
        Some(k) => {
            let ghost before = active@;
            assert(before.slots[k as int] == active.slots@[k as int]@);
            let r = active.slots[k].rekey_object(rel_path);
            assert(active@.slots =~= before.with_state(k as int, active@.slots[k as int]).slots);
            assert(before.slots =~= before.with_state(k as int, before.slots[k as int]).slots);
            r
        },
        None => None,
    }
}

/// Limit the next partial reads of a device, one limit per read: 0 makes a read come back empty, as from
/// a stalled device, and anything else makes it short. Replaces any limits set before. `false` if no open
/// device has that serial number.
pub fn force_partial_read_caps(active: &mut ActiveStates, serial: &str, caps: Vec<usize>) -> (r: bool)
    requires
        old(active)@.wf(),
    ensures
        final(active)@.wf(),
        match old(active)@.slot_of(serial@) {
            Some(k) => r && final(active)@ == old(active)@.with_state(
                k,
                state::reads_limited(old(active)@.slots[k], caps@),
            ),
            None => !r && final(active)@ == old(active)@,
        },
{
    match active.find(serial) {
        Some(k) => {
            let ghost before = active@;
            active.slots[k].set_read_caps(caps);
            assert(active@.slots =~= before.with_state(k as int, active@.slots[k as int]).slots);
            true
        },
        None => false,
    }
}

/// Make `GetObjectInfo` for a handle answer with a response code, while the object stays present
/// otherwise. Without a code it is `GeneralError`. Holds until cleared. `false` if no open device has
/// that serial number.
pub fn force_object_info_error(
    active: &mut ActiveStates,
    serial: &str,
    handle: ObjectHandle,
    response_code: Option<u16>,
) -> (r: bool)
    requires
        old(active)@.wf(),
    ensures
        final(active)@.wf(),
        match old(active)@.slot_of(serial@) {
            Some(k) => r && final(active)@ == old(active)@.with_state(
                k,
                state::info_refused(
                    old(active)@.slots[k],
                    crate::mtp::types::ptp_handle(handle).0,
                    response_code,
                ),
            ),
            None => !r && final(active)@ == old(active)@,
        },
{
    match active.find(serial) {
        Some(k) => {
            let ghost before = active@;
            active.slots[k].set_info_error(handle.to_ptp().0, response_code);
            assert(active@.slots =~= before.with_state(k as int, active@.slots[k as int]).slots);
            true
        },
        None => false,
    }
}

/// Let every object of a device describe itself again. `false` if no open device has that serial number.
pub fn clear_object_info_errors(active: &mut ActiveStates, serial: &str) -> (r: bool)
    requires
        old(active)@.wf(),
    ensures
        final(active)@.wf(),
        match old(active)@.slot_of(serial@) {
            Some(k) => r && final(active)@ == old(active)@.with_state(
                k,
                state::info_restored(old(active)@.slots[k]),
            ),
            None => !r && final(active)@ == old(active)@,
        },
{
    match active.find(serial) {
        Some(k) => {
            let ghost before = active@;
            active.slots[k].clear_info_errors();
            assert(active@.slots =~= before.with_state(k as int, active@.slots[k as int]).slots);
            true
        },
        None => false,
    }
}

/// Make the next cancel on a device report that it had to be reset. `false` if no open device has that
/// serial number.
pub fn force_cancel_wedge(active: &mut ActiveStates, serial: &str) -> (r: bool)
    requires
        old(active)@.wf(),
    ensures
        final(active)@.wf(),
        match old(active)@.slot_of(serial@) {
            Some(k) => r && final(active)@ == old(active)@.with_state(
                k,
                state::cancel_armed(old(active)@.slots[k]),
            ),
            None => !r && final(active)@ == old(active)@,
        },
{
    match active.find(serial) {
        Some(k) => {
            let ghost before = active@;
            active.slots[k].arm_cancel_wedge();
            assert(active@.slots =~= before.with_state(k as int, active@.slots[k as int]).slots);
            true
        },
        None => false,
    }
}

/// Make the next operation on a device report that it had to be reset. `false` if no open device has
/// that serial number.
pub fn force_operation_wedge(active: &mut ActiveStates, serial: &str) -> (r: bool)
    requires
        old(active)@.wf(),
    ensures
        final(active)@.wf(),
        match old(active)@.slot_of(serial@) {
            Some(k) => r && final(active)@ == old(active)@.with_state(
                k,
                state::operation_armed(old(active)@.slots[k]),
            ),
            None => !r && final(active)@ == old(active)@,
        },
{
    match active.find(serial) {
        Some(k) => {
            let ghost before = active@;
            active.slots[k].arm_operation_wedge();
            assert(active@.slots =~= before.with_state(k as int, active@.slots[k as int]).slots);
            true
        },
        None => false,
    }
}

} // verus!
