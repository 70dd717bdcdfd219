//! What users of a virtual device can rely on.

use vstd::prelude::*;

use crate::error::PtpErrorView;
use crate::mtp::device;
use crate::mtp::device::MtpDeviceInfo;
use crate::search;
use crate::text;
use crate::transport::virtual_device;
use crate::transport::virtual_device::config::{VirtualDeviceConfig, VirtualDeviceConfigView};
use crate::transport::virtual_device::registry;
use crate::transport::virtual_device::registry::{
    ActiveEntryView, ActiveStates, ActiveStatesView, Registry, VirtualRegistrationView,
};
use crate::transport::virtual_device::state;
use crate::transport::virtual_device::state::{
    DiskEntryView, DispatchView, TrackedObjectView, VirtualDeviceState, VirtualDeviceStateView,
};
use crate::transport::virtual_device::tree;
use crate::wire;

verus! {

/// The 16-bit number that stands in a container at a place.
pub open spec fn short_at(data: Seq<u8>, at: int) -> int {
    data[at] + 256 * data[at + 1]
}

/// The 32-bit number that stands in a container at a place.
pub open spec fn long_at(data: Seq<u8>, at: int) -> int {
    data[at] + 256 * data[at + 1] + 65536 * data[at + 2] + 16777216 * data[at + 3]
}

/// Whether the operation with this code takes data from the host.
pub open spec fn takes_data(code: int) -> bool {
    code == 0x100C || code == 0x100D || code == 0x9804
}

/// A command that takes no data is carried out at once, with the code, the transaction and the parameters that
/// stand in its container, and leaves the device as it was.
pub proof fn law_a_command_is_carried_out_as_it_was_sent(state: VirtualDeviceStateView, data: Seq<u8>)
    requires
        !state.operation_wedge,
        data.len() >= 12,
        short_at(data, 4) == 1,
        !takes_data(short_at(data, 6)),
    ensures
        ({
            let (after, outcome) = virtual_device::received(state, data);
            &&& after == state
            &&& outcome matches Ok(Some(d)) && {
                &&& d.code == short_at(data, 6)
                &&& d.tx_id == long_at(data, 8)
                &&& d.payload is None
                &&& d.params.len() == (data.len() - 12) / 4
                &&& forall|i: int|
                    0 <= i < d.params.len() ==> #[trigger] d.params[i] == long_at(data, 12 + 4 * i)
            }
        }),
{
}

/// A command that takes data waits for it; what is then carried out has the command's code, transaction and
/// parameters, and everything that followed the header of the data container.
pub proof fn law_a_write_waits_for_its_data(
    state: VirtualDeviceStateView,
    command: Seq<u8>,
    data: Seq<u8>,
)
    requires
        !state.operation_wedge,
        command.len() >= 12,
        short_at(command, 4) == 1,
        takes_data(short_at(command, 6)),
        data.len() >= 12,
        short_at(data, 4) == 2,
    ensures
        ({
            let (waiting, first) = virtual_device::received(state, command);
            let (after, second) = virtual_device::received(waiting, data);
            &&& first == Ok::<Option<DispatchView>, PtpErrorView>(None)
            &&& after == (VirtualDeviceStateView { pending: None, ..state })
            &&& second matches Ok(Some(d)) && {
                &&& d.code == short_at(command, 6)
                &&& d.tx_id == long_at(command, 8)
                &&& d.payload == Some(data.subrange(12, data.len() as int))
                &&& d.params.len() == (command.len() - 12) / 4
                &&& forall|i: int|
                    0 <= i < d.params.len() ==> #[trigger] d.params[i] == long_at(command, 12 + 4 * i)
            }
        }),
{
    assert(data.skip(12) =~= data.subrange(12, data.len() as int));
}

/// What is no container, no command and no awaited data is refused, and changes nothing.
pub proof fn law_what_is_not_understood_is_refused(state: VirtualDeviceStateView, data: Seq<u8>)
    requires
        data.len() < 12 || (short_at(data, 4) != 1 && short_at(data, 4) != 2) || (short_at(data, 4) == 2
            && state.pending is None),
    ensures
        virtual_device::received(state, data).0 == state,
        virtual_device::received(state, data).1 matches Err(e) && e is InvalidData,
{
}

/// An armed wedge meets the next command, whatever it is, and only that one: the command after it is taken as by a
/// device that was never armed.
pub proof fn law_a_wedge_meets_one_command(
    state: VirtualDeviceStateView,
    first: Seq<u8>,
    second: Seq<u8>,
)
    requires
        !state.operation_wedge,
        first.len() >= 12,
        short_at(first, 4) == 1,
    ensures
        ({
            let (after, outcome) = virtual_device::received(state::operation_armed(state), first);
            &&& outcome == Err::<Option<DispatchView>, PtpErrorView>(PtpErrorView::DeviceReset)
            &&& after == state
            &&& virtual_device::received(after, second) == virtual_device::received(state, second)
        }),
{
}

/// An abandoned transfer leaves nothing in flight, and what was armed for it is spent; events still wait.
pub proof fn law_an_abandoned_transfer_leaves_nothing_in_flight(state: VirtualDeviceStateView)
    ensures
        ({
            let after = virtual_device::transfer_abandoned(state);
            &&& after.pending is None
            &&& after.responses.len() == 0
            &&& !after.cancel_wedge
            &&& after.events == state.events
            &&& after.objects == state.objects
            &&& after.operation_wedge == state.operation_wedge
            &&& state::cancel_armed(state).cancel_wedge
            &&& state::cancel_armed(state).operation_wedge == state.operation_wedge
            &&& virtual_device::transfer_abandoned(state::cancel_armed(state)) == after
        }),
{
}

/// Responses are received in the order in which they were queued, each once; events likewise, from the front.
pub proof fn law_responses_come_in_order(
    state: VirtualDeviceStateView,
    a: Seq<u8>,
    b: Seq<u8>,
    event: Seq<u8>,
    rest: Seq<Seq<u8>>,
)
    requires
        state.responses.len() == 0,
        state.events == seq![event] + rest,
    ensures
        ({
            let queued = virtual_device::response_queued(virtual_device::response_queued(state, a), b);
            let (one, first) = virtual_device::response_taken(queued);
            let (two, second) = virtual_device::response_taken(one);
            let (after, taken) = virtual_device::event_taken(state);
            &&& first == Some(a)
            &&& second == Some(b)
            &&& two == state
            &&& virtual_device::response_taken(state).1 is None
            &&& taken == Some(event)
            &&& after.events == rest
        }),
{
    let queued = virtual_device::response_queued(virtual_device::response_queued(state, a), b);
    let one = virtual_device::response_taken(queued).0;
    assert(queued.responses =~= seq![a, b]);
    assert(one.responses =~= seq![b]);
    assert(virtual_device::response_taken(one).0.responses =~= state.responses);
    assert(state.events.skip(1) =~= rest);
}

/// An event container says its own length, that it is an event, which one it is, and what it is about.
pub proof fn law_an_event_says_what_it_is_about(code: u16, param: u32, r: Vec<u8>)
    requires
        call_ensures(state::build_event, (code, param), r),
    ensures
        r@.len() == 16,
        long_at(r@, 0) == 16,
        short_at(r@, 4) == 4,
        short_at(r@, 6) == code,
        long_at(r@, 8) == 0,
        long_at(r@, 12) == param,
{
    let a = wire::u32_bytes(16);
    let b = wire::u16_bytes(4);
    let c = wire::u16_bytes(code);
    let d = wire::u32_bytes(0);
    let e = wire::u32_bytes(param);
    assert(r@ == a + b + c + d + e);
    assert(r@[0] == a[0] && r@[1] == a[1] && r@[2] == a[2] && r@[3] == a[3]);
    assert(r@[4] == b[0] && r@[5] == b[1] && r@[6] == c[0] && r@[7] == c[1]);
    assert(r@[8] == d[0] && r@[9] == d[1] && r@[10] == d[2] && r@[11] == d[3]);
    assert(r@[12] == e[0] && r@[13] == e[1] && r@[14] == e[2] && r@[15] == e[3]);
}

/// A read that is limited returns no more than its limit and no more than was asked for; each limit serves one
/// read, in order, and without a limit a read returns what was asked for.
pub proof fn law_each_limit_serves_one_read(
    state: VirtualDeviceStateView,
    caps: Seq<usize>,
    requested: usize,
)
    ensures
        ({
            let limited = state::reads_limited(state, caps);
            let (after, got) = state::partial_read(limited, requested);
            &&& caps.len() == 0 ==> got == requested && after == limited
            &&& caps.len() > 0 ==> {
                &&& got <= caps[0] && got <= requested
                &&& got == caps[0] || got == requested
                &&& after == state::reads_limited(state, caps.subrange(1, caps.len() as int))
            }
        }),
{
    assert(caps.len() > 0 ==> caps.skip(1) =~= caps.subrange(1, caps.len() as int));
}

/// A forced refusal is answered with its code, `GeneralError` (0x2002) if none was given, until it is lifted; other
/// handles are answered as before.
pub proof fn law_a_refusal_holds_for_its_handle(
    state: VirtualDeviceStateView,
    handle: u32,
    code: Option<u16>,
    other: u32,
)
    ensures
        state::info_error(state::info_refused(state, handle, code), handle) == Some(
            if code is Some {
                code->0
            } else {
                0x2002
            },
        ),
        other != handle ==> state::info_error(state::info_refused(state, handle, code), other)
            == state::info_error(state, other),
        state.undescribable.len() == 0 ==> state::info_error(state::info_restored(state), other) is None,
{
}

/// Without a forced answer an object is refused exactly where its path is one of those that the device will not
/// describe, and then with `GeneralError`.
pub proof fn law_an_undescribable_path_is_refused(device: VirtualDeviceState, handle: u32, i: int, r: Option<u16>)
    requires
        call_ensures(VirtualDeviceState::object_info_error, (&device, handle), r),
        !device@.info_errors.contains_key(handle),
        0 <= i < device@.objects.len(),
        device@.objects[i].handle == handle,
        forall|j: int| 0 <= j < i ==> (#[trigger] device@.objects[j]).handle != handle,
    ensures
        r is Some <==> exists|k: int|
            0 <= k < device@.undescribable.len() && #[trigger] device@.undescribable[k]
                == device@.objects[i].rel_path,
        r matches Some(code) ==> code == 0x2002,
{
    let p = |o: TrackedObjectView| o.handle == handle;
    assert(p(device@.objects[i]));
    search::lemma_first_where_at(device@.objects, p, i);
    let path = device@.objects[i].rel_path;
    if device@.undescribable.contains(path) {
        let k = choose|k: int| 0 <= k < device@.undescribable.len() && device@.undescribable[k] == path;
        assert(device@.undescribable[k] == path);
    }
}

/// A device that was just opened tracks nothing, has handed out no handle, and owes nothing.
pub proof fn law_a_device_opens_empty(config: VirtualDeviceConfig, r: VirtualDeviceState)
    requires
        call_ensures(VirtualDeviceState::new, (&config,), r),
    ensures
        r@.objects.len() == 0,
        r@.next_handle == 1,
        r@.pause_count == 0,
        r@.dropped_paths.len() == 0,
        r@.read_caps.len() == 0,
        forall|h: u32| !r@.info_errors.contains_key(h),
        r@.undescribable == text::views(config.undescribable_objects@),
        !r@.cancel_wedge,
        !r@.operation_wedge,
        r@.pending is None,
        r@.responses.len() == 0,
        r@.events.len() == 0,
{
}

/// While a guard is held, a change is remembered and goes no further; otherwise nothing is remembered of it.
pub proof fn law_a_paused_watcher_remembers(state: VirtualDeviceStateView, path: Seq<char>)
    requires
        state.pause_count >= 0,
        state.dropped_paths.len() < 1024,
    ensures
        state::observed(registry::paused(state), path).dropped_paths == state.dropped_paths.push(path),
        state::observed(registry::paused(state), path).objects == state.objects,
        state.pause_count == 0 ==> state::observed(state, path) == state,
{
}

/// The object that was re-keyed is the one named, and its children follow it: they name its new handle as their
/// folder, and no other object names another folder than before.
pub proof fn law_children_follow_a_rekeyed_folder(state: VirtualDeviceStateView, i: int, j: int)
    requires
        state.wf(),
        state.next_handle <= u32::MAX,
        0 <= i < state.objects.len(),
        0 <= j < state.objects.len(),
    ensures
        ({
            let after = tree::rekeyed(state, i);
            &&& after.next_handle == state.next_handle + 1
            &&& after.events == state.events
            &&& state.objects[j].parent == state.objects[i].handle ==> after.objects[j].parent
                == after.objects[i].handle
            &&& state.objects[j].parent != state.objects[i].handle ==> after.objects[j].parent
                == state.objects[j].parent
            &&& j != i ==> after.objects[j].handle == state.objects[j].handle
        }),
{
}

/// A virtual device is announced with the names and the serial number of its configuration, under the identifiers that
/// no real device has, at a location of its own.
pub proof fn law_a_virtual_device_is_announced_as_configured(config: VirtualDeviceConfigView, index: int)
    requires
        0 <= index < 0x1_0000_0000_0000,
    ensures
        ({
            let info = registry::virtual_info(config, index);
            &&& info.manufacturer == Some(config.manufacturer)
            &&& info.product == Some(config.model)
            &&& info.serial_number == Some(config.serial)
            &&& info.vendor_id == 0xFFFF
            &&& info.product_id == 1
            &&& info.location_id == 0xFFFF_0000_0000_0000 + index
            &&& info.speed is None
        }),
{
}

/// The configuration found is that of the first registered device that is meant, and none exactly where none is.
pub proof fn law_the_registered_device_meant_is_found(
    registered: Registry,
    serial: &str,
    location: u64,
    by_serial: Option<VirtualDeviceConfig>,
    by_location: Option<VirtualDeviceConfig>,
)
    requires
        call_ensures(registry::find_virtual_config_by_serial, (&registered, serial), by_serial),
        call_ensures(registry::find_virtual_config_by_location, (&registered, location), by_location),
    ensures
        match by_serial {
            Some(config) => exists|i: int|
                0 <= i < registered@.devices.len() && (#[trigger] registered@.devices[i]).config == config@
                    && registered@.devices[i].info.serial_number == Some(serial@) && (forall|j: int|
                    0 <= j < i ==> (#[trigger] registered@.devices[j]).info.serial_number != Some(serial@)),
            None => forall|j: int|
                0 <= j < registered@.devices.len() ==> (#[trigger] registered@.devices[j]).info.serial_number
                    != Some(serial@),
        },
        match by_location {
            Some(config) => exists|i: int|
                0 <= i < registered@.devices.len() && (#[trigger] registered@.devices[i]).config == config@
                    && registered@.devices[i].info.location_id == location && (forall|j: int|
                    0 <= j < i ==> (#[trigger] registered@.devices[j]).info.location_id != location),
            None => forall|j: int|
                0 <= j < registered@.devices.len() ==> (#[trigger] registered@.devices[j]).info.location_id
                    != location,
        },
{
    let p = |d: VirtualRegistrationView| d.info.serial_number == Some(serial@);
    let q = |d: VirtualRegistrationView| d.info.location_id == location;
    let devices = registered@.devices;
    search::lemma_first_where(devices, p);
    search::lemma_first_where(devices, q);
    assert(forall|j: int|
        0 <= j < devices.len() ==> (p(#[trigger] devices[j]) <==> devices[j].info.serial_number == Some(
            serial@,
        )));
    assert(forall|j: int|
        0 <= j < devices.len() ==> (q(#[trigger] devices[j]) <==> devices[j].info.location_id == location));
    if by_serial is Some {
        let i = search::first_where(devices, p)->0;
        assert(devices[i].config == by_serial->0@);
    }
    if by_location is Some {
        let i = search::first_where(devices, q)->0;
        assert(devices[i].config == by_location->0@);
    }
}

/// Every registered device is announced, in the order of registration.
pub proof fn law_every_registered_device_is_announced(registered: Registry, r: Vec<MtpDeviceInfo>, i: int)
    requires
        call_ensures(registry::list_virtual_devices, (&registered,), r),
        0 <= i < r@.len(),
    ensures
        r@.len() == registered.devices@.len(),
        r@[i]@ == registered.devices@[i].info@,
{
    assert(device::device_views(r@).len() == r@.len());
    assert(registered@.devices.len() == registered.devices@.len());
    assert(device::device_views(r@)[i] == r@[i]@);
    assert(registered@.devices[i] == registered.devices@[i]@);
}

/// The open device meant by a serial number is the first one that has it.
pub proof fn law_the_open_device_meant_is_the_first(active: ActiveStatesView, serial: Seq<char>)
    ensures
        match active.slot_of(serial) {
            Some(k) => exists|i: int|
                0 <= i < active.entries.len() && (#[trigger] active.entries[i]).serial == serial
                    && active.entries[i].slot == k && (forall|j: int|
                    0 <= j < i ==> (#[trigger] active.entries[j]).serial != serial),
            None => forall|j: int| 0 <= j < active.entries.len() ==> (#[trigger] active.entries[j]).serial != serial,
        },
{
    let p = |e: ActiveEntryView| e.serial == serial;
    search::lemma_first_where(active.entries, p);
    assert(forall|j: int|
        0 <= j < active.entries.len() ==> (p(#[trigger] active.entries[j]) <==> active.entries[j].serial
            == serial));
    if active.entry_of(serial) is Some {
        let i = active.entry_of(serial)->0;
        assert(active.entries[i].serial == serial);
    }
}

/// The paths that a device dropped are told oldest first, and a path was dropped exactly where one of them ends with
/// what is asked for. Without an open device there are none.
pub proof fn law_dropped_paths_are_told(
    active: ActiveStates,
    serial: &str,
    suffix: &str,
    paths: Vec<String>,
    dropped: bool,
)
    requires
        active@.wf(),
        call_ensures(registry::dropped_paths_since_pause, (&active, serial), paths),
        call_ensures(registry::was_path_dropped, (&active, serial, suffix), dropped),
    ensures
        active@.slot_of(serial@) matches Some(k) ==> text::views(paths@) == active@.slots[k].dropped_paths,
        active@.slot_of(serial@) is None ==> paths@.len() == 0,
        dropped <==> exists|i: int| 0 <= i < paths@.len() && suffix@.is_suffix_of((#[trigger] paths@[i])@),
{
    let views = text::views(paths@);
    assert(views.len() == paths@.len());
    assert forall|i: int| 0 <= i < paths@.len() implies views[i] == (#[trigger] paths@[i])@ by {}
    assert(active@.dropped_of(serial@) == views);
    assert(dropped == registry::one_ends_with(views, suffix@));
    if dropped {
        let i = choose|i: int| 0 <= i < views.len() && suffix@.is_suffix_of(#[trigger] views[i]);
        assert(suffix@.is_suffix_of(paths@[i]@));
    }
    if exists|i: int| 0 <= i < paths@.len() && suffix@.is_suffix_of((#[trigger] paths@[i])@) {
        let i = choose|i: int| 0 <= i < paths@.len() && suffix@.is_suffix_of((#[trigger] paths@[i])@);
        assert(suffix@.is_suffix_of(views[i]));
    }
}

/// A rescan that meets one new entry gives it the next handle, files it under the object at its folder's path, at the
/// path it has on disk, and tells the host of it and of the storage.
pub proof fn law_a_new_entry_is_filed_under_its_folder(
    before: VirtualDeviceStateView,
    storage: u32,
    entries: Seq<DiskEntryView>,
    entry: DiskEntryView,
    folder: int,
)
    requires
        0 < before.next_handle <= u32::MAX,
        before.objects.len() > 0,
        forall|i: int|
            0 <= i < before.objects.len() ==> tree::survives(
                #[trigger] before.objects[i],
                storage,
                entries.push(entry),
            ),
        forall|i: int|
            0 <= i < entries.len() ==> state::tracks(
                before.objects,
                storage,
                (#[trigger] entries[i]).rel_path,
            ),
        !state::tracks(before.objects, storage, entry.rel_path),
        entry.parent.len() > 0 ==> 0 <= folder < before.objects.len() && before.objects[folder].storage == storage
            && before.objects[folder].rel_path == entry.parent && (forall|j: int|
            0 <= j < folder ==> !state::lies_at(#[trigger] before.objects[j], storage, entry.parent)),
    ensures
        ({
            let after = tree::rescanned(before, storage, entries.push(entry));
            let added = after.objects.last();
            let told = after.events.subrange(before.events.len() as int, after.events.len() as int);
            &&& after.objects.drop_last() == before.objects
            &&& added.handle == before.next_handle
            &&& added.storage == storage
            &&& added.rel_path == entry.rel_path
            &&& entry.parent.len() == 0 ==> added.parent == 0
            &&& entry.parent.len() > 0 ==> added.parent == before.objects[folder].handle
            &&& after.next_handle == before.next_handle + 1
            &&& told == seq![
                state::event_bytes(0x4002, added.handle),
                state::event_bytes(0x400C, storage),
            ]
        }),
{
    let all = entries.push(entry);
    let stay = |o: TrackedObjectView| tree::survives(o, storage, all);
    let leave = |o: TrackedObjectView| !tree::survives(o, storage, all);
    tree::lemma_filter_all(before.objects, stay);
    tree::lemma_filter_nothing(before.objects, leave);
    assert(all.drop_last() =~= entries);
    tree::lemma_nothing_to_add(before.objects, before.next_handle, storage, entries);
    let p = |o: TrackedObjectView| state::lies_at(o, storage, entry.parent);
    if entry.parent.len() > 0 {
        assert(p(before.objects[folder]));
        search::lemma_first_where_at(before.objects, p, folder);
    }
    let after = tree::rescanned(before, storage, all);
    let removed = tree::gone(before.objects, storage, all);
    assert(removed =~= Seq::empty());
    let added = after.objects.skip(before.objects.len() as int);
    assert(added =~= seq![after.objects.last()]);
    assert(after.objects.drop_last() =~= before.objects);
    assert(tree::object_events(removed, 0x4003) =~= Seq::empty());
    assert(tree::object_events(added, 0x4002) =~= seq![
        state::event_bytes(0x4002, after.objects.last().handle),
    ]);
    assert(after.events.subrange(before.events.len() as int, after.events.len() as int) =~= seq![
        state::event_bytes(0x4002, after.objects.last().handle),
        state::event_bytes(0x400C, storage),
    ]);
}

/// A rescan tells the host of each object that is gone, in their order, and then of the storage.
pub proof fn law_the_host_hears_of_what_is_gone(
    before: VirtualDeviceStateView,
    storage: u32,
    entries: Seq<DiskEntryView>,
)
    requires
        forall|i: int|
            0 <= i < entries.len() ==> state::tracks(
                tree::kept(before.objects, storage, entries),
                storage,
                (#[trigger] entries[i]).rel_path,
            ),
        tree::gone(before.objects, storage, entries).len() > 0,
    ensures
        ({
            let after = tree::rescanned(before, storage, entries);
            let lost = tree::gone(before.objects, storage, entries);
            let at = before.events.len() as int;
            &&& after.next_handle == before.next_handle
            &&& after.events.len() == before.events.len() + lost.len() + 1
            &&& after.events.last() == state::event_bytes(0x400C, storage)
            &&& forall|i: int|
                0 <= i < lost.len() ==> #[trigger] after.events[at + i] == state::event_bytes(
                    0x4003,
                    lost[i].handle,
                )
            &&& forall|i: int|
                0 <= i < lost.len() ==> (#[trigger] lost[i]).storage == storage && !state::on_disk(
                    entries,
                    lost[i].rel_path,
                )
        }),
{
    let stay = tree::kept(before.objects, storage, entries);
    let lost = tree::gone(before.objects, storage, entries);
    tree::lemma_nothing_to_add(stay, before.next_handle, storage, entries);
    let after = tree::rescanned(before, storage, entries);
    let fresh = after.objects.skip(stay.len() as int);
    assert(fresh =~= Seq::empty());
    assert(tree::object_events(fresh, 0x4002) =~= Seq::empty());
    let leave = |o: TrackedObjectView| !tree::survives(o, storage, entries);
    before.objects.lemma_filter_pred(leave, 0);
    assert forall|i: int| 0 <= i < lost.len() implies (#[trigger] lost[i]).storage == storage && !state::on_disk(
        entries,
        lost[i].rel_path,
    ) by {
        before.objects.lemma_filter_pred(leave, i);
        assert(leave(lost[i]));
    }
    let told = tree::object_events(lost, 0x4003);
    let at = before.events.len() as int;
    assert forall|i: int| 0 <= i < lost.len() implies #[trigger] after.events[at + i] == state::event_bytes(
        0x4003,
        lost[i].handle,
    ) by {
        assert(after.events[at + i] == told[i]);
    }
}

/// A device that is opened is found under its serial number, with its state, unless an earlier one has that number; and
/// once it is closed again it is found no longer. The states of the others stay where they are.
pub proof fn law_an_open_device_is_found_until_it_is_closed(
    active: ActiveStatesView,
    serial: Seq<char>,
    device: VirtualDeviceStateView,
)
    requires
        active.wf(),
        active.slot_of(serial) is None,
    ensures
        ({
            let open = active.opened(serial, device);
            let closed = open.closed(serial);
            &&& open.slot_of(serial) matches Some(k) && open.slots[k] == device
            &&& open.slots.len() == active.slots.len() + 1
            &&& forall|i: int| 0 <= i < active.slots.len() ==> #[trigger] open.slots[i] == active.slots[i]
            &&& closed.slot_of(serial) is None
            &&& closed.entries == active.entries
            &&& closed.slots == open.slots
        }),
{
    let p = |e: ActiveEntryView| e.serial == serial;
    let open = active.opened(serial, device);
    let at = active.entries.len() as int;
    search::lemma_first_where(active.entries, p);
    assert(p(open.entries[at]));
    assert forall|i: int| 0 <= i < at implies !p(#[trigger] open.entries[i]) by {
        assert(open.entries[i] == active.entries[i]);
    }
    search::lemma_first_where_at(open.entries, p, at);
    assert(open.entries.remove(at) =~= active.entries);
}

/// The ring of dropped paths holds a thousand and twenty-four: one more, and the oldest is forgotten.
pub proof fn law_a_full_ring_forgets_the_oldest(paths: Seq<Seq<char>>, path: Seq<char>)
    requires
        paths.len() == 1024,
    ensures
        state::remembered(paths, path).len() == 1024,
        state::remembered(paths, path).last() == path,
        state::remembered(paths, path)[0] == paths[1],
{
}

} // verus!
