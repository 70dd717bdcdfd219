//! What callers can rely on when they look for devices and open them.

use vstd::prelude::*;

use crate::mtp::backend::Backend;
use crate::mtp::device;
use crate::mtp::device::{
    DeviceTargetView, MtpDeviceBuilder, MtpDeviceInfo, MtpDeviceInfoView, SessionPlan, UsbDeviceInfo,
    WpdPlan,
};
use crate::mtp::error::{Error, ErrorView};
use crate::mtp::opening;
use crate::mtp::opening::{OpenEventView, OpenStepView};
use crate::search;
use crate::text;
use crate::transport::virtual_device::config::VirtualDeviceConfig;
use std::time::Duration;

verus! {

/// A device on USB is listed as it was found, field by field.
pub proof fn law_a_device_is_listed_as_it_was_found(d: UsbDeviceInfo, r: MtpDeviceInfo)
    requires
        call_ensures(MtpDeviceInfo::from_usb, (d,), r),
    ensures
        r.vendor_id == d.vendor_id,
        r.product_id == d.product_id,
        r.location_id == d.location_id,
        r.speed == d.speed,
        r.match_reason == d.match_reason,
        r.serial_number is Some <==> d.serial_number is Some,
        r.serial_number is Some ==> r.serial_number->0@ == d.serial_number->0@,
        r.manufacturer is Some <==> d.manufacturer is Some,
        r.manufacturer is Some ==> r.manufacturer->0@ == d.manufacturer->0@,
        r.product is Some <==> d.product is Some,
        r.product is Some ==> r.product->0@ == d.product->0@,
{
}

/// Every device is listed: those on USB first, then the virtual ones, each kind in its own order.
pub proof fn law_every_device_is_listed(
    usb: Vec<UsbDeviceInfo>,
    virtual_devices: Vec<MtpDeviceInfo>,
    r: Vec<MtpDeviceInfo>,
)
    requires
        call_ensures(device::list_devices, (usb, virtual_devices), r),
    ensures
        r@.len() == usb@.len() + virtual_devices@.len(),
        forall|i: int|
            0 <= i < usb@.len() ==> {
                &&& (#[trigger] r@[i]).location_id == usb@[i].location_id
                &&& r@[i].vendor_id == usb@[i].vendor_id
                &&& r@[i].product_id == usb@[i].product_id
                &&& device::optional_text(r@[i].serial_number) == device::optional_text(
                    usb@[i].serial_number,
                )
            },
        forall|i: int|
            usb@.len() <= i < r@.len() ==> {
                &&& (#[trigger] r@[i]).location_id == virtual_devices@[i - usb@.len()].location_id
                &&& device::optional_text(r@[i].serial_number) == device::optional_text(
                    virtual_devices@[i - usb@.len()].serial_number,
                )
            },
{
    let all = device::usb_views(usb@) + device::device_views(virtual_devices@);
    assert(device::device_views(r@).len() == r@.len());
    assert forall|i: int| 0 <= i < r@.len() implies (#[trigger] r@[i])@ == all[i] by {
        assert(device::device_views(r@)[i] == r@[i]@);
    }
}

/// Whether a device is the one that is meant.
pub open spec fn is_meant(d: MtpDeviceInfo, target: DeviceTargetView) -> bool {
    match target {
        DeviceTargetView::First => true,
        DeviceTargetView::Serial(serial) => d.serial_number is Some && d.serial_number->0@ == serial,
        DeviceTargetView::Location(location) => d.location_id == location,
    }
}

/// Looking for a device finds the first one that is meant, and nothing exactly where none is.
pub proof fn law_the_device_meant_is_found(
    devices: &[MtpDeviceInfo],
    serial: &str,
    location: u64,
    first: Result<usize, Error>,
    by_serial: Result<usize, Error>,
    by_location: Result<usize, Error>,
)
    requires
        call_ensures(device::find_first, (devices,), first),
        call_ensures(device::find_by_serial, (devices, serial), by_serial),
        call_ensures(device::find_by_location, (devices, location), by_location),
    ensures
        is_first_meant(devices@, DeviceTargetView::First, first),
        is_first_meant(devices@, DeviceTargetView::Serial(serial@), by_serial),
        is_first_meant(devices@, DeviceTargetView::Location(location), by_location),
{
    let all = device::device_views(devices@);
    assert(all.len() == devices@.len());
    let p = |d: MtpDeviceInfoView| d.serial_number == Some(serial@);
    let q = |d: MtpDeviceInfoView| d.location_id == location;
    search::lemma_first_where(all, p);
    search::lemma_first_where(all, q);
    assert forall|i: int| 0 <= i < devices@.len() implies (is_meant(
        #[trigger] devices@[i],
        DeviceTargetView::Serial(serial@),
    ) <==> p(all[i])) && (is_meant(devices@[i], DeviceTargetView::Location(location)) <==> q(all[i])) by {
        assert(all[i] == devices@[i]@);
    }
}

/// Whether a result is the place of the first device that is meant, or says that there is none.
pub open spec fn is_first_meant(
    devices: Seq<MtpDeviceInfo>,
    target: DeviceTargetView,
    r: Result<usize, Error>,
) -> bool {
    match r {
        Ok(i) => {
            &&& i < devices.len()
            &&& is_meant(devices[i as int], target)
            &&& forall|j: int| 0 <= j < i ==> !is_meant(#[trigger] devices[j], target)
        },
        Err(e) => {
            &&& e is NoDevice
            &&& forall|j: int| 0 <= j < devices.len() ==> !is_meant(#[trigger] devices[j], target)
        },
    }
}

/// A reset goes to the first device that is meant, and a virtual device has none.
pub proof fn law_a_reset_goes_to_the_device_meant(
    builder: MtpDeviceBuilder,
    is_virtual: bool,
    devices: &[MtpDeviceInfo],
    serial: &str,
    location: u64,
    by_serial: Result<usize, Error>,
    by_location: Result<usize, Error>,
    first: Result<usize, Error>,
)
    requires
        call_ensures(
            MtpDeviceBuilder::reset_by_serial,
            (&builder, is_virtual, devices, serial),
            by_serial,
        ),
        call_ensures(
            MtpDeviceBuilder::reset_by_location,
            (&builder, is_virtual, devices, location),
            by_location,
        ),
        call_ensures(MtpDeviceBuilder::reset_first, (&builder, devices), first),
    ensures
        is_virtual ==> by_serial is Err && by_serial->Err_0 is Unsupported && by_location is Err
            && by_location->Err_0 is Unsupported,
        !is_virtual ==> is_first_meant(devices@, DeviceTargetView::Serial(serial@), by_serial)
            && is_first_meant(devices@, DeviceTargetView::Location(location), by_location),
        is_first_meant(devices@, DeviceTargetView::First, first),
{
    let all = device::device_views(devices@);
    assert(all.len() == devices@.len());
    let p = |d: MtpDeviceInfoView| d.serial_number == Some(serial@);
    let q = |d: MtpDeviceInfoView| d.location_id == location;
    search::lemma_first_where(all, p);
    search::lemma_first_where(all, q);
    assert forall|i: int| 0 <= i < devices@.len() implies (is_meant(
        #[trigger] devices@[i],
        DeviceTargetView::Serial(serial@),
    ) <==> p(all[i])) && (is_meant(devices@[i], DeviceTargetView::Location(location)) <==> q(all[i])) by {
        assert(all[i] == devices@[i]@);
    }
}

/// What is shown of a device begins with its names and holds its location, which reads back, and its serial number
/// where it has one.
pub proof fn law_a_device_is_shown_with_its_names_and_place(
    d: MtpDeviceInfo,
    maker: Seq<char>,
    product: Seq<char>,
    r: String,
)
    requires
        call_ensures(MtpDeviceInfo::display, (&d,), r),
        device::optional_text(d.manufacturer) == Some(maker),
        device::optional_text(d.product) == Some(product),
    ensures
        (maker + " "@ + product).is_prefix_of(r@),
        (text::hex_padded(d.location_id as nat, 8) + ")"@).is_suffix_of(r@),
        d.serial_number matches Some(serial) ==> text::contains_text(r@, serial@),
        text::unsigned_value(text::numeral(d.location_id as nat, 16), 16) == Some(d.location_id as nat),
{
    text::law_numeral_reads_back(d.location_id as nat, 16);
    let head = maker + " "@ + product;
    let tail = text::hex_padded(d.location_id as nat, 8) + ")"@;
    match d.serial_number {
        Some(serial) => {
            let before = head + " (serial: "@;
            let middle = serial@ + ", location: "@;
            assert(r@ =~= before + middle + tail);
            assert(r@.subrange(0, head.len() as int) =~= head);
            assert(r@.subrange(r@.len() - tail.len(), r@.len() as int) =~= tail);
            assert(r@.subrange(before.len() as int, (before.len() + serial@.len()) as int) =~= serial@);
            assert(text::stands_at(r@, serial@, before.len() as int));
        },
        None => {
            assert(r@ =~= head + " (location: "@ + tail);
            assert(r@.subrange(0, head.len() as int) =~= head);
            assert(r@.subrange(r@.len() - tail.len(), r@.len() as int) =~= tail);
        },
    }
}

/// Each setting of a builder takes effect and leaves the others as they were.
pub proof fn law_each_setting_takes_effect(
    builder: MtpDeviceBuilder,
    backend: Backend,
    timeout: Duration,
    known: &[(u16, u16)],
    session_id: u32,
    a: MtpDeviceBuilder,
    b: MtpDeviceBuilder,
    c: MtpDeviceBuilder,
    d: MtpDeviceBuilder,
)
    requires
        call_ensures(MtpDeviceBuilder::backend, (builder, backend), a),
        call_ensures(MtpDeviceBuilder::timeout, (a, timeout), b),
        call_ensures(MtpDeviceBuilder::known_devices, (b, known), c),
        call_ensures(MtpDeviceBuilder::reuse_existing_session, (c, session_id), d),
    ensures
        d.backend == backend,
        d.timeout == timeout,
        d.known_devices@ == known@,
        d.reuse_existing_session_id == Some(session_id),
        a.timeout == builder.timeout,
        a.known_devices == builder.known_devices,
        a.reuse_existing_session_id == builder.reuse_existing_session_id,
{
}

/// A session is reused exactly where one was named, under its own number, and otherwise a fresh one is opened.
pub proof fn law_a_session_is_reused_only_where_one_was_named(builder: MtpDeviceBuilder, r: SessionPlan)
    requires
        call_ensures(MtpDeviceBuilder::session_plan, (&builder,), r),
    ensures
        builder.reuse_existing_session_id matches Some(id) ==> r == SessionPlan::Reuse(id),
        builder.reuse_existing_session_id is None ==> r == SessionPlan::Fresh(1),
{
}

/// WPD comes in exactly on Windows and unless USB was named; where it was named elsewhere, that is refused.
pub proof fn law_when_wpd_comes_in(backend: Backend, windows: bool, r: WpdPlan)
    requires
        call_ensures(device::wpd_plan_of, (backend, windows), r),
    ensures
        r is Try <==> windows && backend != Backend::Usb,
        r is Refuse <==> !windows && backend == Backend::Wpd,
{
}

/// A virtual device opens exactly where it has a storage.
pub proof fn law_a_virtual_device_needs_a_storage(
    builder: MtpDeviceBuilder,
    config: VirtualDeviceConfig,
    r: Result<(), Error>,
)
    requires
        call_ensures(MtpDeviceBuilder::open_virtual, (&builder, &config), r),
    ensures
        r is Ok <==> config.storages@.len() > 0,
        r matches Err(e) ==> e is InvalidData,
{
    assert(config@.storages.len() == config.storages@.len());
}

/// Only a device of one maker wants its header apart.
pub proof fn law_only_garmin_wants_a_split_header(manufacturer: &str, r: bool)
    requires
        call_ensures(device::needs_split_header, (manufacturer,), r),
    ensures
        r <==> manufacturer@ == seq!['G', 'a', 'r', 'm', 'i', 'n'],
{
    reveal_strlit("Garmin");
    assert("Garmin"@ =~= seq!['G', 'a', 'r', 'm', 'i', 'n']);
}

/// Whether a listed device is the one that is meant.
pub open spec fn fits_target(d: MtpDeviceInfoView, target: DeviceTargetView) -> bool {
    match target {
        DeviceTargetView::First => true,
        DeviceTargetView::Serial(serial) => d.serial_number == Some(serial),
        DeviceTargetView::Location(location) => d.location_id == location,
    }
}

/// Whether this is the place of the first listed device that is meant.
pub open spec fn is_place_of(
    devices: Seq<MtpDeviceInfoView>,
    target: DeviceTargetView,
    i: int,
) -> bool {
    &&& 0 <= i < devices.len()
    &&& fits_target(devices[i], target)
    &&& forall|j: int| 0 <= j < i ==> !fits_target(#[trigger] devices[j], target)
}

proof fn lemma_found(devices: Seq<MtpDeviceInfoView>, target: DeviceTargetView)
    ensures
        match device::found(devices, target) {
            Ok(i) => is_place_of(devices, target, i),
            Err(e) => e is NoDevice && forall|j: int|
                0 <= j < devices.len() ==> !fits_target(#[trigger] devices[j], target),
        },
{
    match target {
        DeviceTargetView::First => {
            if devices.len() > 0 {
                assert(fits_target(devices[0], target));
            }
        },
        DeviceTargetView::Serial(serial) => {
            let p = |d: MtpDeviceInfoView| d.serial_number == Some(serial);
            search::lemma_first_where(devices, p);
            assert(forall|j: int|
                0 <= j < devices.len() ==> (p(#[trigger] devices[j]) <==> fits_target(devices[j], target)));
        },
        DeviceTargetView::Location(location) => {
            let p = |d: MtpDeviceInfoView| d.location_id == location;
            search::lemma_first_where(devices, p);
            assert(forall|j: int|
                0 <= j < devices.len() ==> (p(#[trigger] devices[j]) <==> fits_target(devices[j], target)));
        },
    }
}

/// Where USB is all there is, the devices on it are listed, and the first one that is meant is opened; where none
/// is meant, opening fails for want of a device, and a list that fails is reported.
pub proof fn law_usb_opens_the_device_meant(
    backend: Backend,
    target: DeviceTargetView,
    windows: bool,
    devices: Seq<MtpDeviceInfoView>,
    e: crate::error::PtpErrorView,
)
    requires
        backend == Backend::Usb || (backend == Backend::Auto && !windows),
    ensures
        ({
            let start = opening::fresh_opening(backend, windows, target, None);
            let listed = opening::next_step(start, OpenEventView::UsbListed(Ok(devices)));
            &&& start.step is ListUsb
            &&& listed is OpenUsb || listed is Fail
            &&& listed matches OpenStepView::OpenUsb(i) ==> is_place_of(devices, target, i)
            &&& listed matches OpenStepView::Fail(x) ==> x is NoDevice && forall|j: int|
                0 <= j < devices.len() ==> !fits_target(#[trigger] devices[j], target)
            &&& opening::next_step(start, OpenEventView::UsbListed(Err(e))) == OpenStepView::Fail(
                crate::mtp::error::error_of_ptp(e),
            )
        }),
{
    lemma_found(devices, target);
}

/// On Windows WPD is tried first unless USB was named. What it opens is open; a device that it does not have is left
/// to USB where no backend was named, and anything else ends the opening with WPD's own error.
pub proof fn law_wpd_is_tried_first(
    backend: Backend,
    target: DeviceTargetView,
    e: ErrorView,
)
    requires
        backend != Backend::Usb,
        !(target is Location),
    ensures
        ({
            let start = opening::fresh_opening(backend, true, target, None);
            let failed = opening::next_step(start, OpenEventView::WpdTried(Err(e)));
            &&& start.step is TryWpd
            &&& opening::next_step(start, OpenEventView::WpdTried(Ok(()))) is Opened
            &&& failed is ListUsb <==> backend == Backend::Auto && e is NoDevice
            &&& !(failed is ListUsb) ==> failed == OpenStepView::Fail(e)
        }),
{
}

/// A device that is meant by its location is looked up on USB first. There WPD is tried for it where WPD comes in, and
/// otherwise it is opened over USB; WPD that does not have it leaves that same device to USB where no backend was
/// named.
pub proof fn law_a_location_is_looked_up_on_usb(
    backend: Backend,
    windows: bool,
    location: u64,
    devices: Seq<MtpDeviceInfoView>,
    e: ErrorView,
)
    ensures
        ({
            let target = DeviceTargetView::Location(location);
            let start = opening::fresh_opening(backend, windows, target, None);
            let step = opening::next_step(start, OpenEventView::UsbListed(Ok(devices)));
            let meant = exists|j: int| 0 <= j < devices.len() && (#[trigger] devices[j]).location_id == location;
            &&& start.step is ListUsb
            &&& !meant ==> step == OpenStepView::Fail(ErrorView::NoDevice)
            &&& meant ==> (step is TryWpdFor <==> windows && backend != Backend::Usb)
            &&& meant ==> (step is OpenUsb <==> backend == Backend::Usb || (backend == Backend::Auto
                && !windows))
            &&& meant && backend == Backend::Wpd && !windows ==> step == OpenStepView::Fail(
                ErrorView::Unsupported,
            )
            &&& step matches OpenStepView::OpenUsb(i) ==> is_place_of(devices, target, i)
            &&& step matches OpenStepView::TryWpdFor(i) ==> {
                let tried = opening::DeviceOpeningView { step, ..start };
                &&& is_place_of(devices, target, i)
                &&& opening::next_step(tried, OpenEventView::WpdTried(Ok(()))) is Opened
                &&& e is NoDevice && backend == Backend::Auto ==> opening::next_step(
                    tried,
                    OpenEventView::WpdTried(Err(e)),
                ) == OpenStepView::OpenUsb(i)
                &&& !(e is NoDevice) || backend == Backend::Wpd ==> opening::next_step(
                    tried,
                    OpenEventView::WpdTried(Err(e)),
                ) == OpenStepView::Fail(e)
            }
        }),
{
    let target = DeviceTargetView::Location(location);
    lemma_found(devices, target);
    if device::found(devices, target) is Ok {
        let i = device::found(devices, target)->Ok_0;
        assert(devices[i].location_id == location);
    } else {
        assert forall|j: int| 0 <= j < devices.len() implies (#[trigger] devices[j]).location_id != location by {
            assert(!fits_target(devices[j], target));
        }
    }
}

} // verus!
