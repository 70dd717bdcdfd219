//! Opening a device: virtual devices come before real ones, and WPD before USB where it is wanted.

use vstd::prelude::*;

use crate::error::{PtpError, PtpErrorView};
use crate::mtp::backend::Backend;
use crate::mtp::device;
use crate::mtp::device::{find_device, DeviceTarget, DeviceTargetView, MtpDeviceBuilder, MtpDeviceInfo,
    MtpDeviceInfoView, WpdPlan};
use crate::mtp::error;
use crate::mtp::error::{Error, ErrorView};
use crate::transport::virtual_device::config::{VirtualDeviceConfig, VirtualDeviceConfigView};

verus! {

/// What to do next about opening a device.
#[derive(Debug)]
pub enum OpenStep {
    /// Open this virtual device.
    Virtual(VirtualDeviceConfig),
    /// Try WPD for the device that is meant.
    TryWpd,
    /// List the devices on USB.
    ListUsb,
    /// Try WPD for the USB device at this place of the list. WPD does not know locations, so that device
    /// is matched by its vendor and product, and by its serial number between equals.
    TryWpdFor(usize),
    /// Open the USB device at this place of the list.
    OpenUsb(usize),
    /// The device is open.
    Opened,
    /// Opening failed.
    Fail(Error),
}

/// An [`OpenStep`] with its parts as views.
pub enum OpenStepView {
    Virtual(VirtualDeviceConfigView),
    TryWpd,
    ListUsb,
    TryWpdFor(int),
    OpenUsb(int),
    Opened,
    Fail(ErrorView),
}

impl View for OpenStep {
    type V = OpenStepView;

    open spec fn view(&self) -> OpenStepView {
        match self {
            OpenStep::Virtual(config) => OpenStepView::Virtual(config@),
            OpenStep::TryWpd => OpenStepView::TryWpd,
            OpenStep::ListUsb => OpenStepView::ListUsb,
            OpenStep::TryWpdFor(i) => OpenStepView::TryWpdFor(*i as int),
            OpenStep::OpenUsb(i) => OpenStepView::OpenUsb(*i as int),
            OpenStep::Opened => OpenStepView::Opened,
            OpenStep::Fail(e) => OpenStepView::Fail(e@),
        }
    }
}

/// How a step went.
#[derive(Debug)]
pub enum OpenEvent {
    /// An attempt to open over WPD.
    WpdTried(Result<(), Error>),
    /// The devices on USB.
    UsbListed(Result<Vec<MtpDeviceInfo>, PtpError>),
}

/// An [`OpenEvent`] with its parts as views.
pub enum OpenEventView {
    WpdTried(Result<(), ErrorView>),
    UsbListed(Result<Seq<MtpDeviceInfoView>, PtpErrorView>),
}

impl View for OpenEvent {
    type V = OpenEventView;

    open spec fn view(&self) -> OpenEventView {
        match self {
            OpenEvent::WpdTried(r) => OpenEventView::WpdTried(error::outcome(*r)),
            OpenEvent::UsbListed(r) => OpenEventView::UsbListed(
                match r {
                    Ok(devices) => Ok(device::device_views(devices@)),
                    Err(e) => Err(e@),
                },
            ),
        }
    }
}

/// A device being opened.
#[derive(Debug)]
pub struct DeviceOpening {
    pub backend: Backend,
    pub windows: bool,
    pub target: DeviceTarget,
    pub step: OpenStep,
}

/// A [`DeviceOpening`] with its parts as views.
pub struct DeviceOpeningView {
    pub backend: Backend,
    pub windows: bool,
    pub target: DeviceTargetView,
    pub step: OpenStepView,
}

impl View for DeviceOpening {
    type V = DeviceOpeningView;

    open spec fn view(&self) -> DeviceOpeningView {
        DeviceOpeningView {
            backend: self.backend,
            windows: self.windows,
            target: self.target@,
            step: self.step@,
        }
    }
}

/// The step that leads to a real device when WPD comes in, with what follows where it does not.
pub open spec fn wpd_or(
    backend: Backend,
    windows: bool,
    attempt: OpenStepView,
    otherwise: OpenStepView,
) -> OpenStepView {
    match device::wpd_choice(backend, windows) {
        WpdPlan::Try => attempt,
        WpdPlan::Skip => otherwise,
        WpdPlan::Refuse => OpenStepView::Fail(ErrorView::Unsupported),
    }
}

/// The first step: the virtual device if there is one, WPD where it is wanted, and USB otherwise. A device
/// that is meant by its location is looked up on USB first, because WPD does not know locations.
pub open spec fn first_step(
    backend: Backend,
    windows: bool,
    target: DeviceTargetView,
    virtual_config: Option<VirtualDeviceConfigView>,
) -> OpenStepView {
    match virtual_config {
        Some(config) => OpenStepView::Virtual(config),
        None => match target {
            DeviceTargetView::Location(_) => OpenStepView::ListUsb,
            _ => wpd_or(backend, windows, OpenStepView::TryWpd, OpenStepView::ListUsb),
        },
    }
}

/// The step after an attempt over WPD, with what follows where USB takes over.
pub open spec fn after_wpd(
    backend: Backend,
    attempt: Result<(), ErrorView>,
    fallback: OpenStepView,
) -> OpenStepView {
    match attempt {
        Ok(_) => OpenStepView::Opened,
        Err(e) => if device::falls_back(backend, e) {
            fallback
        } else {
            OpenStepView::Fail(e)
        },
    }
}

/// Whether an event answers a step.
pub open spec fn answers(step: OpenStepView, event: OpenEventView) -> bool {
    match step {
        OpenStepView::TryWpd | OpenStepView::TryWpdFor(_) => event is WpdTried,
        OpenStepView::ListUsb => event is UsbListed,
        _ => false,
    }
}

/// The step after an event.
pub open spec fn next_step(o: DeviceOpeningView, event: OpenEventView) -> OpenStepView {
    match event {
        OpenEventView::WpdTried(attempt) => match o.step {
            OpenStepView::TryWpdFor(i) => after_wpd(o.backend, attempt, OpenStepView::OpenUsb(i)),
            _ => after_wpd(o.backend, attempt, OpenStepView::ListUsb),
        },
        OpenEventView::UsbListed(listed) => match listed {
            Err(e) => OpenStepView::Fail(error::error_of_ptp(e)),
            Ok(devices) => match device::found(devices, o.target) {
                Err(e) => OpenStepView::Fail(e),
                Ok(i) => match o.target {
                    DeviceTargetView::Location(_) => wpd_or(
                        o.backend,
                        o.windows,
                        OpenStepView::TryWpdFor(i),
                        OpenStepView::OpenUsb(i),
                    ),
                    _ => OpenStepView::OpenUsb(i),
                },
            },
        },
    }
}

impl MtpDeviceBuilder {
    /// Start to open a device, given the virtual device that is meant if there is one.
    fn start(&self, target: DeviceTarget, virtual_config: Option<VirtualDeviceConfig>, windows: bool) -> (r:
        DeviceOpening)
        ensures
            r@.backend == self.backend,
            r@.windows == windows,
            r@.target == target@,
            r@.step == first_step(
                self.backend,
                windows,
                target@,
                match virtual_config {
                    Some(config) => Some(config@),
                    None => None,
                },
            ),
    {
        let step = match virtual_config {
            Some(config) => OpenStep::Virtual(config),
            None => match &target {
                DeviceTarget::Location(_) => OpenStep::ListUsb,
                _ => match self.wpd_plan(windows) {
                    WpdPlan::Try => OpenStep::TryWpd,
                    WpdPlan::Skip => OpenStep::ListUsb,
                    WpdPlan::Refuse => OpenStep::Fail(Error::Unsupported),
                },
            },
        };
        DeviceOpening { backend: self.backend, windows, target, step }
    }

    /// Start to open the first device there is.
    pub fn open_first(&self, windows: bool) -> (r: DeviceOpening)
        ensures
            r@ == (DeviceOpeningView {
                backend: self.backend,
                windows,
                target: DeviceTargetView::First,
                step: first_step(self.backend, windows, DeviceTargetView::First, None),
            }),
    {
        self.start(DeviceTarget::First, None, windows)
    }

    /// Start to open the device with a serial number, given the virtual device of that serial number if
    /// there is one.
    pub fn open_by_serial(
        &self,
        serial: &str,
        virtual_config: Option<VirtualDeviceConfig>,
        windows: bool,
    ) -> (r: DeviceOpening)
        ensures
            r@ == (DeviceOpeningView {
                backend: self.backend,
                windows,
                target: DeviceTargetView::Serial(serial@),
                step: first_step(
                    self.backend,
                    windows,
                    DeviceTargetView::Serial(serial@),
                    match virtual_config {
                        Some(config) => Some(config@),
                        None => None,
                    },
                ),
            }),
    {
        self.start(DeviceTarget::Serial(serial.to_owned()), virtual_config, windows)
    }

    /// Start to open the device at a location, given the virtual device there if there is one.
    pub fn open_by_location(
        &self,
        location_id: u64,
        virtual_config: Option<VirtualDeviceConfig>,
        windows: bool,
    ) -> (r: DeviceOpening)
        ensures
            r@ == (DeviceOpeningView {
                backend: self.backend,
                windows,
                target: DeviceTargetView::Location(location_id),
                step: first_step(
                    self.backend,
                    windows,
                    DeviceTargetView::Location(location_id),
                    match virtual_config {
                        Some(config) => Some(config@),
                        None => None,
                    },
                ),
            }),
    {
        self.start(DeviceTarget::Location(location_id), virtual_config, windows)
    }
}

/// What an attempt over WPD comes to, with what follows where USB takes over.
fn settle_wpd(backend: Backend, attempt: Result<(), Error>, fallback: OpenStep) -> (r: OpenStep)
    ensures
        r@ == after_wpd(backend, error::outcome(attempt), fallback@),
{
    match attempt {
        Ok(_) => OpenStep::Opened,
        Err(e) => {
            let absent = match e {
                Error::NoDevice => true,
                _ => false,
            };
            if backend == Backend::Wpd || !absent {
                OpenStep::Fail(e)
            } else {
                fallback
            }
        },
    }
}

impl DeviceOpening {
    /// Take how the step went, and settle the next one.
    pub fn advance(&mut self, event: OpenEvent)
        requires
            answers(old(self)@.step, event@),
        ensures
            final(self)@ == (DeviceOpeningView {
                step: next_step(old(self)@, event@),
                ..old(self)@
            }),
    {
        let step = match event {
            OpenEvent::WpdTried(attempt) => {
                let fallback = match &self.step {
                    OpenStep::TryWpdFor(i) => OpenStep::OpenUsb(*i),
                    _ => OpenStep::ListUsb,
                };
                settle_wpd(self.backend, attempt, fallback)
            },
            OpenEvent::UsbListed(listed) => match listed {
                Err(e) => OpenStep::Fail(Error::from(e)),
                Ok(devices) => match find_device(devices.as_slice(), &self.target) {
                    Err(e) => OpenStep::Fail(e),
                    Ok(i) => match &self.target {
                        DeviceTarget::Location(_) => match device::wpd_plan_of(
                            self.backend,
                            self.windows,
                        ) {
                            WpdPlan::Try => OpenStep::TryWpdFor(i),
                            WpdPlan::Skip => OpenStep::OpenUsb(i),
                            WpdPlan::Refuse => OpenStep::Fail(Error::Unsupported),
                        },
                        _ => OpenStep::OpenUsb(i),
                    },
                },
            },
        };
        self.step = step;
    }
}

/// The steps of an opening, one after another, as its events come in.
pub open spec fn opening_run(start: DeviceOpeningView, events: Seq<OpenEventView>) -> DeviceOpeningView
    decreases events.len(),
{
    if events.len() == 0 {
        start
    } else {
        let before = opening_run(start, events.drop_last());
        DeviceOpeningView { step: next_step(before, events.last()), ..before }
    }
}

/// Whether events, one after another, each answer the step before them.
pub open spec fn is_opening_run(start: DeviceOpeningView, events: Seq<OpenEventView>) -> bool
    decreases events.len(),
{
    events.len() == 0 || (is_opening_run(start, events.drop_last()) && answers(
        opening_run(start, events.drop_last()).step,
        events.last(),
    ))
}

/// An opening as it starts.
pub open spec fn fresh_opening(
    backend: Backend,
    windows: bool,
    target: DeviceTargetView,
    virtual_config: Option<VirtualDeviceConfigView>,
) -> DeviceOpeningView {
    DeviceOpeningView {
        backend,
        windows,
        target,
        step: first_step(backend, windows, target, virtual_config),
    }
}

/// A caller who named a backend never gets the other one: with `Usb`, WPD is never tried, and with `Wpd`,
/// no device is ever opened over USB. Outside Windows WPD is never tried at all.
pub proof fn law_named_backend_is_kept(
    backend: Backend,
    windows: bool,
    target: DeviceTargetView,
    virtual_config: Option<VirtualDeviceConfigView>,
    events: Seq<OpenEventView>,
)
    requires
        is_opening_run(fresh_opening(backend, windows, target, virtual_config), events),
    ensures
        ({
            let o = opening_run(fresh_opening(backend, windows, target, virtual_config), events);
            &&& o.backend == backend && o.windows == windows && o.target == target
            &&& backend == Backend::Usb || !windows ==> !(o.step is TryWpd) && !(o.step is TryWpdFor)
            &&& backend == Backend::Wpd ==> !(o.step is OpenUsb)
        }),
    decreases events.len(),
{
    if events.len() > 0 {
        law_named_backend_is_kept(backend, windows, target, virtual_config, events.drop_last());
        let before = opening_run(
            fresh_opening(backend, windows, target, virtual_config),
            events.drop_last(),
        );
        if backend == Backend::Wpd {
            lemma_wpd_needs_no_list(backend, windows, target, virtual_config, events.drop_last());
        }
    }
}

/// Where WPD was named, the devices on USB are listed only to find one by its location.
proof fn lemma_wpd_needs_no_list(
    backend: Backend,
    windows: bool,
    target: DeviceTargetView,
    virtual_config: Option<VirtualDeviceConfigView>,
    events: Seq<OpenEventView>,
)
    requires
        backend == Backend::Wpd,
        is_opening_run(fresh_opening(backend, windows, target, virtual_config), events),
    ensures
        ({
            let o = opening_run(fresh_opening(backend, windows, target, virtual_config), events);
            &&& o.backend == backend && o.target == target
            &&& o.step is ListUsb ==> target is Location
        }),
    decreases events.len(),
{
    if events.len() > 0 {
        lemma_wpd_needs_no_list(backend, windows, target, virtual_config, events.drop_last());
    }
}

/// A virtual device comes before any real one, and nothing else is tried for it.
pub proof fn law_virtual_devices_come_first(
    backend: Backend,
    windows: bool,
    target: DeviceTargetView,
    config: VirtualDeviceConfigView,
    events: Seq<OpenEventView>,
)
    requires
        is_opening_run(fresh_opening(backend, windows, target, Some(config)), events),
    ensures
        events.len() == 0,
        fresh_opening(backend, windows, target, Some(config)).step == OpenStepView::Virtual(config),
    decreases events.len(),
{
    if events.len() > 0 {
        law_virtual_devices_come_first(backend, windows, target, config, events.drop_last());
    }
}

/// Opening a device takes at most two answers.
pub proof fn law_opening_is_bounded(
    backend: Backend,
    windows: bool,
    target: DeviceTargetView,
    virtual_config: Option<VirtualDeviceConfigView>,
    events: Seq<OpenEventView>,
)
    requires
        is_opening_run(fresh_opening(backend, windows, target, virtual_config), events),
    ensures
        events.len() <= 2,
{
    if events.len() > 2 {
        let start = fresh_opening(backend, windows, target, virtual_config);
        lemma_opening_prefix(start, events, 3);
        let first = events.take(3);
        let one = first.drop_last().drop_last();
        assert(one.drop_last() =~= Seq::empty());
        reveal_with_fuel(is_opening_run, 4);
        reveal_with_fuel(opening_run, 4);
        assert(is_opening_run(start, first));
        assert(opening_run(start, one.drop_last()) == start);
        assert(false);
    }
}

/// The first events of a run are a run.
proof fn lemma_opening_prefix(start: DeviceOpeningView, events: Seq<OpenEventView>, n: int)
    requires
        is_opening_run(start, events),
        0 <= n <= events.len(),
    ensures
        is_opening_run(start, events.take(n)),
    decreases events.len(),
{
    if n == events.len() {
        assert(events.take(n) =~= events);
    } else {
        lemma_opening_prefix(start, events.drop_last(), n);
        assert(events.drop_last().take(n) =~= events.take(n));
    }
}

} // verus!
