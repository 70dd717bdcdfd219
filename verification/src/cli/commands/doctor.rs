//! `doctor`: what it does in what order, what it prints, and the report it ends with.

use vstd::prelude::*;

use crate::cli::args::DoctorArgs;
use crate::cli::commands::probe;
use crate::cli::commands::probe::{
    CancelActionView, CancelProbe, CancelProbeRow, CancelProbeRowView,
};
use crate::cli::error::{CliError, CliErrorKind, CliErrorView};
use crate::mtp::device;
use crate::mtp::device::{MtpDeviceInfo, MtpDeviceInfoView};
use crate::mtp::error;
use crate::mtp::error::Error;
use crate::mtp::storage;
use crate::mtp::storage::{ObjectCollection, SkippedObject, SkippedObjectView};
use crate::mtp::types::{Capabilities, DeviceInfo, ObjectInfo, ObjectInfoView, StorageInfo};
use crate::text;

verus! {

/// The device that was opened.
#[derive(Debug)]
pub struct OpenedDeviceRow {
    pub manufacturer: String,
    pub model: String,
    pub serial_number: String,
    pub capabilities: Capabilities,
}

/// An [`OpenedDeviceRow`] with its texts as sequences of characters.
pub struct OpenedDeviceRowView {
    pub manufacturer: Seq<char>,
    pub model: Seq<char>,
    pub serial_number: Seq<char>,
    pub capabilities: Capabilities,
}

impl View for OpenedDeviceRow {
    type V = OpenedDeviceRowView;

    open spec fn view(&self) -> OpenedDeviceRowView {
        OpenedDeviceRowView {
            manufacturer: self.manufacturer@,
            model: self.model@,
            serial_number: self.serial_number@,
            capabilities: self.capabilities,
        }
    }
}

/// A handle the device enumerated at a storage root but would not describe.
#[derive(Debug)]
pub struct UnreadableObjectRow {
    pub handle: u64,
    pub error: String,
}

/// An [`UnreadableObjectRow`] with its text as a sequence of characters.
pub struct UnreadableObjectRowView {
    pub handle: u64,
    pub error: Seq<char>,
}

impl View for UnreadableObjectRow {
    type V = UnreadableObjectRowView;

    open spec fn view(&self) -> UnreadableObjectRowView {
        UnreadableObjectRowView { handle: self.handle, error: self.error@ }
    }
}

/// What was found on one storage.
#[derive(Debug)]
pub struct DoctorStorageRow {
    /// Which of the device's storages it is.
    pub index: usize,
    pub root_listed: bool,
    pub writable_folder_hints: Vec<String>,
    pub unreadable_root_objects: Vec<UnreadableObjectRow>,
}

/// A [`DoctorStorageRow`] with its parts as views.
pub struct DoctorStorageRowView {
    pub index: int,
    pub root_listed: bool,
    pub writable_folder_hints: Seq<Seq<char>>,
    pub unreadable_root_objects: Seq<UnreadableObjectRowView>,
}

/// Unreadable objects as views.
pub open spec fn unreadable_views(rows: Seq<UnreadableObjectRow>) -> Seq<UnreadableObjectRowView> {
    rows.map_values(|r: UnreadableObjectRow| r@)
}

impl View for DoctorStorageRow {
    type V = DoctorStorageRowView;

    open spec fn view(&self) -> DoctorStorageRowView {
        DoctorStorageRowView {
            index: self.index as int,
            root_listed: self.root_listed,
            writable_folder_hints: text::views(self.writable_folder_hints@),
            unreadable_root_objects: unreadable_views(self.unreadable_root_objects@),
        }
    }
}

/// The report.
#[derive(Debug)]
pub struct DoctorRow {
    pub devices: Vec<MtpDeviceInfo>,
    pub opened: Option<OpenedDeviceRow>,
    pub open_error: Option<String>,
    pub open_help: Option<String>,
    pub storages: Vec<DoctorStorageRow>,
    pub cancel_probe: Option<CancelProbeRow>,
}

/// A [`DoctorRow`] with its parts as views.
pub struct DoctorRowView {
    pub devices: Seq<MtpDeviceInfoView>,
    pub opened: Option<OpenedDeviceRowView>,
    pub open_error: Option<Seq<char>>,
    pub open_help: Option<Seq<char>>,
    pub storages: Seq<DoctorStorageRowView>,
    pub cancel_probe: Option<CancelProbeRowView>,
}

/// Storage rows as views.
pub open spec fn storage_row_views(rows: Seq<DoctorStorageRow>) -> Seq<DoctorStorageRowView> {
    rows.map_values(|r: DoctorStorageRow| r@)
}

impl View for DoctorRow {
    type V = DoctorRowView;

    open spec fn view(&self) -> DoctorRowView {
        DoctorRowView {
            devices: device::device_views(self.devices@),
            opened: match self.opened {
                Some(row) => Some(row@),
                None => None,
            },
            open_error: device::optional_text(self.open_error),
            open_help: device::optional_text(self.open_help),
            storages: storage_row_views(self.storages@),
            cancel_probe: match self.cancel_probe {
                Some(row) => Some(row@),
                None => None,
            },
        }
    }
}

/// A report with nothing in it.
pub open spec fn empty_row() -> DoctorRowView {
    DoctorRowView {
        devices: Seq::empty(),
        opened: None,
        open_error: None,
        open_help: None,
        storages: Seq::empty(),
        cancel_probe: None,
    }
}

/// What to do next.
#[derive(Debug)]
pub enum DoctorNext {
    /// Open the selected device.
    Open,
    /// List the storages of the open device.
    ListStorages,
    /// Read the root of this storage.
    CollectRoot(usize),
    /// Run this cancel probe on the first storage.
    Probe(CancelProbe),
    /// All is done.
    Finish,
    /// The command has failed.
    Fail(CliError),
}

/// A [`DoctorNext`] with its error as a view.
pub enum DoctorNextView {
    Open,
    ListStorages,
    CollectRoot(int),
    Probe(CancelActionView),
    Finish,
    Fail(CliErrorView),
}

impl View for DoctorNext {
    type V = DoctorNextView;

    open spec fn view(&self) -> DoctorNextView {
        match self {
            DoctorNext::Open => DoctorNextView::Open,
            DoctorNext::ListStorages => DoctorNextView::ListStorages,
            DoctorNext::CollectRoot(i) => DoctorNextView::CollectRoot(*i as int),
            DoctorNext::Probe(probe) => DoctorNextView::Probe(probe.action@),
            DoctorNext::Finish => DoctorNextView::Finish,
            DoctorNext::Fail(e) => DoctorNextView::Fail(e@),
        }
    }
}

/// What to print now, and what to do next.
#[derive(Debug)]
pub struct DoctorReply {
    /// Lines of text to print.
    pub lines: Vec<String>,
    /// Whether to print the report now, as JSON.
    pub emit: bool,
    pub next: DoctorNext,
}

/// A [`DoctorReply`] with its parts as views.
pub struct DoctorReplyView {
    pub lines: Seq<Seq<char>>,
    pub emit: bool,
    pub next: DoctorNextView,
}

impl View for DoctorReply {
    type V = DoctorReplyView;

    open spec fn view(&self) -> DoctorReplyView {
        DoctorReplyView { lines: text::views(self.lines@), emit: self.emit, next: self.next@ }
    }
}

/// A device that would not open: the failure, its text, and advice if there is any.
#[derive(Debug)]
pub struct OpenFailure {
    pub error: CliError,
    pub message: String,
    pub help: Option<String>,
}

/// A run of `doctor`.
#[derive(Debug)]
pub struct Doctor {
    pub json: bool,
    /// Whether the cancel probe was asked for.
    pub probe_wanted: bool,
    /// The file to probe with, if the user named one.
    pub probe_path: Option<String>,
    pub row: DoctorRow,
    /// The storages of the open device.
    pub storages: Vec<StorageInfo>,
}

impl Doctor {
    /// How the cancel probe begins, if it was asked for.
    pub open spec fn probe(&self) -> Option<CancelActionView> {
        if self.probe_wanted {
            Some(probe::probe_start(device::optional_text(self.probe_path)))
        } else {
            None
        }
    }
}

/// How the cancel probe that the arguments ask for begins: naming a file to probe with asks for the probe, of
/// that very file.
pub open spec fn probe_asked(args: DoctorArgs) -> Option<CancelActionView> {
    match args.probe_path {
        Some(path) => Some(CancelActionView::ResolvePath(path@)),
        None => if args.probe_cancel {
            Some(CancelActionView::Search)
        } else {
            None
        },
    }
}

/// Lines that are printed only without JSON.
pub open spec fn shown(json: bool, lines: Seq<Seq<char>>) -> Seq<Seq<char>> {
    if json {
        Seq::empty()
    } else {
        lines
    }
}

/// The lines about the visible devices.
pub open spec fn device_lines(devices: Seq<MtpDeviceInfoView>) -> Seq<Seq<char>> {
    seq!["devices: "@ + text::decimal(devices.len()) + " visible"@] + devices.map_values(
        |d: MtpDeviceInfoView| "  "@ + device::device_text(d),
    )
}

/// The lines about the open device.
pub open spec fn opened_lines(o: OpenedDeviceRowView) -> Seq<Seq<char>> {
    let c = o.capabilities;
    seq![
        "open: ok ("@ + o.manufacturer + " "@ + o.model + ")"@,
        "capabilities: upload="@ + text::flag_text(c.can_upload) + " delete="@ + text::flag_text(
            c.can_delete,
        ) + " rename="@ + text::flag_text(c.can_rename) + " move="@ + text::flag_text(c.can_move)
            + " copy="@ + text::flag_text(c.can_copy) + " mkdir="@ + text::flag_text(
            c.can_create_folder,
        ) + " partial_download="@ + text::flag_text(c.supports_partial_download) + " thumbnails="@
            + text::flag_text(c.supports_thumbnails) + " events="@ + text::flag_text(
            c.supports_events,
        ),
    ]
}

/// The line about the number of storages.
pub open spec fn count_line(count: nat) -> Seq<char> {
    "storages: "@ + text::decimal(count)
}

/// The line about a storage.
pub open spec fn storage_line(index: int, info: StorageInfo) -> Seq<char> {
    "  ["@ + text::decimal(index as nat) + "] "@ + info.description@ + " free="@ + text::decimal(
        info.free_space as nat,
    ) + " access="@ + (if info.is_writable {
        "ReadWrite"@
    } else {
        "ReadOnly"@
    })
}

/// The rows about objects that could not be read.
pub open spec fn unreadable_of(skipped: Seq<SkippedObjectView>) -> Seq<UnreadableObjectRowView> {
    skipped.map_values(
        |s: SkippedObjectView|
            UnreadableObjectRowView { handle: s.handle.0, error: error::error_text(s.error) },
    )
}

/// The lines about objects that could not be read, if there are any.
pub open spec fn unreadable_lines(rows: Seq<UnreadableObjectRowView>) -> Seq<Seq<char>> {
    if rows.len() == 0 {
        Seq::empty()
    } else {
        seq![
            "      unreadable at root: "@ + text::decimal(rows.len())
                + " object(s) the device listed but won't describe"@,
        ] + rows.map_values(
            |r: UnreadableObjectRowView|
                "        handle="@ + text::decimal(r.handle as nat) + " "@ + r.error,
        )
    }
}

/// The folders that are usually writable, in the order they are reported.
pub open spec fn hint_names() -> Seq<Seq<char>> {
    seq![
        "Download"@,
        "Downloads"@,
        "Documents"@,
        "Music"@,
        "Pictures"@,
        "Audiobooks"@,
        "Podcasts"@,
        "GARMIN"@,
    ]
}

/// Whether a folder of this name is among the objects.
pub open spec fn has_folder(root: Seq<ObjectInfoView>, name: Seq<char>) -> bool {
    exists|i: int| 0 <= i < root.len() && (#[trigger] root[i]).is_folder() && root[i].filename == name
}

/// The usually writable folders at a storage root.
pub open spec fn hints_of(root: Seq<ObjectInfoView>) -> Seq<Seq<char>> {
    hint_names().filter(|name: Seq<char>| has_folder(root, name))
}

/// The line about the usually writable folders.
pub open spec fn hints_line(hints: Seq<Seq<char>>) -> Seq<char> {
    if hints.len() == 0 {
        "      writable-folder hints: none found at root"@
    } else {
        "      writable-folder hints: "@ + text::joined(hints, ", "@)
    }
}

/// The line about the cancel probe.
pub open spec fn probe_line(row: CancelProbeRowView) -> Seq<char> {
    "cancel-probe: "@ + row.outcome + " ("@ + row.detail + ")"@
}

/// The probe of a device without storages.
pub open spec fn nothing_to_probe() -> CancelProbeRowView {
    CancelProbeRowView { outcome: "skipped"@, detail: "no storage to probe"@ }
}

/// The lines about a device.
fn write_device_lines(devices: &Vec<MtpDeviceInfo>) -> (r: Vec<String>)
    ensures
        text::views(r@) == device_lines(device::device_views(devices@)),
{
    let ghost all = device::device_views(devices@);
    let mut head = "devices: ".to_owned();
    head.append(text::write_count(devices.len()).as_str());
    head.append(" visible");
    let ghost first = head@;
    let mut r: Vec<String> = Vec::new();
    text::push_text(&mut r, head);
    let mut i: usize = 0;
    assert(text::views(r@) =~= seq![first] + all.take(0).map_values(
        |d: MtpDeviceInfoView| "  "@ + device::device_text(d),
    ));
    while i < devices.len()
        invariant
            i <= devices@.len(),
            all == device::device_views(devices@),
            text::views(r@) == seq![first] + all.take(i as int).map_values(
                |d: MtpDeviceInfoView| "  "@ + device::device_text(d),
            ),
        decreases devices.len() - i,
    {
        let mut line = "  ".to_owned();
        line.append(devices[i].display().as_str());
        text::push_text(&mut r, line);
        assert(text::views(r@) =~= seq![first] + all.take(i + 1).map_values(
            |d: MtpDeviceInfoView| "  "@ + device::device_text(d),
        ));
        i = i + 1;
    }
    assert(all.take(i as int) =~= all);
    r
}

/// The lines about the open device.
fn write_opened_lines(o: &OpenedDeviceRow) -> (r: Vec<String>)
    ensures
        text::views(r@) == opened_lines(o@),
{
    let mut head = "open: ok (".to_owned();
    head.append(o.manufacturer.as_str());
    head.append(" ");
    head.append(o.model.as_str());
    head.append(")");
    let c = &o.capabilities;
    let mut caps = "capabilities: upload=".to_owned();
    caps.append(text::write_flag(c.can_upload));
    caps.append(" delete=");
    caps.append(text::write_flag(c.can_delete));
    caps.append(" rename=");
    caps.append(text::write_flag(c.can_rename));
    caps.append(" move=");
    caps.append(text::write_flag(c.can_move));
    caps.append(" copy=");
    caps.append(text::write_flag(c.can_copy));
    caps.append(" mkdir=");
    caps.append(text::write_flag(c.can_create_folder));
    caps.append(" partial_download=");
    caps.append(text::write_flag(c.supports_partial_download));
    caps.append(" thumbnails=");
    caps.append(text::write_flag(c.supports_thumbnails));
    caps.append(" events=");
    caps.append(text::write_flag(c.supports_events));
    let mut r: Vec<String> = Vec::new();
    text::push_text(&mut r, head);
    text::push_text(&mut r, caps);
    assert(text::views(r@) =~= opened_lines(o@));
    r
}

/// The line about a storage.
fn write_storage_line(index: usize, info: &StorageInfo) -> (r: String)
    ensures
        r@ == storage_line(index as int, *info),
{
    let mut r = "  [".to_owned();
    r.append(text::write_count(index).as_str());
    r.append("] ");
    r.append(info.description.as_str());
    r.append(" free=");
    r.append(text::write_decimal(info.free_space).as_str());
    r.append(" access=");
    if info.is_writable {
        r.append("ReadWrite");
    } else {
        r.append("ReadOnly");
    }
    r
}

/// The rows about objects that could not be read.
fn write_unreadable(skipped: &Vec<SkippedObject>) -> (r: Vec<UnreadableObjectRow>)
    ensures
        unreadable_views(r@) == unreadable_of(storage::skipped_views(skipped@)),
{
    let ghost all = storage::skipped_views(skipped@);
    let mut r: Vec<UnreadableObjectRow> = Vec::new();
    let mut i: usize = 0;
    while i < skipped.len()
        invariant
            i <= skipped@.len(),
            all == storage::skipped_views(skipped@),
            r@.len() == i,
            forall|j: int| 0 <= j < i ==> (#[trigger] r@[j])@ == unreadable_of(all)[j],
        decreases skipped.len() - i,
    {
        r.push(
            UnreadableObjectRow {
                handle: skipped[i].handle.0,
                error: skipped[i].error.describe(),
            },
        );
        i = i + 1;
    }
    assert(unreadable_views(r@) =~= unreadable_of(all));
    r
}

/// The lines about objects that could not be read.
fn write_unreadable_lines(rows: &Vec<UnreadableObjectRow>) -> (r: Vec<String>)
    ensures
        text::views(r@) == unreadable_lines(unreadable_views(rows@)),
{
    let ghost all = unreadable_views(rows@);
    let mut r: Vec<String> = Vec::new();
    if rows.is_empty() {
        assert(text::views(r@) =~= unreadable_lines(all));
        return r;
    }
    let mut head = "      unreadable at root: ".to_owned();
    head.append(text::write_count(rows.len()).as_str());
    head.append(" object(s) the device listed but won't describe");
    let ghost first = head@;
    text::push_text(&mut r, head);
    let mut i: usize = 0;
    assert(text::views(r@) =~= seq![first] + all.take(0).map_values(
        |r: UnreadableObjectRowView|
            "        handle="@ + text::decimal(r.handle as nat) + " "@ + r.error,
    ));
    while i < rows.len()
        invariant
            i <= rows@.len(),
            all == unreadable_views(rows@),
            text::views(r@) == seq![first] + all.take(i as int).map_values(
                |r: UnreadableObjectRowView|
                    "        handle="@ + text::decimal(r.handle as nat) + " "@ + r.error,
            ),
        decreases rows.len() - i,
    {
        let mut line = "        handle=".to_owned();
        line.append(text::write_decimal(rows[i].handle).as_str());
        line.append(" ");
        line.append(rows[i].error.as_str());
        text::push_text(&mut r, line);
        assert(text::views(r@) =~= seq![first] + all.take(i + 1).map_values(
            |r: UnreadableObjectRowView|
                "        handle="@ + text::decimal(r.handle as nat) + " "@ + r.error,
        ));
        i = i + 1;
    }
    assert(all.take(i as int) =~= all);
    r
}

/// Whether a folder of this name is among the objects.
fn find_folder(root: &Vec<ObjectInfo>, name: &str) -> (r: bool)
    ensures
        r == has_folder(storage::object_views(root@), name@),
{
    let ghost all = storage::object_views(root@);
    let mut i: usize = 0;
    while i < root.len()
        invariant
            i <= root@.len(),
            all == storage::object_views(root@),
            forall|j: int|
                0 <= j < i ==> !((#[trigger] all[j]).is_folder() && all[j].filename == name@),
        decreases root.len() - i,
    {
        if root[i].is_folder() && text::same(root[i].filename.as_str(), name) {
            assert(all[i as int].is_folder() && all[i as int].filename == name@);
            return true;
        }
        i = i + 1;
    }
    false
}

/// Add a name to the hints if there is a folder of that name.
fn hint(root: &Vec<ObjectInfo>, name: &str, hints: &mut Vec<String>)
    ensures
        text::views(final(hints)@) == (if has_folder(storage::object_views(root@), name@) {
            text::views(old(hints)@).push(name@)
        } else {
            text::views(old(hints)@)
        }),
{
    if find_folder(root, name) {
        text::push_text(hints, name.to_owned());
    }
}

/// The usually writable folders at a storage root.
pub fn writable_folder_hints(root: &Vec<ObjectInfo>) -> (r: Vec<String>)
    ensures
        text::views(r@) == hints_of(storage::object_views(root@)),
{
    let ghost all = storage::object_views(root@);
    let ghost p = |name: Seq<char>| has_folder(all, name);
    let ghost names = hint_names();
    let mut r: Vec<String> = Vec::new();
    assert(text::views(r@) =~= Seq::empty());
    hint(root, "Download", &mut r);
    hint(root, "Downloads", &mut r);
    hint(root, "Documents", &mut r);
    hint(root, "Music", &mut r);
    hint(root, "Pictures", &mut r);
    hint(root, "Audiobooks", &mut r);
    hint(root, "Podcasts", &mut r);
    hint(root, "GARMIN", &mut r);
    proof {
        lemma_filter_step(names, 0, p);
        lemma_filter_step(names, 1, p);
        lemma_filter_step(names, 2, p);
        lemma_filter_step(names, 3, p);
        lemma_filter_step(names, 4, p);
        lemma_filter_step(names, 5, p);
        lemma_filter_step(names, 6, p);
        lemma_filter_step(names, 7, p);
        assert(names.take(0) =~= Seq::empty());
        assert(names.take(0).filter(p) =~= Seq::empty()) by {
            reveal(Seq::filter);
        }
        assert(names.take(8) =~= names);
    }
    r
}

proof fn lemma_filter_step(names: Seq<Seq<char>>, i: int, p: spec_fn(Seq<char>) -> bool)
    requires
        0 <= i < names.len(),
    ensures
        names.take(i + 1).filter(p) == (if p(names[i]) {
            names.take(i).filter(p).push(names[i])
        } else {
            names.take(i).filter(p)
        }),
{
    reveal(Seq::filter);
    assert(names.take(i + 1).drop_last() =~= names.take(i));
    assert(names.take(i + 1).last() == names[i]);
}

/// The line about the usually writable folders.
fn write_hints_line(hints: &Vec<String>) -> (r: String)
    ensures
        r@ == hints_line(text::views(hints@)),
{
    if hints.is_empty() {
        "      writable-folder hints: none found at root".to_owned()
    } else {
        let mut r = "      writable-folder hints: ".to_owned();
        r.append(text::join(hints, ", ").as_str());
        r
    }
}

/// The line about the cancel probe.
fn write_probe_line(row: &CancelProbeRow) -> (r: String)
    ensures
        r@ == probe_line(row@),
{
    let mut r = "cancel-probe: ".to_owned();
    r.append(row.outcome);
    r.append(" (");
    r.append(row.detail.as_str());
    r.append(")");
    r
}

/// A failure before the report is complete: nothing more is printed.
pub open spec fn failed(e: CliErrorView) -> DoctorReplyView {
    DoctorReplyView { lines: Seq::empty(), emit: false, next: DoctorNextView::Fail(e) }
}

/// What follows the list of visible devices: the report, and the reply.
pub open spec fn after_devices(
    json: bool,
    row: DoctorRowView,
    devices: Result<Seq<MtpDeviceInfoView>, error::ErrorView>,
) -> (DoctorRowView, DoctorReplyView) {
    match devices {
        Err(e) => (row, failed(CliErrorView::Device { context: "list devices"@, source: e })),
        Ok(devices) => if devices.len() == 0 {
            (
                row,
                DoctorReplyView {
                    lines: shown(json, seq!["devices: none"@]),
                    emit: json,
                    next: DoctorNextView::Fail(
                        CliErrorView::Plain {
                            kind: CliErrorKind::NoDevice,
                            message: "no MTP device found"@,
                        },
                    ),
                },
            )
        } else {
            (
                DoctorRowView { devices, ..row },
                DoctorReplyView {
                    lines: shown(json, device_lines(devices)),
                    emit: false,
                    next: DoctorNextView::Open,
                },
            )
        },
    }
}

/// What follows the attempt to open the device, where it failed.
pub open spec fn after_open_failure(json: bool, row: DoctorRowView, failure: OpenFailure) -> (
    DoctorRowView,
    DoctorReplyView,
) {
    (
        DoctorRowView {
            open_error: Some(failure.message@),
            open_help: device::optional_text(failure.help),
            ..row
        },
        DoctorReplyView {
            lines: Seq::empty(),
            emit: json,
            next: DoctorNextView::Fail(failure.error@),
        },
    )
}

/// What follows the attempt to open the device, where it succeeded.
pub open spec fn after_open(json: bool, row: DoctorRowView, opened: OpenedDeviceRowView) -> (
    DoctorRowView,
    DoctorReplyView,
) {
    (
        DoctorRowView { opened: Some(opened), ..row },
        DoctorReplyView {
            lines: shown(json, opened_lines(opened)),
            emit: false,
            next: DoctorNextView::ListStorages,
        },
    )
}

/// What comes once `done` of the storages have been read: the next storage, the cancel probe, or the end.
pub open spec fn after_storage(
    json: bool,
    probe: Option<CancelActionView>,
    row: DoctorRowView,
    storages: Seq<StorageInfo>,
    done: int,
    lines: Seq<Seq<char>>,
) -> (DoctorRowView, DoctorReplyView) {
    if done < storages.len() {
        (
            row,
            DoctorReplyView {
                lines: shown(json, lines.push(storage_line(done, storages[done]))),
                emit: false,
                next: DoctorNextView::CollectRoot(done),
            },
        )
    } else if probe is Some && storages.len() > 0 {
        (
            row,
            DoctorReplyView {
                lines: shown(json, lines),
                emit: false,
                next: DoctorNextView::Probe(probe->0),
            },
        )
    } else if probe is Some {
        (
            DoctorRowView { cancel_probe: Some(nothing_to_probe()), ..row },
            DoctorReplyView {
                lines: shown(json, lines.push(probe_line(nothing_to_probe()))),
                emit: json,
                next: DoctorNextView::Finish,
            },
        )
    } else {
        (
            row,
            DoctorReplyView {
                lines: shown(json, lines),
                emit: json,
                next: DoctorNextView::Finish,
            },
        )
    }
}

/// What follows the cancel probe: the end, whatever it found.
pub open spec fn after_probe(json: bool, row: DoctorRowView, outcome: CancelProbeRowView) -> (
    DoctorRowView,
    DoctorReplyView,
) {
    (
        DoctorRowView { cancel_probe: Some(outcome), ..row },
        DoctorReplyView {
            lines: shown(json, seq![probe_line(outcome)]),
            emit: json,
            next: DoctorNextView::Finish,
        },
    )
}

/// The row about a storage whose root was read.
pub open spec fn storage_row(index: int, root: storage::ObjectCollectionView) -> DoctorStorageRowView {
    DoctorStorageRowView {
        index,
        root_listed: true,
        writable_folder_hints: hints_of(root.objects),
        unreadable_root_objects: unreadable_of(root.skipped),
    }
}

/// What follows the root of the next storage.
pub open spec fn after_root(
    json: bool,
    probe: Option<CancelActionView>,
    row: DoctorRowView,
    storages: Seq<StorageInfo>,
    root: Result<storage::ObjectCollectionView, error::ErrorView>,
) -> (DoctorRowView, DoctorReplyView) {
    match root {
        Err(e) => (row, failed(CliErrorView::Device { context: "list storage root"@, source: e })),
        Ok(root) => {
            let found = storage_row(row.storages.len() as int, root);
            after_storage(
                json,
                probe,
                DoctorRowView { storages: row.storages.push(found), ..row },
                storages,
                row.storages.len() as int + 1,
                unreadable_lines(found.unreadable_root_objects).push(
                    hints_line(found.writable_folder_hints),
                ),
            )
        },
    }
}

impl Doctor {
    /// A run that has not done anything yet. Naming a file to probe with asks for the probe.
    pub fn new(json: bool, args: &DoctorArgs) -> (r: Self)
        ensures
            r.json == json,
            r.probe() == probe_asked(*args),
            r.row@ == empty_row(),
            r.storages@.len() == 0,
    {
        let row = DoctorRow {
            devices: Vec::new(),
            opened: None,
            open_error: None,
            open_help: None,
            storages: Vec::new(),
            cancel_probe: None,
        };
        assert(row@.devices =~= Seq::empty());
        assert(row@.storages =~= Seq::empty());
        Doctor {
            json,
            probe_wanted: args.probe_cancel || args.probe_path.is_some(),
            probe_path: args.probe_path.clone(),
            row,
            storages: Vec::new(),
        }
    }

    /// Take the visible devices. Without any the command fails.
    pub fn listed(&mut self, devices: Result<Vec<MtpDeviceInfo>, Error>) -> (r: DoctorReply)
        ensures
            final(self).json == old(self).json,
            final(self).probe() == old(self).probe(),
            final(self).storages == old(self).storages,
            (final(self).row@, r@) == after_devices(
                old(self).json,
                old(self).row@,
                match devices {
                    Ok(devices) => Ok(device::device_views(devices@)),
                    Err(e) => Err(e@),
                },
            ),
    {
        let mut lines: Vec<String> = Vec::new();
        assert(text::views(lines@) =~= Seq::empty());
        match devices {
            Err(e) => DoctorReply {
                lines,
                emit: false,
                next: DoctorNext::Fail(CliError::from_mtp("list devices", e)),
            },
            Ok(devices) => {
                if devices.is_empty() {
                    if !self.json {
                        text::push_text(&mut lines, "devices: none".to_owned());
                    }
                    assert(text::views(lines@) =~= shown(self.json, seq!["devices: none"@]));
                    DoctorReply {
                        lines,
                        emit: self.json,
                        next: DoctorNext::Fail(
                            CliError::new(CliErrorKind::NoDevice, "no MTP device found"),
                        ),
                    }
                } else {
                    if !self.json {
                        lines = write_device_lines(&devices);
                    }
                    self.row.devices = devices;
                    DoctorReply { lines, emit: false, next: DoctorNext::Open }
                }
            },
        }
    }

    /// Take a device that would not open.
    pub fn open_failed(&mut self, failure: OpenFailure) -> (r: DoctorReply)
        ensures
            final(self).json == old(self).json,
            final(self).probe() == old(self).probe(),
            final(self).storages == old(self).storages,
            (final(self).row@, r@) == after_open_failure(old(self).json, old(self).row@, failure),
    {
        self.row.open_error = Some(failure.message);
        self.row.open_help = failure.help;
        let lines: Vec<String> = Vec::new();
        assert(text::views(lines@) =~= Seq::empty());
        DoctorReply { lines, emit: self.json, next: DoctorNext::Fail(failure.error) }
    }

    /// Take the device that was opened.
    pub fn opened(&mut self, info: &DeviceInfo, capabilities: &Capabilities) -> (r: DoctorReply)
        ensures
            final(self).json == old(self).json,
            final(self).probe() == old(self).probe(),
            final(self).storages == old(self).storages,
            (final(self).row@, r@) == after_open(
                old(self).json,
                old(self).row@,
                (OpenedDeviceRowView {
                    manufacturer: info.manufacturer@,
                    model: info.model@,
                    serial_number: info.serial_number@,
                    capabilities: *capabilities,
                }),
            ),
    {
        let opened = OpenedDeviceRow {
            manufacturer: info.manufacturer.clone(),
            model: info.model.clone(),
            serial_number: info.serial_number.clone(),
            capabilities: *capabilities,
        };
        let mut lines: Vec<String> = Vec::new();
        assert(text::views(lines@) =~= Seq::empty());
        if !self.json {
            lines = write_opened_lines(&opened);
        }
        self.row.opened = Some(opened);
        DoctorReply { lines, emit: false, next: DoctorNext::ListStorages }
    }

    /// Go on once some of the storages have been read.
    fn go_on(&mut self, done: usize, lines: Vec<String>) -> (r: DoctorReply)
        requires
            old(self).json ==> lines@.len() == 0,
        ensures
            final(self).json == old(self).json,
            final(self).probe() == old(self).probe(),
            final(self).storages == old(self).storages,
            (final(self).row@, r@) == after_storage(
                old(self).json,
                old(self).probe(),
                old(self).row@,
                old(self).storages@,
                done as int,
                text::views(lines@),
            ),
    {
        let mut lines = lines;
        if self.json {
            assert(text::views(lines@) =~= Seq::empty());
        }
        if done < self.storages.len() {
            if !self.json {
                let line = write_storage_line(done, &self.storages[done]);
                text::push_text(&mut lines, line);
            }
            return DoctorReply { lines, emit: false, next: DoctorNext::CollectRoot(done) };
        }
        if !self.probe_wanted {
            return DoctorReply { lines, emit: self.json, next: DoctorNext::Finish };
        }
        if self.storages.len() > 0 {
            let probe = CancelProbe::new(self.probe_path.clone());
            return DoctorReply { lines, emit: false, next: DoctorNext::Probe(probe) };
        }
        let row = probe::probe_skipped("no storage to probe".to_owned());
        if !self.json {
            text::push_text(&mut lines, write_probe_line(&row));
        }
        self.row.cancel_probe = Some(row);
        DoctorReply { lines, emit: self.json, next: DoctorNext::Finish }
    }

    /// Take the storages of the open device.
    pub fn storages_listed(&mut self, storages: Result<Vec<StorageInfo>, Error>) -> (r: DoctorReply)
        ensures
            final(self).json == old(self).json,
            final(self).probe() == old(self).probe(),
            match storages {
                Err(e) => {
                    &&& final(self).storages == old(self).storages
                    &&& final(self).row@ == old(self).row@
                    &&& r@ == failed(
                        CliErrorView::Device { context: "list storages"@, source: e@ },
                    )
                },
                Ok(list) => {
                    &&& final(self).storages == list
                    &&& (final(self).row@, r@) == after_storage(
                        old(self).json,
                        old(self).probe(),
                        old(self).row@,
                        list@,
                        0,
                        seq![count_line(list@.len())],
                    )
                },
            },
    {
        let mut lines: Vec<String> = Vec::new();
        assert(text::views(lines@) =~= Seq::empty());
        match storages {
            Err(e) => DoctorReply {
                lines,
                emit: false,
                next: DoctorNext::Fail(CliError::from_mtp("list storages", e)),
            },
            Ok(list) => {
                if !self.json {
                    let mut line = "storages: ".to_owned();
                    line.append(text::write_count(list.len()).as_str());
                    text::push_text(&mut lines, line);
                    assert(text::views(lines@) =~= seq![count_line(list@.len())]);
                }
                self.storages = list;
                self.go_on(0, lines)
            },
        }
    }

    /// Take the root of the next storage.
    pub fn root_read(&mut self, root: Result<ObjectCollection, Error>) -> (r: DoctorReply)
        requires
            old(self).row.storages@.len() < old(self).storages@.len(),
        ensures
            final(self).json == old(self).json,
            final(self).probe() == old(self).probe(),
            final(self).storages == old(self).storages,
            (final(self).row@, r@) == after_root(
                old(self).json,
                old(self).probe(),
                old(self).row@,
                old(self).storages@,
                match root {
                    Ok(root) => Ok(root@),
                    Err(e) => Err(e@),
                },
            ),
    {
        let root = match root {
            Err(e) => {
                let lines: Vec<String> = Vec::new();
                assert(text::views(lines@) =~= Seq::empty());
                return DoctorReply {
                    lines,
                    emit: false,
                    next: DoctorNext::Fail(CliError::from_mtp("list storage root", e)),
                };
            },
            Ok(root) => root,
        };
        let ghost before = self.row@;
        let index: usize = self.row.storages.len();
        let count: usize = self.storages.len();
        let unreadable = write_unreadable(&root.skipped);
        let hints = writable_folder_hints(&root.objects);
        let mut lines: Vec<String> = Vec::new();
        if !self.json {
            lines = write_unreadable_lines(&unreadable);
            text::push_text(&mut lines, write_hints_line(&hints));
        }
        let found = DoctorStorageRow {
            index,
            root_listed: true,
            writable_folder_hints: hints,
            unreadable_root_objects: unreadable,
        };
        let ghost view = found@;
        self.row.storages.push(found);
        assert(self.row@.storages =~= before.storages.push(view));
        assert(view == storage_row(before.storages.len() as int, root@));
        self.go_on(index + 1, lines)
    }

    /// Take the outcome of the cancel probe.
    pub fn probed(&mut self, row: CancelProbeRow) -> (r: DoctorReply)
        ensures
            final(self).json == old(self).json,
            final(self).probe() == old(self).probe(),
            final(self).storages == old(self).storages,
            (final(self).row@, r@) == after_probe(old(self).json, old(self).row@, row@),
    {
        let mut lines: Vec<String> = Vec::new();
        if !self.json {
            text::push_text(&mut lines, write_probe_line(&row));
        }
        assert(text::views(lines@) =~= shown(self.json, seq![probe_line(row@)]));
        self.row.cancel_probe = Some(row);
        DoctorReply { lines, emit: self.json, next: DoctorNext::Finish }
    }
}

/// With JSON nothing but the report is printed, and it is printed at the end: once the run has finished,
/// where there is no device, or where the device would not open.
pub proof fn law_json_prints_the_report_alone(
    row: DoctorRowView,
    devices: Result<Seq<MtpDeviceInfoView>, error::ErrorView>,
    failure: OpenFailure,
    opened: OpenedDeviceRowView,
    probe: Option<CancelActionView>,
    storages: Seq<StorageInfo>,
    root: Result<storage::ObjectCollectionView, error::ErrorView>,
    done: int,
    lines: Seq<Seq<char>>,
)
    ensures
        after_devices(true, row, devices).1.lines.len() == 0,
        after_open_failure(true, row, failure).1.lines.len() == 0,
        after_open_failure(true, row, failure).1.emit,
        after_open(true, row, opened).1.lines.len() == 0,
        after_storage(true, probe, row, storages, done, lines).1.lines.len() == 0,
        after_storage(true, probe, row, storages, done, lines).1.emit <==> after_storage(
            true,
            probe,
            row,
            storages,
            done,
            lines,
        ).1.next is Finish,
        after_root(true, probe, row, storages, root).1.lines.len() == 0,
{
}

/// Once every storage has been read, the probe runs exactly when it was asked for, and the report of a run
/// that ends there holds an outcome exactly then. A path that the user named is what the probe looks up.
pub proof fn law_the_probe_runs_when_asked(
    json: bool,
    args: DoctorArgs,
    row: DoctorRowView,
    storages: Seq<StorageInfo>,
    lines: Seq<Seq<char>>,
)
    requires
        row.cancel_probe is None,
    ensures
        ({
            let asked = args.probe_cancel || args.probe_path is Some;
            let (after, reply) = after_storage(
                json,
                probe_asked(args),
                row,
                storages,
                storages.len() as int,
                lines,
            );
            &&& reply.next is Probe <==> asked && storages.len() > 0
            &&& reply.next is Probe || reply.next is Finish
            &&& reply.next is Finish ==> (after.cancel_probe is Some <==> asked)
            &&& (reply.next is Probe && args.probe_path is Some) ==> reply.next
                == DoctorNextView::Probe(CancelActionView::ResolvePath(args.probe_path->0@))
            &&& (reply.next is Probe && args.probe_path is None) ==> reply.next
                == DoctorNextView::Probe(CancelActionView::Search)
        }),
{
}

/// Every storage is read once and in order: each root that was read adds the row of the next storage, and
/// the run goes on to the storage after it for as long as there is one.
pub proof fn law_storages_are_read_in_order(
    json: bool,
    probe: Option<CancelActionView>,
    row: DoctorRowView,
    storages: Seq<StorageInfo>,
    root: storage::ObjectCollectionView,
)
    requires
        row.storages.len() < storages.len(),
    ensures
        ({
            let (after, reply) = after_root(json, probe, row, storages, Ok(root));
            &&& after.storages.len() == row.storages.len() + 1
            &&& after.storages.last().index == row.storages.len()
            &&& after.storages.drop_last() == row.storages
            &&& reply.next matches DoctorNextView::CollectRoot(i) ==> i == after.storages.len()
            &&& after.storages.len() < storages.len() <==> reply.next is CollectRoot
        }),
{
    let found = storage_row(row.storages.len() as int, root);
    assert(row.storages.push(found).drop_last() =~= row.storages);
}

} // verus!
