//! A view shows the value it is of: what is said of views is said of the values themselves.

use vstd::prelude::*;

use crate::cli::commands::folder_download::{FolderDownload, FolderEvent, FolderEventView};
use crate::cli::commands::folder_plan::{PendingFolder, PlannedFile, PlannedFolder, SkippedRow};
use crate::cli::commands::get::{FileAction, FileActionView, FileDownload, FileEvent, FileEventView};
use crate::cli::commands::probe::{CancelAction, CancelActionView, CancelEvent, CancelEventView, ProbeTarget};
use crate::cli::error::CliError;
use crate::error::PtpError;
use crate::mtp::backend::usb::{ListingCursor, WireRequest};
use crate::mtp::backend::wpd::{UploadEvent, UploadEventView, UploadReply, UploadReplyView, WpdUpload};
use crate::mtp::backend::BackendListingError;
use crate::mtp::device::{MtpDeviceInfo, UsbDeviceInfo};
use crate::mtp::error::{Error, ErrorView, UploadError};
use crate::mtp::opening::{OpenEvent, OpenEventView, OpenStep, OpenStepView};
use crate::mtp::storage::{ListingItem, ListingItemView, ObjectCollection, SkippedObject};
use crate::mtp::types::ObjectInfo;
use crate::transport::virtual_device::config::{VirtualDeviceConfig, VirtualStorageConfig};
use crate::transport::virtual_device::state::{
    DiskEntry, Dispatch, PendingCommand, TrackedObject, VirtualDeviceState,
};

verus! {

/// The views of objects, of what is listed, and of what could not be read.
pub proof fn law_views_of_objects(
    o: ObjectInfo,
    s: SkippedObject,
    c: ObjectCollection,
    e: BackendListingError,
    i: int,
)
    ensures
        o@.handle == o.handle && o@.storage_id == o.storage_id && o@.parent == o.parent,
        o@.format == o.format && o@.size == o.size && o@.filename == o.filename@,
        s@.handle == s.handle && s@.error == s.error@,
        e@.handle == e.handle && e@.source == e.source@ && e@.disposition == e.disposition,
        ListingItem::Object(o)@ == ListingItemView::Object(o@),
        ListingItem::Skipped(s)@ == ListingItemView::Skipped(s@),
        c@.objects.len() == c.objects@.len(),
        c@.skipped.len() == c.skipped@.len(),
        0 <= i < c.objects@.len() ==> c@.objects[i] == c.objects@[i]@,
        0 <= i < c.skipped@.len() ==> c@.skipped[i] == c.skipped@[i]@,
{
}

/// The views of errors.
pub proof fn law_views_of_errors(message: String, e: Error, u: UploadError, p: PtpError, c: CliError)
    ensures
        (Error::InvalidData { message })@ == (ErrorView::InvalidData { message: message@ }),
        (Error::Io { message })@ == (ErrorView::Io { message: message@ }),
        (Error::Other { detail: message })@ == (ErrorView::Other { detail: message@ }),
        e is NotFound <==> e@ is NotFound,
        e is StaleHandle <==> e@ is StaleHandle,
        e is AccessDenied <==> e@ is AccessDenied,
        e is ExclusiveAccess <==> e@ is ExclusiveAccess,
        e is PermissionDenied <==> e@ is PermissionDenied,
        e is Unsupported <==> e@ is Unsupported,
        e is Busy <==> e@ is Busy,
        e is StorageFull <==> e@ is StorageFull,
        e is Cancelled <==> e@ is Cancelled,
        e is Disconnected <==> e@ is Disconnected,
        e is DeviceReset <==> e@ is DeviceReset,
        e is Timeout <==> e@ is Timeout,
        e is NoDevice <==> e@ is NoDevice,
        u@.source == u.source@ && u@.partial == u.partial,
        p matches PtpError::Usb(fault) ==> p@->Usb_category == fault.kind && p@->Usb_message == fault.message@,
        p matches PtpError::Io(fault) ==> p@->Io_kind == fault.kind && p@->Io_message == fault.message@,
        p matches PtpError::Protocol { code, operation } ==> p@->Protocol_code == code && p@->Protocol_operation
            == operation,
        p is Usb <==> p@ is Usb,
        p is Protocol <==> p@ is Protocol,
        p is InvalidData <==> p@ is InvalidData,
        p is Io <==> p@ is Io,
        p is Timeout <==> p@ is Timeout,
        p is Disconnected <==> p@ is Disconnected,
        p is SessionNotOpen <==> p@ is SessionNotOpen,
        p is NoDevice <==> p@ is NoDevice,
        p is Cancelled <==> p@ is Cancelled,
        p is DeviceReset <==> p@ is DeviceReset,
        c matches CliError::Plain { kind, message: m } ==> c@->Plain_kind == kind && c@->Plain_message == m@,
        c matches CliError::Device { context, source } ==> c@->context == context@ && c@->source == source@,
        c is Plain <==> c@ is Plain,
{
}

/// The views of a file's and a folder's download.
pub proof fn law_views_of_downloads(
    bytes: u64,
    e: Error,
    reason: String,
    c: CliError,
    d: FileDownload,
    f: FolderDownload,
    flag: bool,
)
    ensures
        (FileEvent::Ended { bytes })@ == (FileEventView::Ended { bytes }),
        FileEvent::Started(Err(e))@ == FileEventView::Started(Err(e@)),
        FileEvent::Chunk(Err(e))@ == FileEventView::Chunk(Err(e@)),
        FileEvent::Written(Err(reason))@ == FileEventView::Written(Err(reason@)),
        FileEvent::Flushed(Err(reason))@ == FileEventView::Flushed(Err(reason@)),
        FileEvent::Removed(Err(reason))@ == FileEventView::Removed(Err(reason@)),
        FileEvent::Renamed(Err(reason))@ == FileEventView::Renamed(Err(reason@)),
        FileEvent::TempCreated(Ok(()))@ matches FileEventView::TempCreated(Ok(_)),
        FileEvent::Started(Ok(()))@ matches FileEventView::Started(Ok(_)),
        FileEvent::Chunk(Ok(()))@ matches FileEventView::Chunk(Ok(_)),
        FileEvent::Written(Ok(()))@ matches FileEventView::Written(Ok(_)),
        FileEvent::Flushed(Ok(()))@ matches FileEventView::Flushed(Ok(_)),
        FileEvent::Removed(Ok(()))@ matches FileEventView::Removed(Ok(_)),
        FileEvent::Renamed(Ok(()))@ matches FileEventView::Renamed(Ok(_)),
        (FileAction::Done { bytes })@ == (FileActionView::Done { bytes }),
        FileAction::NextChunk@ is NextChunk,
        FileAction::WriteChunk@ is WriteChunk,
        FileAction::Flush@ is Flush,
        FileAction::RenameTemp@ is RenameTemp,
        FileAction::RemoveDestination@ is RemoveDestination,
        FileAction::RemoveTemp(c)@ == FileActionView::RemoveTemp(c@),
        FileAction::Fail(c)@ == FileActionView::Fail(c@),
        d@.bytes == d.bytes && d@.replaces == d.replaces && d@.remote_path == d.remote_path@,
        FolderEvent::Downloaded(Ok(bytes))@ == FolderEventView::Downloaded(Ok(bytes)),
        FolderEvent::Downloaded(Err(c))@ == FolderEventView::Downloaded(Err(c@)),
        FolderEvent::CaseProbed(Ok(flag))@ == FolderEventView::CaseProbed(Ok(flag)),
        f@.bytes == f.bytes && f@.root_existed == f.root_existed && f@.plan == f.plan@,
{
}

/// The views of what is planned.
pub proof fn law_views_of_plans(a: PlannedFolder, b: PlannedFile, c: PendingFolder, d: SkippedRow)
    ensures
        a@.remote_path == a.remote_path@ && a@.local_path == a.local_path@,
        b@.handle == b.handle && b@.remote_path == b.remote_path@ && b@.local_path == b.local_path@,
        c@.parent == c.parent && c@.remote_folder == c.remote_folder@ && c@.local_folder == c.local_folder@,
        d@.remote_folder == d.remote_folder@ && d@.handle == d.handle && d@.error == d.error@,
{
}

/// The views of uploads, requests and listings.
pub proof fn law_views_of_transfers(
    u: WpdUpload,
    len: u64,
    flag: bool,
    h: crate::mtp::types::ObjectHandle,
    e: Error,
    w: WireRequest,
    l: ListingCursor,
)
    ensures
        u@.total == u.total && u@.forwarded == u.forwarded && u@.chunk == u.chunk,
        UploadEvent::Chunk(len)@ == UploadEventView::Chunk(len),
        (UploadEvent::Verdict { keep_going: flag })@ == (UploadEventView::Verdict { keep_going: flag }),
        (UploadEvent::Sent { accepted: flag })@ == (UploadEventView::Sent { accepted: flag }),
        UploadEvent::Ended@ is Ended,
        UploadReply::Committed(h)@ == UploadReplyView::Committed(h),
        UploadReply::Error(e)@ == UploadReplyView::Error(e@),
        w@.operation == w.operation && w@.params == w.params@ && w@.expected_size == w.expected_size,
        l@.handles == l.handles@ && l@.cursor == l.cursor && l@.filter == l.filter,
{
}

/// The views of devices and of how they are opened.
pub proof fn law_views_of_devices(
    d: MtpDeviceInfo,
    u: UsbDeviceInfo,
    e: Error,
    i: usize,
    c: VirtualDeviceConfig,
    s: VirtualStorageConfig,
)
    ensures
        d@.location_id == d.location_id && d@.vendor_id == d.vendor_id && d@.product_id == d.product_id,
        d.serial_number matches Some(serial) ==> d@.serial_number == Some(serial@),
        d.serial_number is None ==> d@.serial_number is None,
        u@.location_id == u.location_id && u@.vendor_id == u.vendor_id && u@.product_id == u.product_id,
        u.serial_number matches Some(serial) ==> u@.serial_number == Some(serial@),
        OpenEvent::WpdTried(Err(e))@ == OpenEventView::WpdTried(Err(e@)),
        OpenStep::OpenUsb(i)@ == OpenStepView::OpenUsb(i as int),
        OpenStep::TryWpdFor(i)@ == OpenStepView::TryWpdFor(i as int),
        OpenStep::Fail(e)@ == OpenStepView::Fail(e@),
        OpenStep::Virtual(c)@ == OpenStepView::Virtual(c@),
        OpenStep::ListUsb@ is ListUsb,
        OpenStep::TryWpd@ is TryWpd,
        OpenStep::Opened@ is Opened,
        c@.serial == c.serial@ && c@.manufacturer == c.manufacturer@ && c@.model == c.model@,
        c@.storages.len() == c.storages@.len(),
        s@.backing_dir == s.backing_dir@ && s@.capacity == s.capacity && s@.read_only == s.read_only,
        s@.description == s.description@,
{
}

/// The views of the probe.
pub proof fn law_views_of_the_probe(t: ProbeTarget, path: String, e: Error, detail: String)
    ensures
        t@.handle == t.handle && t@.path == t.path@ && t@.size == t.size,
        CancelAction::ResolvePath(path)@ == CancelActionView::ResolvePath(path@),
        CancelAction::Search@ is Search,
        CancelAction::StartDownload(t)@ == CancelActionView::StartDownload(t@),
        CancelAction::ReadChunk(t)@ == CancelActionView::ReadChunk(t@),
        CancelAction::Cancel(t)@ == CancelActionView::Cancel(t@),
        CancelEvent::Found(Ok(t))@ == CancelEventView::Found(Ok(t@)),
        CancelEvent::Found(Err(detail))@ == CancelEventView::Found(Err(detail@)),
        CancelEvent::Started(Err(e))@ == CancelEventView::Started(Err(e@)),
        CancelEvent::Cancelled(Err(e))@ == CancelEventView::Cancelled(Err(e@)),
        CancelEvent::ChunkRead@ is ChunkRead,
{
}

/// The views of a virtual device's parts.
pub proof fn law_views_of_virtual_devices(
    o: TrackedObject,
    d: DiskEntry,
    p: PendingCommand,
    x: Dispatch,
    s: VirtualDeviceState,
    i: int,
)
    ensures
        o@.handle == o.handle && o@.storage == o.storage && o@.parent == o.parent && o@.rel_path == o.rel_path@,
        d@.rel_path == d.rel_path@ && d@.parent == d.parent@,
        p@.code == p.code && p@.tx_id == p.tx_id && p@.params == p.params@,
        x@.code == x.code && x@.tx_id == x.tx_id && x@.params == x.params@,
        x.payload matches Some(payload) ==> x@.payload == Some(payload@),
        x.payload is None ==> x@.payload is None,
        s@.next_handle == s.next_handle && s@.pause_count == s.pause_count,
        s@.cancel_wedge == s.pending_cancel_wedge && s@.operation_wedge == s.pending_operation_wedge,
        s@.read_caps == s.forced_partial_read_caps@ && s@.info_errors == s.forced_object_info_errors@,
        s@.objects.len() == s.objects@.len() && s@.events.len() == s.event_queue@.len() && s@.responses.len()
            == s.response_queue@.len(),
        0 <= i < s.objects@.len() ==> s@.objects[i] == s.objects@[i]@,
        0 <= i < s.event_queue@.len() ==> s@.events[i] == s.event_queue@[i]@,
        0 <= i < s.response_queue@.len() ==> s@.responses[i] == s.response_queue@[i]@,
{
}

} // verus!
