//! What callers of the high-level API can rely on, stated of the calls themselves: what goes in, and what
//! must hold of whatever comes out.

use vstd::prelude::*;

use crate::error::PtpError;
use crate::mtp::backend::usb;
use crate::mtp::backend::usb::{
    BackendDownload, ListingCursor, ListingResolver, ListingStage, ParentFilter, PartialReadOp, ReadPlan,
    Resolution, StorageAnswers, UsbBackend, UsbUpload,
};
use crate::mtp::backend::wpd;
use crate::mtp::backend::wpd::{UploadReply, UploadStop};
use crate::mtp::backend::{BackendListingError, ByteRange, ListedObject};
use crate::mtp::error::{Error, ErrorView, UploadError};
use crate::mtp::storage;
use crate::mtp::storage::{
    ListingItem, ListingItemView, ObjectCollection, RecursiveWalk, Storage, WindowedDownload,
};
use crate::mtp::types::{ObjectHandle, ObjectInfo, ObjectInfoView, StorageId, StorageInfo};
use crate::ptp::{OperationCode, PtpHandle, PtpObjectInfo, PtpStorageId, ResponseCode};

verus! {

/// An object is a folder exactly when its format is the association format, 0x3001. Every other format,
/// such as that of a photo, is a file's.
pub proof fn law_only_an_association_is_a_folder(o: ObjectInfo, folder: bool, file: bool)
    requires
        call_ensures(ObjectInfo::is_folder, (&o,), folder),
        call_ensures(ObjectInfo::is_file, (&o,), file),
    ensures
        folder <==> o.format == 0x3001,
        file <==> o.format != 0x3001,
        o@.is_folder() <==> o@.format == 0x3001,
{
}

/// A neutral identifier is the number that the device gave, and on the way back it is that number again.
pub proof fn law_identifiers_are_the_numbers_of_the_device(
    h: PtpHandle,
    id: PtpStorageId,
    handle: ObjectHandle,
    storage: StorageId,
    back: PtpHandle,
    storage_back: PtpStorageId,
)
    requires
        call_ensures(ObjectHandle::from_ptp, (h,), handle),
        call_ensures(StorageId::from_ptp, (id,), storage),
        call_ensures(ObjectHandle::to_ptp, (handle,), back),
        call_ensures(StorageId::to_ptp, (storage,), storage_back),
    ensures
        handle.0 == h.0,
        storage.0 == id.0,
        back.0 == h.0,
        storage_back.0 == id.0,
{
}

/// What a device answers about an object reaches the caller field by field, under the handle that was asked
/// for.
pub proof fn law_object_metadata_is_passed_on(info: PtpObjectInfo, handle: PtpHandle, r: ObjectInfo)
    requires
        call_ensures(ObjectInfo::from_ptp, (info, handle), r),
    ensures
        r.handle.0 == handle.0,
        r.storage_id.0 == info.storage_id.0,
        r.parent.0 == info.parent.0,
        r.format == info.format,
        r.size == info.size,
        r.filename@ == info.filename@,
{
}

/// Whether a listing with this filter is of a folder that holds objects of this parent: the folder itself,
/// or for the root one of its two reserved names, or the storage where that stands for the root.
pub open spec fn belongs(filter: ParentFilter, parent: u32) -> bool {
    match filter {
        ParentFilter::Exact(folder) => parent == folder.0,
        ParentFilter::Root(None) => parent == 0 || parent == 0xFFFF_FFFF,
        ParentFilter::Root(Some(id)) => parent == 0 || parent == 0xFFFF_FFFF || parent == id.0,
    }
}

/// Each object that a listing yields has the size, format, name, parent and storage that the device answered,
/// under the handle that was asked for; it is yielded exactly where it belongs to the folder.
pub proof fn law_a_listing_yields_what_the_device_described(
    cursor: ListingCursor,
    handle: PtpHandle,
    info: PtpObjectInfo,
    r: Option<ListedObject>,
)
    requires
        call_ensures(
            ListingCursor::deliver,
            (&cursor, handle, Ok::<PtpObjectInfo, PtpError>(info)),
            r,
        ),
    ensures
        r is Some <==> belongs(cursor.filter, info.parent.0),
        r matches Some(item) ==> (item matches Ok(o) && {
            &&& o.handle.0 == handle.0
            &&& o.size == info.size
            &&& o.format == info.format
            &&& o.filename@ == info.filename@
            &&& o.parent.0 == info.parent.0
            &&& o.storage_id.0 == info.storage_id.0
        }),
{
}

/// A device's refusal to describe an object is reported under that object's handle, and the listing survives
/// it exactly where the device answered `GeneralError` to `GetObjectInfo`.
pub proof fn law_a_listing_survives_one_refusal(
    cursor: ListingCursor,
    handle: PtpHandle,
    e: PtpError,
    r: Option<ListedObject>,
)
    requires
        call_ensures(
            ListingCursor::deliver,
            (&cursor, handle, Err::<PtpObjectInfo, PtpError>(e)),
            r,
        ),
    ensures
        r matches Some(item) && (item matches Err(x) && {
            &&& x.handle.0 == handle.0
            &&& x.disposition is SkipObject <==> e == (PtpError::Protocol {
                code: ResponseCode::GeneralError,
                operation: OperationCode::GetObjectInfo,
            })
            &&& x.disposition is Fatal <==> !(x.disposition is SkipObject)
            &&& e is Timeout ==> x.source is Timeout
            &&& e is Disconnected ==> x.source is Disconnected
            &&& e is DeviceReset ==> x.source is DeviceReset
            &&& e is Cancelled ==> x.source is Cancelled
        }),
{
}

/// The filter accepts exactly the parents that belong to the folder.
pub proof fn law_a_filter_accepts_what_belongs(filter: ParentFilter, parent: PtpHandle, r: bool)
    requires
        call_ensures(ParentFilter::accepts, (filter, parent), r),
    ensures
        r <==> belongs(filter, parent.0),
{
}

/// The storage identifier stands for the root exactly where it is no object's handle.
pub proof fn law_the_storage_is_a_root_marker_while_no_object_has_its_number(
    id: PtpStorageId,
    handles: &[PtpHandle],
    parent: u32,
    r: ParentFilter,
)
    requires
        call_ensures(usb::root_filter, (id, handles), r),
    ensures
        belongs(r, 0),
        belongs(r, 0xFFFF_FFFF),
        belongs(r, parent) && parent != 0 && parent != 0xFFFF_FFFF ==> parent == id.0,
        id.0 != 0 && id.0 != 0xFFFF_FFFF ==> (belongs(r, id.0) <==> forall|i: int|
            0 <= i < handles@.len() ==> (#[trigger] handles@[i]).0 != id.0),
{
    if handles@.contains(PtpHandle(id.0)) {
        let i = choose|i: int| 0 <= i < handles@.len() && handles@[i] == PtpHandle(id.0);
        assert(handles@[i].0 == id.0);
    } else {
        assert forall|i: int| 0 <= i < handles@.len() implies (#[trigger] handles@[i]).0 != id.0 by {
            if handles@[i].0 == id.0 {
                assert(handles@[i] == PtpHandle(id.0));
            }
        }
    }
}

/// A listing that has not been cancelled asks about the folder it is for: a folder by its handle, the storage
/// root by the reserved handle 0xFFFFFFFF. One that has been cancelled asks nothing.
pub proof fn law_a_listing_asks_for_its_folder(
    storage: StorageId,
    parent: Option<ObjectHandle>,
    cancelled: bool,
    r: Resolution,
)
    requires
        storage.0 <= u32::MAX,
        parent matches Some(h) ==> h.0 <= u32::MAX,
        call_ensures(ListingResolver::start, (storage, parent, cancelled), r),
    ensures
        cancelled ==> (r matches Resolution::Failed(e) && e is Cancelled),
        !cancelled ==> (r matches Resolution::Ask(resolver) && {
            &&& resolver.storage.0 == storage.0
            &&& forall|asked: Option<PtpHandle>| #[trigger]
                call_ensures(ListingResolver::request_parent, (&resolver,), asked) ==> (match parent {
                    Some(h) => asked matches Some(a) && a.0 == h.0,
                    None => asked == Some(PtpHandle(0xFFFF_FFFF)),
                })
        }),
{
}

/// The handles that a device answers with are the listing's handles, and the filter admits exactly what lies
/// in the folder: what names the folder as its parent, or for the root what names the root.
pub proof fn law_an_answer_with_handles_resolves_the_listing(
    resolver: ListingResolver,
    handles: Vec<PtpHandle>,
    cancelled: bool,
    parent: u32,
    r: Resolution,
)
    requires
        call_ensures(
            ListingResolver::answer,
            (resolver, Ok::<Vec<PtpHandle>, PtpError>(handles), cancelled),
            r,
        ),
    ensures
        r matches Resolution::Resolved(found, filter) && {
            &&& found@ == handles@
            &&& match (resolver.stage, resolver.parent) {
                (ListingStage::AskPlain, Some(folder)) => belongs(filter, parent) <==> parent == folder.0,
                (ListingStage::AskPlain, None) => belongs(filter, parent) <==> parent == 0,
                _ => belongs(filter, parent) <==> parent == 0 || parent == 0xFFFF_FFFF || (parent
                    == resolver.storage.0 && !handles@.contains(PtpHandle(parent))),
            }
        },
{
}

/// Whether an error is the device's way to say that it does not take the reserved handle: a stalled endpoint,
/// or one of five response codes.
pub open spec fn is_decline(e: PtpError) -> bool {
    match e {
        PtpError::Io(_) => true,
        PtpError::Protocol { code, .. } => match code {
            ResponseCode::OperationNotSupported
            | ResponseCode::InvalidObjectHandle
            | ResponseCode::InvalidParentObject
            | ResponseCode::InvalidParameter
            | ResponseCode::ParameterNotSupported => true,
            _ => false,
        },
        _ => false,
    }
}

/// Only a decline makes a root listing ask again, with no parent named, and only where it has not been
/// cancelled. Every other error, and any error of a folder's listing, is reported as it came.
pub proof fn law_only_a_decline_is_asked_again(
    resolver: ListingResolver,
    e: PtpError,
    cancelled: bool,
    declined: bool,
    r: Resolution,
)
    requires
        call_ensures(
            ListingResolver::answer,
            (resolver, Err::<Vec<PtpHandle>, PtpError>(e), cancelled),
            r,
        ),
        call_ensures(usb::is_all_handle_rejection, (&e,), declined),
    ensures
        declined <==> is_decline(e),
        r is Failed || r is Ask,
        resolver.stage is AskAll ==> (r is Ask <==> is_decline(e) && !cancelled),
        resolver.stage is AskAll && is_decline(e) && cancelled ==> (r matches Resolution::Failed(x)
            && x is Cancelled),
        resolver.stage is AskAll && !is_decline(e) ==> (r matches Resolution::Failed(x) && x@ == e@),
        resolver.stage is AskPlain ==> (r is Ask <==> resolver.parent is None && (e matches
            PtpError::Protocol { code: ResponseCode::InvalidObjectHandle, .. })),
        resolver.stage is AskPlain && r is Failed ==> r->Failed_0@ == e@,
        resolver.stage is AskAllAgain ==> (r matches Resolution::Failed(x) && x@ == e@),
        r matches Resolution::Ask(next) ==> {
            &&& next.storage == resolver.storage
            &&& next.parent == resolver.parent
            &&& forall|asked: Option<PtpHandle>| #[trigger]
                call_ensures(ListingResolver::request_parent, (&next,), asked) ==> asked == (
                if resolver.stage is AskAll {
                    resolver.parent
                } else {
                    Some(PtpHandle(0xFFFF_FFFF))
                })
        },
{
}

/// A storage is listed as the device described it, under the identifier it was asked for.
pub proof fn law_a_storage_is_as_the_device_described_it(
    storage: StorageId,
    info: StorageInfo,
    r: Result<StorageInfo, Error>,
)
    requires
        call_ensures(
            UsbBackend::storage_info,
            (storage, Ok::<StorageInfo, PtpError>(info)),
            r,
        ),
    ensures
        r matches Ok(s) && {
            &&& s.id == storage
            &&& s.description@ == info.description@
            &&& s.total_capacity == info.total_capacity
            &&& s.free_space == info.free_space
            &&& s.is_writable == info.is_writable
        },
{
}

/// What storages come to when all answers so far were descriptions, or else where the first one failed.
proof fn lemma_storages_by_answer(answers: Seq<(PtpStorageId, Result<StorageInfo, PtpError>)>)
    ensures
        match usb::storages_of(answers) {
            Ok(list) => {
                &&& list.len() == answers.len()
                &&& forall|i: int|
                    0 <= i < answers.len() ==> {
                        &&& (#[trigger] answers[i]).1 is Ok
                        &&& list[i].id.0 == answers[i].0.0
                        &&& list[i].description@ == answers[i].1->Ok_0.description@
                        &&& list[i].total_capacity == answers[i].1->Ok_0.total_capacity
                        &&& list[i].free_space == answers[i].1->Ok_0.free_space
                        &&& list[i].is_writable == answers[i].1->Ok_0.is_writable
                    }
            },
            Err(e) => exists|i: int|
                0 <= i < answers.len() && (#[trigger] answers[i]).1 is Err && (forall|j: int|
                    0 <= j < i ==> (#[trigger] answers[j]).1 is Ok) && e
                    == crate::mtp::error::error_of_ptp(answers[i].1->Err_0@),
        },
    decreases answers.len(),
{
    if answers.len() > 0 {
        let fewer = answers.drop_last();
        lemma_storages_by_answer(fewer);
        assert(forall|i: int| 0 <= i < fewer.len() ==> #[trigger] answers[i] == fewer[i]);
        match usb::storages_of(fewer) {
            Ok(before) => {
                let last = answers.len() - 1;
                assert(answers[last] == answers.last());
                if answers.last().1 is Err {
                    assert(forall|j: int| 0 <= j < last ==> (#[trigger] answers[j]).1 is Ok) by {
                        assert forall|j: int| 0 <= j < last implies (#[trigger] answers[j]).1 is Ok by {
                            assert(fewer[j].1 is Ok);
                        }
                    }
                } else {
                    let list = usb::storages_of(answers)->Ok_0;
                    assert forall|i: int| 0 <= i < answers.len() implies {
                        &&& (#[trigger] answers[i]).1 is Ok
                        &&& list[i].id.0 == answers[i].0.0
                        &&& list[i].description@ == answers[i].1->Ok_0.description@
                        &&& list[i].total_capacity == answers[i].1->Ok_0.total_capacity
                        &&& list[i].free_space == answers[i].1->Ok_0.free_space
                        &&& list[i].is_writable == answers[i].1->Ok_0.is_writable
                    } by {
                        if i < last {
                            assert(fewer[i].1 is Ok);
                            assert(list[i] == before[i]);
                        }
                    }
                }
            },
            Err(e) => {
                let i = choose|i: int|
                    0 <= i < fewer.len() && (#[trigger] fewer[i]).1 is Err && (forall|j: int|
                        0 <= j < i ==> (#[trigger] fewer[j]).1 is Ok) && e
                        == crate::mtp::error::error_of_ptp(fewer[i].1->Err_0@);
                assert(answers[i] == fewer[i]);
                assert forall|j: int| 0 <= j < i implies (#[trigger] answers[j]).1 is Ok by {
                    assert(fewer[j].1 is Ok);
                }
            },
        }
    }
}

/// The storages listed are those the device described, one for each answer and in that order, with the
/// capacity, free space, description and access of the answer. One answer that is an error fails the listing.
pub proof fn law_every_storage_is_as_the_device_described_it(
    answers: StorageAnswers,
    r: Result<Vec<StorageInfo>, Error>,
)
    requires
        call_ensures(UsbBackend::storages, (answers,), r),
    ensures
        r is Err <==> exists|i: int| 0 <= i < answers@.len() && (#[trigger] answers@[i]).1 is Err,
        r matches Ok(list) ==> {
            &&& list@.len() == answers@.len()
            &&& forall|i: int|
                0 <= i < list@.len() ==> {
                    let told = answers@[i].1->Ok_0;
                    &&& (#[trigger] list@[i]).id.0 == answers@[i].0.0
                    &&& list@[i].description@ == told.description@
                    &&& list@[i].total_capacity == told.total_capacity
                    &&& list@[i].free_space == told.free_space
                    &&& list@[i].is_writable == told.is_writable
                }
        },
{
    lemma_storages_by_answer(answers@);
    if r is Ok {
        assert forall|i: int| 0 <= i < answers@.len() implies !((#[trigger] answers@[i]).1 is Err) by {}
    }
}

/// How many bytes of an object of `size` bytes one partial read asks for, out of those it wants.
pub open spec fn at_most_one_request(want: int) -> int {
    if want <= 0xFFFF_FFFF {
        want
    } else {
        0xFFFF_FFFF
    }
}

/// A download asks for exactly the bytes of its range. A whole object is asked for by its handle; a tail or a
/// bounded slice by its offset and its length, clamped to the object and to what one request can carry. The
/// whole size comes with every download.
pub proof fn law_a_download_asks_for_its_range(
    backend: UsbBackend,
    obj: ObjectHandle,
    range: ByteRange,
    size: u64,
    r: Result<BackendDownload, Error>,
)
    requires
        obj.0 <= u32::MAX,
        call_ensures(UsbBackend::download, (&backend, obj, range, size), r),
    ensures
        r matches Ok(d) ==> {
            &&& d.size == size
            &&& d.request.params@[0] == obj.0
            &&& range is Full ==> {
                &&& d.request.operation is GetObject
                &&& d.request.params@.len() == 1
                &&& d.request.expected_size == (if size > 0xFFFF_FFFF {
                    Some(size)
                } else {
                    None
                })
            }
            &&& range matches ByteRange::From(offset) ==> {
                &&& offset <= size
                &&& d.request.params@.last() == at_most_one_request(size - offset)
            }
            &&& range matches ByteRange::Range { offset, len } ==> {
                &&& offset <= size
                &&& offset + len <= size ==> d.request.params@.last() == at_most_one_request(len as int)
                &&& offset + len > size ==> d.request.params@.last() == at_most_one_request(
                    size - offset,
                )
            }
            &&& !(range is Full) ==> d.request.expected_size is None
            &&& !(range is Full) && backend.has_partial_object_64 ==> {
                &&& d.request.operation is GetPartialObject64
                &&& d.request.params@.len() == 4
                &&& d.request.params@[1] + 0x1_0000_0000 * d.request.params@[2] == (match range {
                    ByteRange::From(offset) => offset,
                    ByteRange::Range { offset, .. } => offset,
                    ByteRange::Full => 0,
                })
            }
            &&& !(range is Full) && !backend.has_partial_object_64 ==> {
                &&& backend.has_partial_object
                &&& d.request.operation is GetPartialObject
                &&& d.request.params@.len() == 3
                &&& d.request.params@[1] == (match range {
                    ByteRange::From(offset) => offset,
                    ByteRange::Range { offset, .. } => offset,
                    ByteRange::Full => 0,
                })
            }
        },
{
}

/// A download starts exactly where it can: not past the end of the object, and a part of an object only on a
/// device that offers a partial read which reaches its offset.
pub proof fn law_when_a_download_starts(
    backend: UsbBackend,
    obj: ObjectHandle,
    range: ByteRange,
    size: u64,
    r: Result<BackendDownload, Error>,
)
    requires
        call_ensures(UsbBackend::download, (&backend, obj, range, size), r),
    ensures
        range is Full ==> r is Ok,
        range matches ByteRange::From(offset) ==> {
            &&& r is Ok <==> offset <= size && (backend.has_partial_object_64 || (
            backend.has_partial_object && offset <= 0xFFFF_FFFF))
            &&& offset > size ==> r->Err_0 is InvalidData
            &&& offset <= size && !backend.has_partial_object_64 && !backend.has_partial_object
                ==> r->Err_0 is Unsupported
        },
        range matches ByteRange::Range { offset, len } ==> {
            &&& r is Ok <==> offset <= size && (backend.has_partial_object_64 || (
            backend.has_partial_object && offset <= 0xFFFF_FFFF))
            &&& offset > size ==> r->Err_0 is InvalidData
            &&& offset <= size && !backend.has_partial_object_64 && !backend.has_partial_object
                ==> r->Err_0 is Unsupported
        },
{
}

/// The bytes that one request asks for are the bytes of the range, as far as one request can carry them.
pub proof fn law_a_download_covers_the_bytes_of_its_range(
    backend: UsbBackend,
    obj: ObjectHandle,
    range: ByteRange,
    content: Seq<u8>,
    r: Result<BackendDownload, Error>,
)
    requires
        obj.0 <= u32::MAX,
        !(range is Full),
        content.len() <= u64::MAX,
        call_ensures(UsbBackend::download, (&backend, obj, range, content.len() as u64), r),
    ensures
        r matches Ok(d) ==> d.request.params@.last() == at_most_one_request(
            storage::range_bytes(content, range).len() as int,
        ),
{
    law_a_download_asks_for_its_range(backend, obj, range, content.len() as u64, r);
}

/// A device's backend knows its partial reads from the operations that the device advertises.
pub proof fn law_a_backend_knows_what_is_advertised(operations: &[OperationCode], r: UsbBackend)
    requires
        call_ensures(UsbBackend::new, (operations,), r),
    ensures
        r.has_partial_object_64 <==> exists|i: int|
            0 <= i < operations@.len() && (#[trigger] operations@[i]) is GetPartialObject64,
        r.has_partial_object <==> exists|i: int|
            0 <= i < operations@.len() && (#[trigger] operations@[i]) is GetPartialObject,
{
    if operations@.contains(OperationCode::GetPartialObject64) {
        let i = choose|i: int|
            0 <= i < operations@.len() && operations@[i] == OperationCode::GetPartialObject64;
        assert(operations@[i] is GetPartialObject64);
    }
    if operations@.contains(OperationCode::GetPartialObject) {
        let i = choose|i: int|
            0 <= i < operations@.len() && operations@[i] == OperationCode::GetPartialObject;
        assert(operations@[i] is GetPartialObject);
    }
}

/// The 64-bit operation is used wherever there is one, the 32-bit one only within its reach, and otherwise no
/// read is planned.
pub proof fn law_a_partial_read_takes_an_operation_that_reaches(
    wide: bool,
    narrow: bool,
    offset: u64,
    r: Result<PartialReadOp, Error>,
)
    requires
        call_ensures(usb::plan_partial_read, (wide, narrow, offset), r),
    ensures
        r == Ok::<PartialReadOp, Error>(PartialReadOp::Wide) <==> wide,
        r == Ok::<PartialReadOp, Error>(PartialReadOp::Narrow) <==> !wide && narrow && offset
            <= 0xFFFF_FFFF,
        r matches Err(e) ==> (e is Unsupported <==> !wide && !narrow) && (e is InvalidData <==> !wide
            && narrow),
{
}

/// A buffered read is of the bytes that were asked for: at the offset given, and no more than the length given.
/// The whole object is read only where everything was asked for.
pub proof fn law_a_buffered_read_is_of_what_was_asked_for(
    backend: UsbBackend,
    offset: u64,
    len: Option<u32>,
    r: Result<ReadPlan, Error>,
)
    requires
        call_ensures(UsbBackend::read_range, (&backend, offset, len), r),
    ensures
        r == Ok::<ReadPlan, Error>(ReadPlan::Whole) <==> offset == 0 && len is None,
        r matches Ok(ReadPlan::Wide { offset: at, max_bytes }) ==> at == offset && backend.has_partial_object_64
            && max_bytes == (if len is Some {
            len->0
        } else {
            0xFFFF_FFFF
        }),
        r matches Ok(ReadPlan::Narrow { offset: at, max_bytes }) ==> at == offset
            && !backend.has_partial_object_64 && backend.has_partial_object && offset <= 0xFFFF_FFFF
            && max_bytes == (if len is Some {
            len->0
        } else {
            0xFFFF_FFFF
        }),
        backend.has_partial_object_64 ==> r is Ok,
        !(offset == 0 && len is None) && !backend.has_partial_object_64
            && !backend.has_partial_object ==> (r matches Err(e) && e is Unsupported),
        r is Err <==> !(offset == 0 && len is None) && !backend.has_partial_object_64 && !(
        backend.has_partial_object && offset <= 0xFFFF_FFFF),
{
}

/// Where a range begins.
pub proof fn law_a_range_begins_at_its_offset(range: ByteRange, r: u64)
    requires
        call_ensures(ByteRange::offset, (range,), r),
    ensures
        range is Full ==> r == 0,
        range matches ByteRange::From(offset) ==> r == offset,
        range matches ByteRange::Range { offset, .. } ==> r == offset,
{
}

/// A windowed download begins at its offset and ends where its range does; it starts exactly where that offset
/// does not lie past the end.
pub proof fn law_a_windowed_download_starts_at_its_range(
    handle: ObjectHandle,
    range: ByteRange,
    window: u32,
    size: u64,
    r: Result<WindowedDownload, Error>,
)
    requires
        call_ensures(WindowedDownload::start, (handle, range, window, size), r),
    ensures
        ({
            let offset = match range {
                ByteRange::Full => 0,
                ByteRange::From(offset) => offset,
                ByteRange::Range { offset, .. } => offset,
            };
            &&& r is Ok <==> offset <= size
            &&& r matches Err(e) ==> e is InvalidData
            &&& r matches Ok(d) ==> {
                &&& d.handle == handle
                &&& d.size == size
                &&& d.offset == offset
                &&& d.window >= 1
                &&& window >= 1 ==> d.window == window
                &&& d.offset <= d.end <= size
                &&& !(range is Range) ==> d.end == size
                &&& range matches ByteRange::Range { len, .. } ==> d.end - d.offset <= len && (d.end
                    == size || d.end - d.offset == len)
            }
        }),
{
}

/// The next window lies within the range, is never empty, and is as long as it may be: a whole window, or all
/// that is left. Nothing is asked for exactly where nothing is left.
pub proof fn law_a_window_lies_within_its_range(download: WindowedDownload, r: Option<u32>)
    requires
        download.window >= 1,
        call_ensures(WindowedDownload::next_len, (&download,), r),
    ensures
        r is None <==> download.offset >= download.end,
        r matches Some(len) ==> 1 <= len <= download.window && download.offset + len <= download.end && (
        len == download.window || download.offset + len == download.end),
{
}

/// A window moves the download on by its bytes, and changes nothing else of it.
pub proof fn law_a_window_moves_on_by_its_bytes(download: WindowedDownload, len: u64)
    requires
        download.offset + len <= u64::MAX,
    ensures
        storage::advanced(download, len as nat).offset == download.offset + len,
        storage::advanced(download, len as nat).end == download.end,
        storage::advanced(download, len as nat).size == download.size,
        storage::advanced(download, len as nat).window == download.window,
        storage::advanced(download, len as nat).handle == download.handle,
{
}

/// An upload succeeds with the handle that the device created, exactly where the device created it and took
/// all the data. A failure reports that handle once it exists, and none before.
pub proof fn law_an_upload_reports_the_object_the_device_holds(
    created: Result<PtpHandle, PtpError>,
    total: u64,
    begun: Result<UsbUpload, UploadError>,
    sent: Result<(), PtpError>,
)
    requires
        call_ensures(UsbUpload::begin, (created, total), begun),
    ensures
        begun is Ok <==> created is Ok,
        begun matches Err(e) ==> e.partial is None,
        created matches Err(PtpError::DeviceReset) ==> begun->Err_0.source is DeviceReset,
        created matches Err(PtpError::Timeout) ==> begun->Err_0.source is Timeout,
        begun matches Ok(upload) ==> {
            &&& upload.total == total
            &&& upload.sent == 0
            &&& forall|r: Result<ObjectHandle, UploadError>| #[trigger]
                call_ensures(UsbUpload::finish, (upload, sent), r) ==> {
                    &&& r is Ok <==> sent is Ok
                    &&& r matches Ok(h) ==> h.0 == created->Ok_0.0
                    &&& r matches Err(e) ==> (e.partial matches Some(h) && h.0 == created->Ok_0.0)
                    &&& r matches Err(e) ==> (sent matches Err(PtpError::Cancelled) ==> e.source is Cancelled)
                    &&& r matches Err(e) ==> (sent matches Err(PtpError::Disconnected)
                        ==> e.source is Disconnected)
                    &&& r matches Err(e) ==> ((sent matches Err(PtpError::Io(fault)) && fault.kind is Interrupted)
                        ==> e.source is Cancelled)
                }
        },
{
}

/// A callback that wants no more turns into an interruption, and one that does lets the chunk pass.
pub proof fn law_a_callback_decides_on_the_chunk(
    upload: UsbUpload,
    keep_going: bool,
    r: Result<(), crate::error::IoFault>,
)
    requires
        call_ensures(UsbUpload::after_progress, (&upload, keep_going), r),
    ensures
        r is Ok <==> keep_going,
        r matches Err(fault) ==> fault.kind is Interrupted,
{
}

/// `SendObjectInfo` names the storage and the folder; the storage root is named by 0xFFFFFFFF.
pub proof fn law_an_upload_goes_where_it_was_sent(
    storage: StorageId,
    parent: Option<ObjectHandle>,
    r: Vec<u32>,
)
    requires
        storage.0 <= u32::MAX,
        parent matches Some(h) ==> h.0 <= u32::MAX,
        call_ensures(usb::send_object_info_params, (storage, parent), r),
    ensures
        r@.len() == 2,
        r@[0] == storage.0,
        parent matches Some(h) ==> r@[1] == h.0,
        parent is None ==> r@[1] == 0xFFFF_FFFF,
{
}

/// `MoveObject` and `CopyObject` name the object, the storage and the folder, in this order.
pub proof fn law_a_move_goes_where_it_was_sent(
    obj: ObjectHandle,
    parent: ObjectHandle,
    storage: StorageId,
    r: Vec<u32>,
)
    requires
        obj.0 <= u32::MAX,
        parent.0 <= u32::MAX,
        storage.0 <= u32::MAX,
        call_ensures(usb::relocate_params, (obj, parent, storage), r),
    ensures
        r@.len() == 3,
        r@[0] == obj.0,
        r@[1] == storage.0,
        r@[2] == parent.0,
{
}

/// An upload to the worker succeeds exactly where the device committed it. Otherwise it fails with the device's
/// own error, or else with why the source stopped, and it leaves no partial object.
pub proof fn law_a_wpd_upload_ends_as_the_device_says(
    stop: UploadStop,
    reply: Option<UploadReply>,
    r: Result<ObjectHandle, UploadError>,
)
    requires
        call_ensures(wpd::reconcile, (stop, reply), r),
    ensures
        r is Ok <==> (reply matches Some(UploadReply::Committed(_))),
        reply matches Some(UploadReply::Committed(h)) ==> r == Ok::<ObjectHandle, UploadError>(h),
        reply is None ==> r->Err_0.source is Disconnected,
        reply matches Some(UploadReply::Error(e)) ==> r->Err_0.source@ == e@,
        (reply matches Some(UploadReply::ShortClosed { .. })) && stop is Cancelled
            ==> r->Err_0.source is Cancelled,
        (reply matches Some(UploadReply::ShortClosed { .. })) && stop is Clean
            ==> r->Err_0.source is InvalidData,
        reply matches Some(UploadReply::ShortClosed { .. }) ==> (stop matches UploadStop::Source(fault)
            ==> (r->Err_0.source matches Error::Io { message } && message@ == fault.message@)),
        r matches Err(e) ==> e.partial is None,
{
}

/// The worker answers for the whole folder: every object it gave is yielded, as it was and in its order.
pub proof fn law_a_wpd_listing_yields_every_object(
    objects: Vec<ObjectInfo>,
    cancelled: bool,
    r: Result<Vec<ListedObject>, Error>,
)
    requires
        call_ensures(wpd::listing, (cancelled, Ok::<Vec<ObjectInfo>, Error>(objects)), r),
    ensures
        cancelled <==> r is Err,
        cancelled ==> r->Err_0 is Cancelled,
        r matches Ok(items) ==> items@.len() == objects@.len() && forall|i: int|
            0 <= i < objects@.len() ==> #[trigger] items@[i] == Ok::<ObjectInfo, BackendListingError>(
                objects@[i],
            ),
{
}

/// An event that came is delivered; without one the wait has timed out, or the session has ended.
pub proof fn law_events_are_delivered(
    event: Option<u64>,
    polled: Result<u64, Error>,
    delivered: Result<u64, Error>,
)
    requires
        call_ensures(usb::polled_event::<u64>, (event,), polled),
        call_ensures(wpd::delivered_event::<u64>, (event,), delivered),
    ensures
        event matches Some(e) ==> polled == Ok::<u64, Error>(e) && delivered == Ok::<u64, Error>(e),
        event is None ==> polled is Err && polled->Err_0 is Timeout && delivered is Err
            && delivered->Err_0 is Disconnected,
{
}

/// Work goes on exactly where it was not cancelled.
pub proof fn law_cancelled_work_stops(cancelled: bool, r: Result<(), Error>)
    requires
        call_ensures(crate::mtp::backend::bail_if_cancelled, (cancelled,), r),
    ensures
        r is Ok <==> !cancelled,
        r matches Err(e) ==> e is Cancelled,
{
}

/// How many objects there are among the items of a listing.
pub open spec fn readable(items: Seq<ListedObject>) -> nat
    decreases items.len(),
{
    if items.len() == 0 {
        0
    } else if items.last() is Ok {
        readable(items.drop_last()) + 1
    } else {
        readable(items.drop_last())
    }
}

/// The objects and the skipped handles of a read, item by item.
proof fn lemma_read_item_by_item(items: Seq<ListedObject>)
    ensures
        ({
            let seen = storage::listed_views(items);
            let objects = storage::objects_of(seen);
            let skipped = storage::skipped_of(seen);
            &&& objects.len() == readable(items)
            &&& skipped.len() == items.len() - readable(items)
            &&& forall|i: int|
                0 <= i < items.len() ==> {
                    let before = readable(items.take(i));
                    &&& (#[trigger] items[i]) is Ok ==> before < objects.len() && objects[before as int]
                        == items[i]->Ok_0@
                    &&& items[i] is Err ==> i - before < skipped.len() && skipped[i - before].handle
                        == items[i]->Err_0.handle && skipped[i - before].error
                        == items[i]->Err_0.source@
                }
        }),
    decreases items.len(),
{
    let seen = storage::listed_views(items);
    if items.len() > 0 {
        let fewer = items.drop_last();
        lemma_read_item_by_item(fewer);
        assert(storage::listed_views(fewer) =~= seen.drop_last());
        assert(seen.last() == crate::mtp::backend::listed_view(items.last()));
        let objects = storage::objects_of(seen);
        let skipped = storage::skipped_of(seen);
        let old_objects = storage::objects_of(seen.drop_last());
        let old_skipped = storage::skipped_of(seen.drop_last());
        assert forall|i: int| 0 <= i < items.len() implies {
            let before = readable(items.take(i));
            &&& (#[trigger] items[i]) is Ok ==> before < objects.len() && objects[before as int]
                == items[i]->Ok_0@
            &&& items[i] is Err ==> i - before < skipped.len() && skipped[i - before].handle
                == items[i]->Err_0.handle && skipped[i - before].error == items[i]->Err_0.source@
        } by {
            lemma_readable_bounds(items, i);
            if i < fewer.len() {
                assert(items.take(i) =~= fewer.take(i));
                assert(items[i] == fewer[i]);
                lemma_readable_bounds(fewer, i);
                let before = readable(items.take(i));
                if items[i] is Ok {
                    assert(objects[before as int] == old_objects[before as int]);
                } else {
                    assert(skipped[i - before] == old_skipped[i - before]);
                }
            } else {
                assert(items.take(i) =~= fewer);
            }
        }
    }
}

proof fn lemma_readable_bounds(items: Seq<ListedObject>, i: int)
    requires
        0 <= i <= items.len(),
    ensures
        readable(items.take(i)) <= i,
    decreases i,
{
    if i > 0 {
        assert(items.take(i).drop_last() =~= items.take(i - 1));
        lemma_readable_bounds(items, i - 1);
    }
}

/// Reading a folder to the end keeps every item in its place: the objects read are the readable items, as they
/// were and in their order, and every other item is among the skipped ones, with its handle and its error. The
/// read fails exactly at a fatal item, or where nothing but refusals came.
pub proof fn law_a_read_keeps_every_item(items: Vec<ListedObject>, r: Result<ObjectCollection, Error>)
    requires
        call_ensures(storage::collect_objects, (items,), r),
    ensures
        ({
            let fatal = exists|i: int|
                0 <= i < items@.len() && (#[trigger] items@[i]) is Err && items@[i]->Err_0.disposition is Fatal;
            &&& r is Err <==> fatal || (items@.len() > 0 && readable(items@) == 0)
        }),
        r matches Ok(found) ==> {
            &&& found.objects@.len() == readable(items@)
            &&& found.objects@.len() + found.skipped@.len() == items@.len()
            &&& forall|i: int|
                0 <= i < items@.len() ==> {
                    let before = readable(items@.take(i));
                    &&& (#[trigger] items@[i]) is Ok ==> found.objects@[before as int]@ == items@[i]->Ok_0@
                    &&& items@[i] is Err ==> {
                        &&& found.skipped@[i - before].handle == items@[i]->Err_0.handle
                        &&& found.skipped@[i - before].error@ == items@[i]->Err_0.source@
                    }
                }
        },
{
    let seen = storage::listed_views(items@);
    let p = |item: storage::Listed| storage::is_fatal(item);
    lemma_read_item_by_item(items@);
    crate::search::lemma_first_where(seen, p);
    lemma_readable_bounds(items@, items@.len() as int);
    assert(items@.take(items@.len() as int) =~= items@);
    match storage::first_fatal(seen) {
        Some(i) => {
            assert(p(seen[i]));
            assert(items@[i] is Err);
        },
        None => {
            assert forall|i: int| 0 <= i < items@.len() implies !((#[trigger] items@[i]) is Err
                && items@[i]->Err_0.disposition is Fatal) by {
                assert(!p(seen[i]));
            }
        },
    }
    if r is Ok {
        let found = r->Ok_0;
        assert(found@.objects == storage::objects_of(seen));
        assert(found@.skipped == storage::skipped_of(seen));
        assert forall|i: int| 0 <= i < items@.len() implies {
            let before = readable(items@.take(i));
            &&& (#[trigger] items@[i]) is Ok ==> found.objects@[before as int]@ == items@[i]->Ok_0@
            &&& items@[i] is Err ==> {
                &&& found.skipped@[i - before].handle == items@[i]->Err_0.handle
                &&& found.skipped@[i - before].error@ == items@[i]->Err_0.source@
            }
        } by {
            lemma_readable_bounds(items@, i);
            let before = readable(items@.take(i));
            if items@[i] is Ok {
                assert(found@.objects[before as int] == found.objects@[before as int]@);
            } else {
                assert(found@.skipped[i - before] == found.skipped@[i - before]@);
            }
        }
    }
}

/// A caller of a streaming listing sees each object as it is, each refusal that leaves the listing usable as a
/// skipped handle, and any other failure as an error.
pub proof fn law_a_stream_shows_each_item_for_what_it_is(item: storage::Listed)
    ensures
        item matches Ok(o) ==> storage::classified(item) == Ok::<ListingItemView, ErrorView>(
            ListingItemView::Object(o),
        ),
        item matches Err(e) ==> {
            &&& storage::classified(item) is Ok <==> e.disposition is SkipObject
            &&& storage::classified(item) matches Ok(seen) ==> (seen matches ListingItemView::Skipped(s)
                && s.handle == e.handle && s.error == e.source)
            &&& storage::classified(item) matches Err(x) ==> x == e.source
        },
{
}

/// An item is an object or it is not.
pub proof fn law_an_item_gives_its_object(item: ListingItem, r: Option<ObjectInfo>)
    requires
        call_ensures(ListingItem::object, (item,), r),
    ensures
        item matches ListingItem::Object(o) ==> r == Some(o),
        item is Skipped ==> r is None,
{
}

/// A move or a copy stays on its storage unless another one is named.
pub proof fn law_a_destination_is_the_storage_named(
    storage: Storage,
    named: Option<StorageId>,
    r: StorageId,
)
    requires
        call_ensures(Storage::destination, (&storage, named), r),
    ensures
        named matches Some(id) ==> r == id,
        named is None ==> r == storage.id,
{
}

/// A walk asks for the folder it was started at, and a finished walk gives all it found.
pub proof fn law_a_walk_starts_at_its_folder(
    parent: Option<ObjectHandle>,
    walk: RecursiveWalk,
    next: Option<Option<ObjectHandle>>,
    found: Vec<ObjectInfo>,
)
    requires
        call_ensures(RecursiveWalk::new, (parent,), walk),
        call_ensures(RecursiveWalk::next, (&walk,), next),
        call_ensures(RecursiveWalk::finish, (walk,), found),
    ensures
        next == Some(parent),
        found@.len() == 0,
{
    assert(storage::object_views(found@).len() == found@.len());
}

/// A listing after it was polled several times, with whether it had been cancelled by then.
pub open spec fn polled_run(
    cursor: usb::ListingCursorView,
    cancelled: Seq<bool>,
) -> usb::ListingCursorView
    decreases cancelled.len(),
{
    if cancelled.len() == 0 {
        cursor
    } else {
        polled_run(cursor, cancelled.drop_last()).polled(cancelled.last())
    }
}

/// The handles that were fetched on the way.
pub open spec fn fetched_run(cursor: usb::ListingCursorView, cancelled: Seq<bool>) -> Seq<PtpHandle>
    decreases cancelled.len(),
{
    if cancelled.len() == 0 {
        Seq::empty()
    } else {
        let before = fetched_run(cursor, cancelled.drop_last());
        match polled_run(cursor, cancelled.drop_last()).next_fetch(cancelled.last()) {
            Some(handle) => before.push(handle),
            None => before,
        }
    }
}

/// How many polls came while the listing was not cancelled.
pub open spec fn uncancelled(cancelled: Seq<bool>) -> nat
    decreases cancelled.len(),
{
    if cancelled.len() == 0 {
        0
    } else if cancelled.last() {
        uncancelled(cancelled.drop_last())
    } else {
        uncancelled(cancelled.drop_last()) + 1
    }
}

/// A listing fetches the handles that the device reported one after another, each once and none left out, for as long
/// as it is not cancelled; a poll while it is cancelled fetches nothing and loses nothing.
pub proof fn law_each_handle_is_fetched_once_and_in_order(
    handles: Seq<PtpHandle>,
    filter: ParentFilter,
    cancelled: Seq<bool>,
)
    ensures
        ({
            let start = usb::ListingCursorView { handles, cursor: 0, filter };
            let n = if uncancelled(cancelled) < handles.len() {
                uncancelled(cancelled) as int
            } else {
                handles.len() as int
            };
            &&& fetched_run(start, cancelled) == handles.take(n)
            &&& polled_run(start, cancelled) == (usb::ListingCursorView { handles, cursor: n, filter })
        }),
    decreases cancelled.len(),
{
    let start = usb::ListingCursorView { handles, cursor: 0, filter };
    if cancelled.len() == 0 {
        assert(handles.take(0) =~= Seq::empty());
    } else {
        law_each_handle_is_fetched_once_and_in_order(handles, filter, cancelled.drop_last());
        let before = uncancelled(cancelled.drop_last());
        if before < handles.len() && !cancelled.last() {
            assert(handles.take(before as int).push(handles[before as int]) =~= handles.take((before + 1) as int));
        }
    }
}

/// An upload after chunks of these lengths were counted.
pub open spec fn counted_run(upload: UsbUpload, lens: Seq<nat>) -> UsbUpload
    decreases lens.len(),
{
    if lens.len() == 0 {
        upload
    } else {
        usb::chunk_counted(counted_run(upload, lens.drop_last()), lens.last())
    }
}

/// What is reported as sent is the sum of the chunks, and the object and its size stay what they are.
pub proof fn law_progress_is_the_sum_of_the_chunks(upload: UsbUpload, lens: Seq<nat>)
    requires
        upload.sent == 0,
        storage::total_len(lens) <= u64::MAX,
    ensures
        counted_run(upload, lens).sent == storage::total_len(lens),
        counted_run(upload, lens).handle == upload.handle,
        counted_run(upload, lens).total == upload.total,
    decreases lens.len(),
{
    if lens.len() > 0 {
        law_progress_is_the_sum_of_the_chunks(upload, lens.drop_last());
    }
}

/// An upload to the worker stops for the reason that there was: its source ended, or failed, or the callback wanted no
/// more, or the worker took no more. It reports the bytes that the worker has taken and the chunk at hand, out of the
/// size declared.
pub proof fn law_a_wpd_upload_stops_for_its_reason(total: u64, events: Seq<wpd::UploadEventView>)
    requires
        wpd::is_upload_run(total, events),
        events.len() > 0,
    ensures
        ({
            let u = wpd::upload_run(total, events);
            let last = events.last();
            &&& last is Ended ==> u.action == wpd::UploadActionView::AwaitReply(wpd::UploadStopView::Clean)
            &&& last matches wpd::UploadEventView::Failed { kind, message } ==> u.action
                == wpd::UploadActionView::AwaitReply(wpd::UploadStopView::Source { kind, message })
            &&& last matches wpd::UploadEventView::Verdict { keep_going } ==> (!keep_going ==> u.action
                == wpd::UploadActionView::AwaitReply(wpd::UploadStopView::Cancelled))
            &&& last matches wpd::UploadEventView::Verdict { keep_going } ==> (keep_going ==> u.action
                == wpd::UploadActionView::Send(wpd::last_chunk(events)))
            &&& last matches wpd::UploadEventView::Sent { accepted } ==> (accepted ==> u.action is NextItem)
            &&& last matches wpd::UploadEventView::Sent { accepted } ==> (!accepted ==> u.action
                == wpd::UploadActionView::AwaitReply(wpd::UploadStopView::Clean))
            &&& last matches wpd::UploadEventView::Chunk(len) ==> (u.action matches wpd::UploadActionView::Report(p)
                && p.total_bytes == Some(total) && p.bytes_transferred == wpd::sum(wpd::taken_chunks(events))
                + len)
            &&& last is Replied ==> u.action is Done
        }),
{
    wpd::law_only_approved_chunks_are_sent(total, events);
    wpd::law_only_approved_chunks_are_sent(total, events.drop_last());
}

/// A bounded traversal counts a folder for each association and a file for anything else, and lists every folder that
/// it counted; it stops at two hundred objects.
pub proof fn law_a_traversal_counts_by_format(
    t: crate::mtp::traversal::TraversalView,
    o: ObjectInfoView,
    s: storage::SkippedObjectView,
)
    ensures
        ({
            let next = crate::mtp::traversal::traversal_step(t, ListingItemView::Object(o));
            let past = crate::mtp::traversal::traversal_step(t, ListingItemView::Skipped(s));
            &&& o.format == 0x3001 ==> next.folders == t.folders + 1 && next.files == t.files && next.to_visit
                == t.to_visit.push(Some(o.handle))
            &&& o.format != 0x3001 ==> next.files == t.files + 1 && next.folders == t.folders && next.to_visit
                == t.to_visit
            &&& next.skipped == t.skipped
            &&& past.skipped == t.skipped + 1 && past.folders == t.folders && past.files == t.files
            &&& t.is_capped() <==> t.folders + t.files >= 200
        }),
{
}

/// A fresh answer replaces what was known of a storage, and a failed one changes nothing.
pub proof fn law_only_an_answer_refreshes_a_storage(storage: Storage, info: StorageInfo, e: Error)
    ensures
        storage::refreshed(storage, Ok(info)).info == info,
        storage::refreshed(storage, Ok(info)).id == storage.id,
        storage::refreshed(storage, Err(e)) == storage,
{
}

/// A read that has taken everything gives it back as it is, unless nothing but refusals came: then it gives the first.
pub proof fn law_a_finished_read_gives_what_it_took(
    found: ObjectCollection,
    r: Result<ObjectCollection, Error>,
)
    requires
        call_ensures(ObjectCollection::finish, (found,), r),
    ensures
        r is Err <==> found.objects@.len() == 0 && found.skipped@.len() > 0,
        r matches Ok(all) ==> all@ == found@,
        r matches Err(e) ==> e@ == found.skipped@[0].error@,
{
    assert(found@.objects.len() == found.objects@.len());
    assert(found@.skipped.len() == found.skipped@.len());
    if found.skipped@.len() > 0 {
        assert(found@.skipped[0] == found.skipped@[0]@);
    }
}

/// A worker that would not list is reported as it was.
pub proof fn law_a_wpd_listing_that_failed_says_why(e: Error, r: Result<Vec<ListedObject>, Error>)
    requires
        call_ensures(wpd::listing, (false, Err::<Vec<ObjectInfo>, Error>(e)), r),
    ensures
        r matches Err(x) && x@ == e@,
{
}

/// What an upload to the worker came to is known exactly once it is over.
pub proof fn law_a_wpd_upload_gives_its_outcome(
    upload: wpd::WpdUpload,
    r: Option<Result<ObjectHandle, UploadError>>,
)
    requires
        call_ensures(wpd::WpdUpload::finish, (upload,), r),
    ensures
        r is Some <==> upload.action is Done,
        upload.action matches wpd::UploadAction::Done(Ok(h)) ==> r == Some(
            Ok::<ObjectHandle, UploadError>(h),
        ),
        upload.action matches wpd::UploadAction::Done(Err(e)) ==> (r matches Some(Err(x)) && x.source@
            == e.source@ && x.partial == e.partial),
{
}

} // verus!
