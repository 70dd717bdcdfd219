use mtp_rs::error::{IoErrorKind, IoFault, PtpError, PtpUploadError, UsbErrorKind, UsbFault};
use mtp_rs::mtp::backend::usb::{
    is_all_handle_rejection, plan_partial_read, polled_event, relocate_params, root_filter,
    send_object_info_params, ListingCursor, ListingResolver, ListingStep, ParentFilter,
    PartialReadOp, ReadPlan, Resolution, UsbBackend, UsbUpload,
};
use mtp_rs::mtp::backend::wpd::{
    delivered_event, listing, reconcile, UploadAction, UploadEvent, UploadReply, UploadStop,
    WpdUpload,
};
use mtp_rs::mtp::backend::{bail_if_cancelled, Backend, ByteRange, ListedObject, Progress};
use mtp_rs::mtp::error::{map_response_code, Error, UploadError};
use mtp_rs::mtp::storage::{collect_objects, ListingItem, ObjectListing};
use mtp_rs::mtp::types::{ObjectHandle, ObjectInfo, StorageId, StorageInfo};
use mtp_rs::ptp::{
    OperationCode, PtpHandle, PtpObjectInfo, PtpStorageId, ResponseCode, ALL_HANDLE, ROOT_HANDLE,
};
use nusb::MaybeFuture;
use std::io::{Error as IoError, ErrorKind};

const OVER_4GIB: u64 = u32::MAX as u64 + 1;

#[test]
fn test_is_exclusive_access_macos_message() {
    let io_err = IoError::other("could not be opened for exclusive access");
    let err = PtpError::from_io(&io_err);
    assert!(err.is_exclusive_access());
}

#[test]
fn test_is_exclusive_access_linux_busy() {
    let io_err = IoError::other("Device or resource busy");
    let err = PtpError::from_io(&io_err);
    assert!(err.is_exclusive_access());
}

#[test]
fn test_is_exclusive_access_windows_denied() {
    let io_err = IoError::new(ErrorKind::PermissionDenied, "Access is denied");
    let err = PtpError::from_io(&io_err);
    assert!(err.is_exclusive_access());
}

#[test]
fn test_is_exclusive_access_io_error() {
    let io_err = IoError::other("could not be opened for exclusive access");
    let err = PtpError::from_io(&io_err);
    assert!(err.is_exclusive_access());
}

#[test]
fn test_is_exclusive_access_false_for_other_errors() {
    assert!(!PtpError::Timeout.is_exclusive_access());
    assert!(!PtpError::Disconnected.is_exclusive_access());
    assert!(!PtpError::NoDevice.is_exclusive_access());
    assert!(!PtpError::invalid_data("some error").is_exclusive_access());

    let io_err = IoError::new(ErrorKind::NotFound, "device not found");
    assert!(!PtpError::from_io(&io_err).is_exclusive_access());
}

fn usb(kind: UsbErrorKind, message: &str) -> PtpError {
    PtpError::Usb(UsbFault { kind, message: message.to_string() })
}

fn io(kind: IoErrorKind, message: &str) -> PtpError {
    PtpError::Io(IoFault { kind, message: message.to_string() })
}

fn protocol(code: ResponseCode, operation: OperationCode) -> PtpError {
    PtpError::Protocol { code, operation }
}

#[test]
fn io_errors_keep_their_kind_and_text() {
    for (kind, ours) in [
        (ErrorKind::PermissionDenied, IoErrorKind::PermissionDenied),
        (ErrorKind::Interrupted, IoErrorKind::Interrupted),
        (ErrorKind::NotFound, IoErrorKind::NotFound),
        (ErrorKind::BrokenPipe, IoErrorKind::Other),
    ] {
        match PtpError::from_io(&IoError::new(kind, "what happened")) {
            PtpError::Io(fault) => {
                assert_eq!(fault.kind, ours);
                assert_eq!(fault.message, "what happened");
            }
            other => panic!("{other:?}"),
        }
    }
}

#[test]
fn usb_errors_keep_their_category_and_text() {
    let (reader, writer) = std::io::pipe().unwrap();
    drop(writer);
    let source = nusb::Device::from_fd(reader.into()).wait().err().expect("a pipe is no device");
    let text = source.to_string();
    assert_eq!(source.kind(), nusb::ErrorKind::Other);
    match PtpError::from_usb(&source) {
        PtpError::Usb(fault) => {
            assert_eq!(fault.kind, UsbErrorKind::Other);
            assert_eq!(fault.message, text);
        }
        other => panic!("{other:?}"),
    }
}

#[test]
fn exclusive_messages_are_found_in_any_case() {
    assert!(usb(UsbErrorKind::Other, "EXCLUSIVE ACCESS refused").is_exclusive_access());
    assert!(usb(UsbErrorKind::Other, "Access to it was DENIED").is_exclusive_access());
    assert!(!usb(UsbErrorKind::Busy, "whatever").is_exclusive_access());
    assert!(!usb(UsbErrorKind::Other, "stall").is_exclusive_access());
}

#[test]
fn ptp_errors_describe_themselves() {
    assert_eq!(
        protocol(ResponseCode::StoreFull, OperationCode::SendObjectInfo).describe(),
        "Protocol error: StoreFull during SendObjectInfo"
    );
    assert_eq!(
        protocol(ResponseCode::SessionAlreadyOpen, OperationCode::from_code(0x9803)).describe(),
        "Protocol error: SessionAlreadyOpen during GetObjectPropValue"
    );
    assert_eq!(usb(UsbErrorKind::Other, "x").describe(), "USB error: x");
    assert_eq!(io(IoErrorKind::Other, "y").describe(), "I/O error: y");
    assert_eq!(PtpError::invalid_data("z").describe(), "Invalid data: z");
    assert_eq!(PtpError::NoDevice.describe(), "No MTP device found");
}

#[test]
fn only_a_busy_device_or_a_timeout_is_worth_retrying() {
    assert!(PtpError::Timeout.is_retryable());
    assert!(protocol(ResponseCode::DeviceBusy, OperationCode::GetObject).is_retryable());
    assert!(!protocol(ResponseCode::GeneralError, OperationCode::GetObject).is_retryable());
    assert!(!PtpError::Disconnected.is_retryable());
    assert_eq!(
        protocol(ResponseCode::DeviceBusy, OperationCode::GetObject).response_code(),
        Some(ResponseCode::DeviceBusy)
    );
    assert_eq!(PtpError::Timeout.response_code(), None);
    assert!(Error::Busy.is_retryable() && Error::Timeout.is_retryable());
    assert!(!Error::StaleHandle.is_retryable());
    for e in [PtpError::Timeout, protocol(ResponseCode::DeviceBusy, OperationCode::GetObject)] {
        assert!(Error::from(e).is_retryable());
    }
    assert!(!Error::from(PtpError::Disconnected).is_retryable());
}

#[test]
fn is_disconnected_covers_only_a_device_that_is_actually_gone() {
    assert!(Error::Disconnected.is_disconnected());

    assert!(!Error::DeviceReset.is_disconnected());

    assert!(!Error::Busy.is_disconnected());
    assert!(!Error::Timeout.is_disconnected());
}

#[test]
fn response_codes_have_neutral_meanings() {
    let text = |code| map_response_code(code).describe();
    assert!(map_response_code(ResponseCode::InvalidObjectHandle).is_stale_handle());
    assert!(map_response_code(ResponseCode::InvalidParentObject).is_stale_handle());
    assert_eq!(text(ResponseCode::InvalidStorageId), "not found");
    assert_eq!(text(ResponseCode::StoreReadOnly), "access denied");
    assert_eq!(text(ResponseCode::ObjectWriteProtected), "access denied");
    assert_eq!(text(ResponseCode::AccessDenied), "access denied");
    assert_eq!(text(ResponseCode::StoreFull), "storage full");
    assert_eq!(text(ResponseCode::ObjectTooLarge), "storage full");
    assert_eq!(text(ResponseCode::DeviceBusy), "device busy");
    assert_eq!(text(ResponseCode::OperationNotSupported), "operation not supported by this device");
    assert_eq!(text(ResponseCode::ParameterNotSupported), "operation not supported by this device");
    assert_eq!(text(ResponseCode::TransactionCancelled), "operation cancelled");
    assert_eq!(text(ResponseCode::SessionNotOpen), "device disconnected");
    assert_eq!(text(ResponseCode::GeneralError), "device error: GeneralError");
    assert_eq!(text(ResponseCode::SessionAlreadyOpen), "device error: SessionAlreadyOpen");
    assert_eq!(text(ResponseCode::Unknown(0x2ABC)), "device error: Unknown(10940)");
}

#[test]
fn low_level_errors_have_neutral_meanings() {
    let neutral = |e: PtpError| Error::from(e);
    assert!(neutral(usb(UsbErrorKind::Busy, "x")).is_exclusive_access());
    assert!(neutral(usb(UsbErrorKind::PermissionDenied, "x")).is_permission_denied());
    assert!(neutral(usb(UsbErrorKind::NotFound, "x")).is_disconnected());
    assert!(neutral(usb(UsbErrorKind::Disconnected, "x")).is_disconnected());
    assert_eq!(neutral(usb(UsbErrorKind::Other, "x")).describe(), "I/O error: x");
    assert!(neutral(io(IoErrorKind::PermissionDenied, "x")).is_permission_denied());
    assert_eq!(neutral(io(IoErrorKind::NotFound, "x")).describe(), "I/O error: x");
    assert_eq!(neutral(PtpError::invalid_data("d")).describe(), "invalid data: d");
    assert!(neutral(PtpError::SessionNotOpen).is_disconnected());
    assert!(matches!(neutral(PtpError::NoDevice), Error::NoDevice));
    assert!(matches!(neutral(PtpError::DeviceReset), Error::DeviceReset));
    assert!(matches!(neutral(PtpError::Cancelled), Error::Cancelled));
}

#[test]
fn upload_errors_keep_the_partial_object() {
    let low = PtpUploadError { source: PtpError::Timeout, partial: Some(PtpHandle(7)) };
    let neutral = UploadError::from(low);
    assert_eq!(neutral.partial, Some(ObjectHandle(7)));
    assert!(matches!(Error::from(neutral), Error::Timeout));
}

#[test]
fn a_declined_all_handle_request_falls_back_to_parent_zero() {
    assert!(is_all_handle_rejection(&protocol(
        ResponseCode::InvalidObjectHandle,
        OperationCode::GetObjectHandles,
    )));
    assert!(is_all_handle_rejection(&protocol(
        ResponseCode::OperationNotSupported,
        OperationCode::GetObjectHandles,
    )));
    assert!(is_all_handle_rejection(&protocol(
        ResponseCode::InvalidParentObject,
        OperationCode::GetObjectHandles,
    )));
    assert!(is_all_handle_rejection(&PtpError::from_io(&IoError::other("stall"))));
}

#[test]
fn a_broken_session_propagates_instead_of_falling_back() {
    for err in [
        protocol(ResponseCode::GeneralError, OperationCode::GetObjectHandles),
        PtpError::DeviceReset,
        PtpError::Timeout,
        PtpError::Disconnected,
        PtpError::Cancelled,
        PtpError::SessionNotOpen,
        PtpError::invalid_data("desync"),
    ] {
        assert!(
            !is_all_handle_rejection(&err),
            "{err:?} must propagate, not trigger the parent=0 fallback"
        );
    }
}

#[test]
fn the_storage_id_is_a_root_marker_only_while_it_isnt_an_object() {
    let storage = PtpStorageId(0x0001_0001);
    let h = |v| PtpHandle(v);

    let clean = root_filter(storage, &[h(10), h(20)]);
    assert!(clean.accepts(h(0x0001_0001)));

    let collides = root_filter(storage, &[h(0x0001_0001), h(20)]);
    assert!(!collides.accepts(h(0x0001_0001)));

    for filter in [clean, collides] {
        assert!(filter.accepts(PtpHandle(ROOT_HANDLE)));
        assert!(filter.accepts(PtpHandle(ALL_HANDLE)));
        assert!(!filter.accepts(h(42)));
    }
}

#[test]
fn plan_partial_read_prefers_64bit_when_available() {
    for offset in [0, 1024, OVER_4GIB, u64::MAX] {
        assert_eq!(plan_partial_read(true, true, offset).unwrap(), PartialReadOp::Wide);
        assert_eq!(plan_partial_read(true, false, offset).unwrap(), PartialReadOp::Wide);
    }
}

#[test]
fn plan_partial_read_falls_back_to_32bit_under_4gib() {
    for offset in [0, 1, 1024, u64::from(u32::MAX)] {
        assert_eq!(plan_partial_read(false, true, offset).unwrap(), PartialReadOp::Narrow);
    }
}

#[test]
fn plan_partial_read_32bit_only_past_4gib_errors() {
    for offset in [OVER_4GIB, u64::MAX] {
        assert!(matches!(
            plan_partial_read(false, true, offset),
            Err(Error::InvalidData { .. })
        ));
    }
}

#[test]
fn plan_partial_read_neither_op_is_unsupported() {
    for offset in [0, 1024, OVER_4GIB] {
        assert!(matches!(plan_partial_read(false, false, offset), Err(Error::Unsupported)));
    }
}

const STORAGE: StorageId = StorageId(0x0001_0001);

fn ptp_info(parent: u32, name: &str) -> PtpObjectInfo {
    PtpObjectInfo {
        handle: PtpHandle(0),
        storage_id: PtpStorageId(0x0001_0001),
        parent: PtpHandle(parent),
        format: 0x3000,
        size: 10,
        filename: name.to_string(),
    }
}

fn asked(resolution: Resolution) -> ListingResolver {
    match resolution {
        Resolution::Ask(resolver) => resolver,
        other => panic!("{other:?}"),
    }
}

fn resolved(resolution: Resolution) -> (Vec<PtpHandle>, ParentFilter) {
    match resolution {
        Resolution::Resolved(handles, filter) => (handles, filter),
        other => panic!("{other:?}"),
    }
}

fn walk(
    handles: Vec<PtpHandle>,
    filter: ParentFilter,
    answers: Vec<Result<PtpObjectInfo, PtpError>>,
) -> Vec<ListedObject> {
    let mut cursor = ListingCursor::new(handles, filter);
    let mut items = Vec::new();
    let mut answers = answers.into_iter();
    loop {
        match cursor.poll(false) {
            ListingStep::Finished => return items,
            ListingStep::Stop(e) => {
                items.push(Err(e));
                return items;
            }
            ListingStep::Fetch(handle) => {
                if let Some(item) = cursor.deliver(handle, answers.next().unwrap()) {
                    items.push(item);
                }
            }
        }
    }
}

const SID: StorageId = StorageId(1);

fn handles(reported: &[u32]) -> Vec<PtpHandle> {
    reported.iter().map(|h| PtpHandle(*h)).collect()
}

fn list_root(reported: &[u32], answers: Vec<Result<PtpObjectInfo, PtpError>>) -> Vec<ListedObject> {
    let first = asked(ListingResolver::start(SID, None, false));
    let (handles, filter) = resolved(first.answer(Ok(handles(reported)), false));
    walk(handles, filter, answers)
}

fn names(items: Vec<ListedObject>) -> Vec<String> {
    items.into_iter().map(|item| item.unwrap().filename).collect()
}

fn general_error() -> PtpError {
    protocol(ResponseCode::GeneralError, OperationCode::GetObjectInfo)
}

#[test]
fn list_root_fast_path_filters_non_root() {
    let first = asked(ListingResolver::start(SID, None, false));
    assert_eq!(first.request_parent(), Some(PtpHandle(ALL_HANDLE)));
    let (reported, filter) = resolved(first.answer(Ok(handles(&[10, 20, 30])), false));
    assert_eq!(ListingCursor::new(reported.clone(), filter).total(), 3);
    let items = walk(
        reported,
        filter,
        vec![
            Ok(ptp_info(0, "root_file.jpg")),
            Ok(ptp_info(99, "nested.jpg")),
            Ok(ptp_info(0, "another_root.txt")),
        ],
    );
    let found: Vec<ObjectInfo> = items.into_iter().map(|item| item.unwrap()).collect();
    assert_eq!(found.len(), 2);
    assert_eq!(found[0].filename, "root_file.jpg");
    assert_eq!(found[0].handle, ObjectHandle(10));
    assert_eq!(found[1].filename, "another_root.txt");
    assert_eq!(found[1].handle, ObjectHandle(30));
}

#[test]
fn list_root_accepts_both_parent_values() {
    let items = list_root(
        &[10, 20, 30],
        vec![
            Ok(ptp_info(0, "dcim")),
            Ok(ptp_info(0xFFFF_FFFF, "download")),
            Ok(ptp_info(42, "nested")),
        ],
    );
    assert_eq!(names(items), ["dcim", "download"]);
}

#[test]
fn list_root_accepts_storage_id_as_parent() {
    let items = list_root(&[10, 20], vec![Ok(ptp_info(1, "dbi-root")), Ok(ptp_info(42, "nested"))]);
    assert_eq!(names(items), ["dbi-root"]);
}

#[test]
fn a_folder_handle_colliding_with_the_storage_id_keeps_its_children_out_of_root() {
    let items = list_root(
        &[1, 10, 20],
        vec![
            Ok(ptp_info(0, "collides-with-storage-id")),
            Ok(ptp_info(1, "child-of-that-folder")),
            Ok(ptp_info(0, "real-root-file")),
        ],
    );
    assert_eq!(names(items), ["collides-with-storage-id", "real-root-file"]);
}

#[test]
fn list_empty_directory() {
    let first = asked(ListingResolver::start(SID, None, false));
    let (reported, filter) = resolved(first.answer(Ok(Vec::new()), false));
    assert_eq!(ListingCursor::new(reported.clone(), filter).total(), 0);
    assert!(collect_objects(walk(reported, filter, Vec::new())).unwrap().objects.is_empty());
}

#[test]
fn list_root_falls_back_on_error() {
    let declined = || Err(protocol(ResponseCode::InvalidObjectHandle, OperationCode::GetObjectHandles));
    let first = asked(ListingResolver::start(SID, None, false));
    let second = asked(first.answer(declined(), false));
    assert_eq!(second.request_parent(), None);
    let (reported, filter) = resolved(second.answer(Ok(handles(&[10, 20])), false));
    let items = walk(reported, filter, vec![Ok(ptp_info(0, "root.jpg")), Ok(ptp_info(99, "nested.jpg"))]);
    assert_eq!(names(items), ["root.jpg"]);

    let second = asked(asked(ListingResolver::start(SID, None, false)).answer(declined(), false));
    let third = asked(second.answer(declined(), false));
    assert_eq!(third.request_parent(), Some(PtpHandle(ALL_HANDLE)));
    assert!(matches!(third.answer(declined(), false), Resolution::Failed(PtpError::Protocol { .. })));
}

#[test]
fn list_root_empty_is_not_fallback() {
    let first = asked(ListingResolver::start(SID, None, false));
    let (reported, filter) = resolved(first.answer(Ok(Vec::new()), false));
    assert_eq!(ListingCursor::new(reported, filter).total(), 0);
}

#[test]
fn handle_enumeration_general_error_remains_fatal() {
    let first = asked(ListingResolver::start(SID, None, false));
    let refused = Err(protocol(ResponseCode::GeneralError, OperationCode::GetObjectHandles));
    match first.answer(refused, false) {
        Resolution::Failed(e) => assert!(matches!(
            Error::from(e),
            Error::Other { ref detail } if detail == "GeneralError"
        )),
        other => panic!("{other:?}"),
    }
}

#[test]
fn list_subfolder_uses_exact_filter() {
    let only = asked(ListingResolver::start(SID, Some(ObjectHandle(42)), false));
    assert_eq!(only.request_parent(), Some(PtpHandle(42)));
    let failed = only.answer(Err(PtpError::Timeout), false);
    assert!(matches!(failed, Resolution::Failed(PtpError::Timeout)));

    let only = asked(ListingResolver::start(SID, Some(ObjectHandle(42)), false));
    let (reported, filter) = resolved(only.answer(Ok(handles(&[100, 101])), false));
    assert!(!filter.accepts(PtpHandle(0)));
    let items = walk(
        reported,
        filter,
        vec![Ok(ptp_info(42, "IMG_001.jpg")), Ok(ptp_info(42, "IMG_002.jpg"))],
    );
    assert_eq!(names(items), ["IMG_001.jpg", "IMG_002.jpg"]);
}

#[test]
fn list_propagates_mid_listing_error() {
    let invalid = protocol(ResponseCode::InvalidObjectHandle, OperationCode::GetObjectInfo);
    let items = list_root(&[10, 20], vec![Ok(ptp_info(0, "good.jpg")), Err(invalid)]);
    assert_eq!(items.len(), 2);
    assert_eq!(items[0].as_ref().unwrap().filename, "good.jpg");
    assert!(items[1].is_err());
}

#[test]
fn a_wedged_root_listing_reports_the_reset_it_hit() {
    let first = asked(ListingResolver::start(STORAGE, None, false));
    assert!(matches!(
        first.answer(Err(PtpError::DeviceReset), false),
        Resolution::Failed(PtpError::DeviceReset)
    ));
}

#[test]
fn list_cancel_before_first_handle_bails() {
    let first = asked(ListingResolver::start(SID, None, false));
    let (reported, filter) = resolved(first.answer(Ok(handles(&[10, 20, 30])), false));
    let mut cursor = ListingCursor::new(reported, filter);
    assert_eq!(cursor.total(), 3);
    match cursor.poll(true) {
        ListingStep::Stop(e) => assert!(matches!(e.source, Error::Cancelled)),
        other => panic!("{other:?}"),
    }
}

#[test]
fn a_listing_cancelled_before_its_handles_are_known_bails() {
    assert!(matches!(
        ListingResolver::start(STORAGE, None, true),
        Resolution::Failed(PtpError::Cancelled)
    ));
    let first = asked(ListingResolver::start(STORAGE, None, false));
    let stalled = Err(io(IoErrorKind::Other, "stall"));
    assert!(matches!(first.answer(stalled, true), Resolution::Failed(PtpError::Cancelled)));
    assert!(bail_if_cancelled(false).is_ok());
    assert!(matches!(bail_if_cancelled(true), Err(Error::Cancelled)));
}

#[test]
fn list_cancel_mid_listing_bails_at_next_boundary() {
    let first = asked(ListingResolver::start(SID, None, false));
    let (reported, filter) = resolved(first.answer(Ok(handles(&[10, 20, 30])), false));
    let mut cursor = ListingCursor::new(reported, filter);
    assert!(matches!(cursor.poll(false), ListingStep::Fetch(PtpHandle(10))));
    let item = cursor.deliver(PtpHandle(10), Ok(ptp_info(0, "first.jpg"))).unwrap();
    assert_eq!(item.unwrap().filename, "first.jpg");
    for _ in 0..2 {
        match cursor.poll(true) {
            ListingStep::Stop(e) => {
                assert_eq!(e.handle, ObjectHandle(20));
                assert!(matches!(e.source, Error::Cancelled));
            }
            other => panic!("{other:?}"),
        }
    }
    assert!(matches!(cursor.poll(false), ListingStep::Fetch(PtpHandle(20))));
    assert!(matches!(cursor.poll(false), ListingStep::Fetch(PtpHandle(30))));
    assert!(matches!(cursor.poll(false), ListingStep::Finished));
}

fn around_a_general_error() -> Vec<ListedObject> {
    list_root(
        &[10, 20, 30],
        vec![Ok(ptp_info(0, "first.jpg")), Err(general_error()), Ok(ptp_info(0, "last.jpg"))],
    )
}

#[test]
fn list_general_error_is_tolerated_only_by_collection() {
    let collection = collect_objects(around_a_general_error()).unwrap();
    assert_eq!(collection.objects.len(), 2);
    assert_eq!(collection.objects[0].filename, "first.jpg");
    assert_eq!(collection.objects[1].filename, "last.jpg");
    assert_eq!(collection.skipped.len(), 1);
    assert_eq!(collection.skipped[0].handle, ObjectHandle(20));
    assert!(matches!(
        collection.skipped[0].error,
        Error::Other { ref detail } if detail == "GeneralError"
    ));
}

#[test]
fn list_objects_returns_valid_siblings_around_general_error() {
    let objects = collect_objects(around_a_general_error()).unwrap().objects;
    assert_eq!(objects.len(), 2);
    assert_eq!(objects[0].filename, "first.jpg");
    assert_eq!(objects[1].filename, "last.jpg");
}

#[test]
fn stream_keeps_general_error_observable_and_continues() {
    let mut items = around_a_general_error().into_iter();
    let mut listing = ObjectListing::new(3);
    match listing.next(items.next()) {
        Some(Ok(item)) => assert_eq!(item.object().unwrap().filename, "first.jpg"),
        other => panic!("{other:?}"),
    }
    match listing.next(items.next()) {
        Some(Ok(ListingItem::Skipped(skipped))) => assert!(matches!(
            skipped.error,
            Error::Other { ref detail } if detail == "GeneralError"
        )),
        other => panic!("{other:?}"),
    }
    match listing.next(items.next()) {
        Some(Ok(item)) => assert_eq!(item.object().unwrap().filename, "last.jpg"),
        other => panic!("{other:?}"),
    }
    assert!(listing.next(items.next()).is_none());
}

#[test]
fn invalid_object_handle_remains_fatal_for_collection() {
    let invalid = protocol(ResponseCode::InvalidObjectHandle, OperationCode::GetObjectInfo);
    let items = list_root(&[10, 20], vec![Ok(ptp_info(0, "first.jpg")), Err(invalid)]);
    assert!(matches!(collect_objects(items), Err(Error::StaleHandle)));
}

#[test]
fn a_partial_read_names_the_whole_offset() {
    let wide = UsbBackend::new(&[OperationCode::GetPartialObject64, OperationCode::GetPartialObject]);
    assert!(wide.has_partial_object_64 && wide.has_partial_object);
    let offset = 5 * OVER_4GIB + 7;
    let download = wide
        .download(ObjectHandle(3), ByteRange::Range { offset, len: 100 }, offset + 40)
        .unwrap();
    assert_eq!(download.size, offset + 40);
    let request = download.request;
    assert_eq!(request.operation, OperationCode::GetPartialObject64);
    assert_eq!(request.params, vec![3, 7, 5, 40]);
    assert_eq!(request.expected_size, None);

    let narrow = UsbBackend::new(&[OperationCode::GetPartialObject]);
    let download = narrow.download(ObjectHandle(3), ByteRange::From(7), 50).unwrap();
    assert_eq!(download.size, 50);
    let request = download.request;
    assert_eq!(request.operation, OperationCode::GetPartialObject);
    assert_eq!(request.params, vec![3, 7, 43]);
    assert!(matches!(
        narrow.download(ObjectHandle(3), ByteRange::From(OVER_4GIB), OVER_4GIB),
        Err(Error::InvalidData { .. })
    ));
}

#[test]
fn a_full_download_needs_no_partial_read() {
    let plain = UsbBackend::new(&[OperationCode::GetObject]);
    let request = plain.download(ObjectHandle(9), ByteRange::Full, 50).unwrap().request;
    assert_eq!(request.operation, OperationCode::GetObject);
    assert_eq!((request.params, request.expected_size), (vec![9], None));
    let large = plain.download(ObjectHandle(9), ByteRange::Full, OVER_4GIB).unwrap();
    assert_eq!(large.size, OVER_4GIB);
    assert_eq!(large.request.expected_size, Some(OVER_4GIB));
    assert!(matches!(
        plain.download(ObjectHandle(9), ByteRange::From(1), 50),
        Err(Error::Unsupported)
    ));
}

#[test]
fn download_stream_from_offset_past_size_errors() {
    let backend = UsbBackend::new(&[OperationCode::GetPartialObject64]);
    let size = b"small".len() as u64;
    match backend.download(ObjectHandle(1), ByteRange::From(size + 1), size) {
        Err(Error::InvalidData { message }) => {
            assert_eq!(message, "download offset 6 is past the object size 5");
        }
        other => panic!("{other:?}"),
    }
}

#[test]
fn a_download_at_the_end_asks_for_nothing_and_knows_the_whole_size() {
    let backend = UsbBackend::new(&[OperationCode::GetPartialObject64]);
    let download = backend.download(ObjectHandle(1), ByteRange::From(10), 10).unwrap();
    assert_eq!(download.size, 10);
    assert_eq!(download.request.params, vec![1, 10, 0, 0]);
}

#[test]
fn a_range_read_is_planned_by_what_the_device_offers() {
    let wide = UsbBackend::new(&[OperationCode::GetPartialObject64]);
    assert_eq!(wide.read_range(0, None).unwrap(), ReadPlan::Whole);
    assert_eq!(
        wide.read_range(0, Some(5)).unwrap(),
        ReadPlan::Wide { offset: 0, max_bytes: 5 }
    );
    assert_eq!(
        wide.read_range(9, None).unwrap(),
        ReadPlan::Wide { offset: 9, max_bytes: u32::MAX }
    );
    let narrow = UsbBackend::new(&[OperationCode::GetPartialObject]);
    assert_eq!(
        narrow.read_range(9, Some(4)).unwrap(),
        ReadPlan::Narrow { offset: 9, max_bytes: 4 }
    );
    assert!(matches!(UsbBackend::new(&[]).read_range(9, None), Err(Error::Unsupported)));
}

#[test]
fn root_upload_addresses_the_storage_root_not_handle_zero() {
    assert_eq!(send_object_info_params(SID, None), vec![1, 0xFFFF_FFFF]);
    let mut upload = UsbUpload::begin(Ok(PtpHandle(77)), 4).unwrap();
    upload.on_chunk(b"data".len() as u64);
    assert_eq!(upload.finish(Ok(())).unwrap(), ObjectHandle(77));
}

#[test]
fn root_folder_addresses_the_storage_root_not_handle_zero() {
    assert_eq!(send_object_info_params(SID, None), vec![1, 0xFFFF_FFFF]);
    assert_eq!(ObjectHandle::from_ptp(PtpHandle(78)), ObjectHandle(78));
}

#[test]
fn a_named_write_parent_is_passed_through_untouched() {
    assert_eq!(send_object_info_params(SID, Some(ObjectHandle(42))), vec![1, 42]);
}

#[test]
fn move_and_copy_keep_handle_zero_for_the_root_destination() {
    assert_eq!(relocate_params(ObjectHandle(5), ObjectHandle(0), SID), vec![5, 1, 0]);
}

#[test]
fn upload_surfaces_partial_handle_on_midstream_error() {
    let mut upload = UsbUpload::begin(Ok(PtpHandle(7)), 100).unwrap();
    assert_eq!(
        upload.on_chunk(b"abc".len() as u64),
        Progress { bytes_transferred: 3, total_bytes: Some(100) }
    );
    assert!(upload.after_progress(true).is_ok());
    let UploadError { source, partial } = upload.finish(Err(io(IoErrorKind::Other, "gone"))).unwrap_err();
    assert!(matches!(source, Error::Io { .. }));
    assert_eq!(source.describe(), "I/O error: gone");
    assert_eq!(partial, Some(ObjectHandle(7)));
}

#[test]
fn upload_surfaces_partial_handle_on_cancel() {
    let mut upload = UsbUpload::begin(Ok(PtpHandle(7)), 5).unwrap();
    upload.on_chunk(b"hello".len() as u64);
    let fault = upload.after_progress(false).unwrap_err();
    assert_eq!((fault.kind, fault.message.as_str()), (IoErrorKind::Interrupted, "cancelled"));
    let UploadError { source, partial } = upload.finish(Err(PtpError::Io(fault))).unwrap_err();
    assert!(matches!(source, Error::Cancelled));
    assert_eq!(partial, Some(ObjectHandle(7)));
}

#[test]
fn upload_success_returns_handle() {
    let mut upload = UsbUpload::begin(Ok(PtpHandle(7)), 12).unwrap();
    upload.on_chunk(b"hello upload".len() as u64);
    assert!(upload.after_progress(true).is_ok());
    assert_eq!(upload.finish(Ok(())).unwrap(), ObjectHandle(7));
}

#[test]
fn upload_to_readonly_storage_has_no_partial() {
    let refused = protocol(ResponseCode::StoreReadOnly, OperationCode::SendObjectInfo);
    let failed = UsbUpload::begin(Err(refused), 4).unwrap_err();
    assert_eq!(failed.partial, None);
    assert!(matches!(failed.source, Error::AccessDenied));
}

#[test]
fn no_events_returns_timeout() {
    assert!(matches!(polled_event::<u8>(None), Err(Error::Timeout)));
    assert_eq!(polled_event(Some(3u8)).unwrap(), 3);
    assert!(matches!(delivered_event::<u8>(None), Err(Error::Disconnected)));
    assert_eq!(delivered_event(Some(3u8)).unwrap(), 3);
}

fn storage_info(id: u64, description: &str) -> StorageInfo {
    StorageInfo {
        id: StorageId(id),
        description: description.to_string(),
        total_capacity: 100,
        free_space: 50,
        is_writable: true,
    }
}

#[test]
fn storages_go_by_the_identifiers_they_were_asked_for() {
    let storages = UsbBackend::storages(vec![
        (PtpStorageId(0x10001), Ok(storage_info(0, "Internal"))),
        (PtpStorageId(0x20001), Ok(storage_info(0, "Card"))),
    ])
    .unwrap();
    assert_eq!(storages.len(), 2);
    assert_eq!(storages[0].id, StorageId(0x10001));
    assert_eq!(storages[1].id, StorageId(0x20001));
    assert_eq!(storages[1].description, "Card");
    let failed = UsbBackend::storages(vec![
        (PtpStorageId(0x10001), Err(PtpError::Timeout)),
        (PtpStorageId(0x20001), Err(PtpError::Disconnected)),
    ]);
    assert!(matches!(failed, Err(Error::Timeout)));
    let one = UsbBackend::storage_info(StorageId(5), Ok(storage_info(9, "x"))).unwrap();
    assert_eq!(one.id, StorageId(5));
}

#[test]
fn a_wpd_upload_counts_what_the_worker_took() {
    let mut upload = WpdUpload::new(10);
    assert!(matches!(upload.action, UploadAction::NextItem));
    upload.step(UploadEvent::Chunk(4));
    match &upload.action {
        UploadAction::Report(p) => {
            assert_eq!(*p, Progress { bytes_transferred: 4, total_bytes: Some(10) });
        }
        other => panic!("{other:?}"),
    }
    upload.step(UploadEvent::Verdict { keep_going: true });
    assert!(matches!(upload.action, UploadAction::Send(4)));
    assert_eq!(upload.forwarded, 0);
    upload.step(UploadEvent::Sent { accepted: true });
    assert_eq!(upload.forwarded, 4);
    upload.step(UploadEvent::Chunk(6));
    upload.step(UploadEvent::Verdict { keep_going: true });
    upload.step(UploadEvent::Sent { accepted: true });
    upload.step(UploadEvent::Ended);
    assert!(matches!(upload.action, UploadAction::AwaitReply(UploadStop::Clean)));
    assert_eq!(upload.forwarded, 10);
    upload.step(UploadEvent::Replied(Some(UploadReply::Committed(ObjectHandle(3)))));
    assert_eq!(upload.finish().unwrap().unwrap(), ObjectHandle(3));
}

#[test]
fn a_wpd_upload_stops_for_its_callback_its_source_and_its_worker() {
    let mut upload = WpdUpload::new(10);
    upload.step(UploadEvent::Chunk(4));
    upload.step(UploadEvent::Verdict { keep_going: false });
    assert!(matches!(upload.action, UploadAction::AwaitReply(UploadStop::Cancelled)));
    assert_eq!(upload.forwarded, 0);
    upload.step(UploadEvent::Replied(Some(UploadReply::ShortClosed { partial: Some(ObjectHandle(8)) })));
    let failed = upload.finish().unwrap().unwrap_err();
    assert!(matches!(failed.source, Error::Cancelled));
    assert_eq!(failed.partial, None);

    let mut upload = WpdUpload::new(10);
    upload.step(UploadEvent::Chunk(4));
    upload.step(UploadEvent::Verdict { keep_going: true });
    upload.step(UploadEvent::Sent { accepted: false });
    assert!(matches!(upload.action, UploadAction::AwaitReply(UploadStop::Clean)));
    assert_eq!(upload.forwarded, 0);
    upload.step(UploadEvent::Replied(None));
    assert!(upload.finish().unwrap().unwrap_err().source.is_disconnected());

    let mut upload = WpdUpload::new(10);
    upload.step(UploadEvent::Failed(IoFault { kind: IoErrorKind::Other, message: "disk".to_string() }));
    assert!(matches!(upload.action, UploadAction::AwaitReply(UploadStop::Source(_))));
    assert!(upload.finish().is_none());
}

#[test]
fn a_wpd_commit_wins_over_why_the_source_stopped() {
    let source = || UploadStop::Source(IoFault { kind: IoErrorKind::Other, message: "disk".to_string() });
    for stop in [UploadStop::Clean, UploadStop::Cancelled, source()] {
        assert_eq!(
            reconcile(stop, Some(UploadReply::Committed(ObjectHandle(3)))).unwrap(),
            ObjectHandle(3)
        );
    }
    let short = || Some(UploadReply::ShortClosed { partial: Some(ObjectHandle(8)) });
    let cancelled = reconcile(UploadStop::Cancelled, short()).unwrap_err();
    assert!(matches!(cancelled.source, Error::Cancelled));
    assert_eq!(cancelled.partial, None);
    let failed = reconcile(source(), short()).unwrap_err();
    assert_eq!(failed.partial, None);
    assert_eq!(failed.source.describe(), "I/O error: disk");
    let truncated = reconcile(UploadStop::Clean, short()).unwrap_err();
    assert_eq!(
        truncated.source.describe(),
        "invalid data: upload stream ended before the declared size was reached"
    );
    let refused = reconcile(UploadStop::Cancelled, Some(UploadReply::Error(Error::StorageFull))).unwrap_err();
    assert!(matches!(refused.source, Error::StorageFull));
    assert_eq!(refused.partial, None);
    let gone = reconcile(UploadStop::Clean, None).unwrap_err();
    assert!(gone.source.is_disconnected());
    assert_eq!(gone.partial, None);
}

#[test]
fn a_wpd_listing_is_readable_throughout() {
    let info = |h: u64| ObjectInfo {
        handle: ObjectHandle(h),
        storage_id: STORAGE,
        parent: ObjectHandle(0),
        format: 0x3000,
        size: 1,
        filename: format!("f{h}"),
    };
    let found = collect_objects(listing(false, Ok(vec![info(1), info(2)])).unwrap()).unwrap();
    assert_eq!(found.objects.len(), 2);
    assert_eq!(found.objects[1].filename, "f2");
    assert!(found.skipped.is_empty());
    assert!(matches!(listing(true, Ok(Vec::new())), Err(Error::Cancelled)));
    assert!(matches!(listing(false, Err(Error::Timeout)), Err(Error::Timeout)));
}

#[test]
fn the_backend_is_picked_by_default() {
    assert_eq!(Backend::default(), Backend::Auto);
    assert_eq!(ByteRange::Full.offset(), 0);
    assert_eq!(ByteRange::From(4).offset(), 4);
    assert_eq!(ByteRange::Range { offset: 6, len: 2 }.offset(), 6);
}

#[test]
fn operations_are_told_apart_by_code() {
    assert_eq!(OperationCode::from_code(0x1007), OperationCode::GetObjectHandles);
    assert_eq!(OperationCode::from_code(0x95C1), OperationCode::GetPartialObject64);
    assert_eq!(OperationCode::from_code(0x9999), OperationCode::Unknown(0x9999));
    assert_eq!(OperationCode::Unknown(7).name(), "Unknown(7)");
    for (code, name) in [
        (0x1001, "GetDeviceInfo"),
        (0x1002, "OpenSession"),
        (0x100B, "DeleteObject"),
        (0x9803, "GetObjectPropValue"),
        (0x9804, "SetObjectPropValue"),
    ] {
        assert_eq!(OperationCode::from_code(code).name(), name);
    }
    assert!(!OperationCode::GetObjectPropValue.expects_host_data());
    assert!(OperationCode::SendObject.expects_host_data());
    assert!(!OperationCode::GetObject.expects_host_data());
}
