use mtp_rs::cli::args::DoctorArgs;
use mtp_rs::cli::commands::doctor::{writable_folder_hints, Doctor, DoctorNext, OpenFailure};
use mtp_rs::cli::commands::folder_download::{
    check_no_collisions, FolderAction, FolderDownload, FolderEvent, GetFolderRow, GetRow,
};
use mtp_rs::cli::commands::folder_plan::{
    write_bad_name_error, FolderPlan, FolderWalk, SkippedRow,
};
use mtp_rs::cli::commands::get::{
    case_probe_name, case_probe_result, case_probe_upper_name, check_file_destination,
    check_new_destination, is_folder_download, remote_root, root_existed, skipped_warning,
    temp_file_name, Destination, FileAction, FileDownload, FileEvent, LocalFailure,
};
use mtp_rs::cli::commands::ls::LsRow;
use mtp_rs::cli::commands::probe::{probe_skipped, CancelAction};
use mtp_rs::cli::commands::reset::{
    find_only_device, reset_failure, reset_selection, ResetRow, ResetSelection, ResetStep,
};
use mtp_rs::cli::error::{CliError, CliErrorKind};
use mtp_rs::mtp::device::MtpDeviceInfo;
use mtp_rs::mtp::error::Error;
use mtp_rs::mtp::storage::{ObjectCollection, SkippedObject};
use mtp_rs::mtp::types::{
    Capabilities, DeviceInfo, MtpMatchReason, ObjectHandle, ObjectInfo, StorageId, StorageInfo,
};

fn object(handle: u64, name: &str, folder: bool) -> ObjectInfo {
    ObjectInfo {
        handle: ObjectHandle(handle),
        storage_id: StorageId(0x10001),
        parent: ObjectHandle(0),
        format: if folder { 0x3001 } else { 0x3000 },
        size: 1234,
        filename: name.to_string(),
    }
}

fn found(objects: Vec<ObjectInfo>, unread: &[u64]) -> Result<ObjectCollection, Error> {
    Ok(ObjectCollection {
        objects,
        skipped: unread
            .iter()
            .map(|h| SkippedObject { handle: ObjectHandle(*h), error: Error::Busy })
            .collect(),
    })
}

fn plain(e: CliError) -> (CliErrorKind, String) {
    match e {
        CliError::Plain { kind, message } => (kind, message),
        other => panic!("{other:?}"),
    }
}

fn device(e: CliError) -> (String, Error) {
    match e {
        CliError::Device { context, source } => (context, source),
        other => panic!("{other:?}"),
    }
}

fn walked_plan() -> FolderPlan {
    let mut walk = FolderWalk::new(Some(ObjectHandle(1)), "/DCIM".to_string());
    let root = walk.next().unwrap();
    assert_eq!(root.parent, Some(ObjectHandle(1)));
    let listing = found(
        vec![object(2, "Camera", true), object(3, "a.jpg", false), object(4, "Old", true)],
        &[9],
    );
    walk.take(root, listing, false).unwrap();
    let next = walk.next().unwrap();
    assert_eq!(next.remote_folder, "/DCIM/Old");
    assert_eq!(next.parent, Some(ObjectHandle(4)));
    walk.take(next, found(Vec::new(), &[]), false).unwrap();
    let next = walk.next().unwrap();
    assert_eq!(next.remote_folder, "/DCIM/Camera");
    walk.take(next, found(vec![object(5, "b.jpg", false)], &[]), false).unwrap();
    assert!(walk.next().is_none());
    walk.plan
}

#[test]
fn a_folder_is_planned_with_parents_before_children() {
    let plan = walked_plan();
    let folders: Vec<&str> = plan.folders.iter().map(|f| f.remote_path.as_str()).collect();
    assert_eq!(folders, vec!["/DCIM/Camera", "/DCIM/Old"]);
    assert_eq!(plan.files.len(), 2);
    assert_eq!(plan.files[0].remote_path, "/DCIM/a.jpg");
    assert_eq!(plan.files[0].local_path.components, vec!["a.jpg"]);
    assert_eq!(plan.files[1].remote_path, "/DCIM/Camera/b.jpg");
    assert_eq!(plan.files[1].local_path.components, vec!["Camera", "b.jpg"]);
    assert_eq!(plan.files[1].handle, ObjectHandle(5));
    assert_eq!(plan.skipped.len(), 1);
    assert_eq!(plan.skipped[0].remote_folder, "/DCIM");
    assert_eq!(plan.skipped[0].handle, 9);
    assert_eq!(plan.skipped[0].error, "device busy");
    assert_eq!(plan.listing_progress(), "\rlisting: 2 files, 2 folders");
    assert_eq!(plan.entries().len(), 4);
    assert_eq!(plan.entries()[2].remote_path, "/DCIM/a.jpg");
}

#[test]
fn paths_below_the_storage_root_have_one_slash() {
    let mut walk = FolderWalk::new(None, "/".to_string());
    let root = walk.next().unwrap();
    assert_eq!(root.parent, None);
    walk.take(root, found(vec![object(2, "x", false)], &[]), false).unwrap();
    assert_eq!(walk.plan.files[0].remote_path, "/x");
}

#[test]
fn an_unusable_name_fails_the_walk_up_front() {
    let mut walk = FolderWalk::new(None, "/".to_string());
    let root = walk.next().unwrap();
    let listing = found(vec![object(2, "ok", false), object(3, "a\"/b", false)], &[]);
    let (kind, message) = plain(walk.take(root, listing, false).unwrap_err());
    assert_eq!(kind, CliErrorKind::RemotePath);
    assert_eq!(
        message,
        "remote object in / has a name that can't be used locally (contains a path separator): \
         \"a\\\"/b\""
    );
    assert!(walk.plan.files.is_empty());
    let (_, message) = plain(write_bad_name_error("/D", "empty", "\"\""));
    assert_eq!(message, "remote object in /D has a name that can't be used locally (empty): \"\"");

    let mut walk = FolderWalk::new(None, "/".to_string());
    let root = walk.next().unwrap();
    assert!(walk.take(root, found(vec![object(2, "a:b", false)], &[]), true).is_err());
}

#[test]
fn a_folder_that_will_not_list_fails_the_walk() {
    let mut walk = FolderWalk::new(Some(ObjectHandle(1)), "/DCIM".to_string());
    let root = walk.next().unwrap();
    let (context, source) = device(walk.take(root, Err(Error::Timeout), false).unwrap_err());
    assert_eq!(context, "list /DCIM");
    assert!(matches!(source, Error::Timeout));
}

#[test]
fn a_destination_is_replaced_only_on_request() {
    assert!(check_new_destination(Ok(false), false).is_ok());
    assert!(check_new_destination(Ok(true), true).is_ok());
    assert_eq!(
        plain(check_new_destination(Ok(true), false).unwrap_err()),
        (
            CliErrorKind::Other,
            "local path already exists; pass --replace to overwrite it".to_string()
        )
    );
    assert_eq!(
        plain(check_new_destination(Err("no".to_string()), true).unwrap_err()).1,
        "check local path: no"
    );
    assert!(is_folder_download(&None));
    assert!(is_folder_download(&Some(object(1, "d", true))));
    assert!(!is_folder_download(&Some(object(1, "f", false))));
}

#[test]
fn a_file_destination_is_checked_for_what_stands_there() {
    assert!(!check_file_destination(&Destination::Missing, "p", false).unwrap());
    assert!(check_file_destination(&Destination::File, "p", true).unwrap());
    let text = |at: Destination, replace| plain(check_file_destination(&at, "p", replace).unwrap_err()).1;
    assert_eq!(
        text(Destination::File, false),
        "local file already exists; pass --replace to overwrite it: p"
    );
    assert_eq!(text(Destination::Directory, true), "local path is a directory: p");
    assert_eq!(text(Destination::Unknown("denied".to_string()), true), "check local path p: denied");
}

#[test]
fn a_folder_is_not_downloaded_onto_a_file() {
    assert!(root_existed(&Destination::Directory).unwrap());
    assert!(!root_existed(&Destination::Missing).unwrap());
    assert!(!root_existed(&Destination::Unknown("x".to_string())).unwrap());
    assert_eq!(
        plain(root_existed(&Destination::File).unwrap_err()).1,
        "remote path is a folder but the local path is not a directory"
    );
    assert_eq!(remote_root(&Vec::new()), "/");
    assert_eq!(remote_root(&vec!["DCIM".to_string(), "Camera".to_string()]), "/DCIM/Camera");
}

#[test]
fn temporary_names_carry_the_nonce_and_the_process() {
    assert_eq!(temp_file_name(Some("a.jpg"), 123, 45), ".a.jpg.mtp-rs-123-45.tmp");
    assert_eq!(temp_file_name(None, u128::MAX, 0), format!(".download.mtp-rs-{}-0.tmp", u128::MAX));
    assert_eq!(case_probe_name(7, 8), ".mtp-rs-case-probe-7-8");
    assert_eq!(case_probe_upper_name(7, 8), case_probe_name(7, 8).to_uppercase());
}

#[test]
fn a_case_probe_must_leave_nothing_behind() {
    assert_eq!(case_probe_result(Ok(true), Ok(())), Ok(true));
    assert_eq!(case_probe_result(Err("a".to_string()), Ok(())), Err("a".to_string()));
    assert_eq!(case_probe_result(Ok(true), Err("b".to_string())), Err("b".to_string()));
}

fn refused(path: &str) -> LocalFailure {
    LocalFailure { path: path.to_string(), reason: "denied".to_string() }
}

#[test]
fn a_download_goes_through_a_temporary_file() {
    let mut download = FileDownload::new("/a.jpg".to_string(), true);
    assert!(matches!(download.action, FileAction::CreateTemp));
    download.step(FileEvent::TempCreated(Ok(())));
    assert!(matches!(download.action, FileAction::StartDownload));
    download.step(FileEvent::Started(Ok(())));
    assert!(matches!(download.action, FileAction::NextChunk));
    download.step(FileEvent::Chunk(Ok(())));
    assert!(matches!(download.action, FileAction::WriteChunk));
    download.step(FileEvent::Written(Ok(())));
    download.step(FileEvent::Ended { bytes: 77 });
    assert!(matches!(download.action, FileAction::Flush));
    download.step(FileEvent::Flushed(Ok(())));
    assert!(matches!(download.action, FileAction::RemoveDestination));
    download.step(FileEvent::Removed(Ok(())));
    assert!(matches!(download.action, FileAction::RenameTemp));
    download.step(FileEvent::Renamed(Ok(())));
    assert_eq!(download.finish().unwrap().unwrap(), 77);
}

fn started() -> FileDownload {
    let mut download = FileDownload::new("/a.jpg".to_string(), true);
    download.step(FileEvent::TempCreated(Ok(())));
    download.step(FileEvent::Started(Ok(())));
    download
}

#[test]
fn an_interrupted_download_gives_up_the_temporary_file_alone() {
    let mut download = started();
    download.step(FileEvent::Chunk(Err(Error::Disconnected)));
    match &download.action {
        FileAction::RemoveTemp(_) => (),
        other => panic!("{other:?}"),
    }
    let (context, source) = device(download.finish().unwrap().unwrap_err());
    assert_eq!(context, "download /a.jpg");
    assert!(source.is_disconnected());

    let mut download = started();
    download.step(FileEvent::Chunk(Ok(())));
    download.step(FileEvent::Written(Err("full".to_string())));
    assert_eq!(
        plain(download.finish().unwrap().unwrap_err()),
        (CliErrorKind::Transfer, "write local file: full".to_string())
    );

    let mut download = started();
    download.step(FileEvent::Ended { bytes: 0 });
    download.step(FileEvent::Flushed(Err("full".to_string())));
    assert!(matches!(download.action, FileAction::RemoveTemp(_)));
    assert_eq!(plain(download.finish().unwrap().unwrap_err()).1, "flush local file: full");

    let mut download = FileDownload::new("/a.jpg".to_string(), false);
    download.step(FileEvent::TempCreated(Ok(())));
    download.step(FileEvent::Started(Err(Error::Busy)));
    assert_eq!(device(download.finish().unwrap().unwrap_err()).0, "start download of /a.jpg");

    let mut download = FileDownload::new("/a.jpg".to_string(), false);
    download.step(FileEvent::TempCreated(Err(refused("t"))));
    assert!(matches!(download.action, FileAction::Fail(_)));
    assert_eq!(plain(download.finish().unwrap().unwrap_err()).1, "create local file t: denied");
    assert!(started().finish().is_none());
}

#[test]
fn a_download_to_a_free_place_is_renamed_at_once() {
    let mut download = FileDownload::new("/a.jpg".to_string(), false);
    download.step(FileEvent::TempCreated(Ok(())));
    download.step(FileEvent::Started(Ok(())));
    download.step(FileEvent::Ended { bytes: 0 });
    download.step(FileEvent::Flushed(Ok(())));
    assert!(matches!(download.action, FileAction::RenameTemp));
    download.step(FileEvent::Renamed(Err("busy".to_string())));
    assert_eq!(plain(download.finish().unwrap().unwrap_err()).1, "replace local file: busy");
    let mut download = started();
    download.step(FileEvent::Ended { bytes: 0 });
    download.step(FileEvent::Flushed(Ok(())));
    download.step(FileEvent::Removed(Err("busy".to_string())));
    assert_eq!(plain(download.finish().unwrap().unwrap_err()).1, "replace local file: busy");
}

#[test]
fn a_planned_folder_is_carried_out_in_order() {
    let mut download = FolderDownload::new(walked_plan(), false);
    assert!(matches!(download.action, FolderAction::CreateRoot));
    download.step(FolderEvent::RootCreated(Ok(())));
    assert!(matches!(download.action, FolderAction::ProbeCase));
    download.step(FolderEvent::CaseProbed(Ok(true)));
    for i in 0..2 {
        assert!(matches!(download.action, FolderAction::CreateFolder(n) if n == i));
        download.step(FolderEvent::FolderCreated(Ok(())));
    }
    for i in 0..2 {
        assert!(matches!(download.action, FolderAction::Download(n) if n == i));
        download.step(FolderEvent::Downloaded(Ok(100)));
    }
    assert!(matches!(download.action, FolderAction::Done));
    let (bytes, plan) = download.finish().unwrap().unwrap();
    assert_eq!(bytes, 200);
    let row = GetFolderRow::new("DCIM".to_string(), "out".to_string(), Some(1), bytes, plan);
    assert_eq!(row.line(), "downloaded out (2 files, 2 folders, 200 bytes)");
    assert_eq!(row.skipped.len(), 1);
    assert_eq!(row.handle, Some(1));
}

fn colliding_plan() -> FolderPlan {
    let mut walk = FolderWalk::new(None, "/".to_string());
    let root = walk.next().unwrap();
    walk.take(root, found(vec![object(2, "IMG", false), object(3, "img", false)], &[]), false).unwrap();
    assert!(walk.next().is_none());
    walk.plan
}

#[test]
fn a_plan_that_does_not_fit_writes_nothing() {
    let expected = "/IMG and /img would be saved to the same local path; nothing was downloaded";
    let mut download = FolderDownload::new(colliding_plan(), false);
    download.step(FolderEvent::RootCreated(Ok(())));
    download.step(FolderEvent::CaseProbed(Ok(true)));
    assert!(matches!(download.action, FolderAction::RemoveRoot(_)));
    assert_eq!(
        plain(download.finish().unwrap().unwrap_err()),
        (CliErrorKind::RemotePath, expected.to_string())
    );
    let mut download = FolderDownload::new(colliding_plan(), true);
    download.step(FolderEvent::RootCreated(Ok(())));
    download.step(FolderEvent::CaseProbed(Ok(true)));
    assert!(matches!(download.action, FolderAction::Fail(_)));
    assert!(check_no_collisions(&colliding_plan(), Ok(false)).is_ok());
    assert_eq!(
        plain(check_no_collisions(&colliding_plan(), Err(refused("out"))).unwrap_err()),
        (CliErrorKind::Other, "check local folder out: denied".to_string())
    );
}

#[test]
fn a_folder_download_stops_at_the_first_failure() {
    let mut download = FolderDownload::new(walked_plan(), true);
    download.step(FolderEvent::RootCreated(Err(refused("out"))));
    assert_eq!(plain(download.finish().unwrap().unwrap_err()).1, "create local folder out: denied");
    let mut download = FolderDownload::new(walked_plan(), true);
    download.step(FolderEvent::RootCreated(Ok(())));
    download.step(FolderEvent::CaseProbed(Ok(false)));
    download.step(FolderEvent::FolderCreated(Err(refused("out/Camera"))));
    assert_eq!(
        plain(download.finish().unwrap().unwrap_err()).1,
        "create local folder out/Camera: denied"
    );
    let mut download = FolderDownload::new(colliding_plan(), true);
    download.step(FolderEvent::RootCreated(Ok(())));
    download.step(FolderEvent::CaseProbed(Ok(false)));
    download.step(FolderEvent::Downloaded(Err(CliError::new(CliErrorKind::Transfer, "x"))));
    assert_eq!(plain(download.finish().unwrap().unwrap_err()).1, "x");
}

#[test]
fn what_was_left_out_is_reported() {
    let row = |h: u64| SkippedRow {
        remote_folder: "/DCIM".to_string(),
        handle: h,
        error: "device busy".to_string(),
    };
    assert!(skipped_warning(&Vec::new()).is_empty());
    assert_eq!(
        skipped_warning(&vec![row(9)]),
        vec![
            "warning: 1 object could not be read and was not downloaded:",
            "  /DCIM handle=9 device busy",
        ]
    );
    assert_eq!(
        skipped_warning(&vec![row(9), row(10)])[0],
        "warning: 2 objects could not be read and were not downloaded:"
    );
    let row = GetRow {
        remote_path: "/a".to_string(),
        local_path: "a".to_string(),
        filename: "a".to_string(),
        handle: 1,
        bytes: 12,
    };
    assert_eq!(row.line(), "downloaded a (12 bytes)");
}

#[test]
fn a_listing_shows_what_it_read_and_what_it_did_not() {
    let listing = found(vec![object(3, "DCIM", true), object(4, "a.txt", false)], &[9]);
    let row = LsRow::new("/".to_string(), false, listing).unwrap();
    assert_eq!(
        row.lines(),
        vec!["DIR          1234 handle=3 DCIM", "FILE         1234 handle=4 a.txt"]
    );
    assert_eq!(
        row.warnings(),
        vec!["warning: 1 object could not be read and was left out:", "  handle=9 device busy"]
    );
    let row = LsRow::new("/".to_string(), true, found(Vec::new(), &[9, 10])).unwrap();
    assert_eq!(row.warnings()[0], "warning: 2 objects could not be read and were left out:");
    let row = LsRow::new("/".to_string(), true, found(Vec::new(), &[])).unwrap();
    assert!(row.warnings().is_empty() && row.lines().is_empty());
    let (context, _) = device(LsRow::new("/".to_string(), false, Err(Error::Busy)).unwrap_err());
    assert_eq!(context, "list remote folder");
}

#[test]
fn a_reset_needs_one_device() {
    assert!(matches!(
        reset_selection(&Some("S".to_string()), Some(4)),
        ResetSelection::Serial(s) if s == "S"
    ));
    assert!(matches!(reset_selection(&None, Some(4)), ResetSelection::Location(4)));
    assert!(matches!(reset_selection(&None, None), ResetSelection::Only));
    assert_eq!(find_only_device(Ok(vec![5])).unwrap(), 5);
    assert_eq!(
        plain(find_only_device(Ok(Vec::new())).unwrap_err()),
        (CliErrorKind::NoDevice, "no MTP device found".to_string())
    );
    assert_eq!(
        plain(find_only_device(Ok(vec![1, 2])).unwrap_err()),
        (
            CliErrorKind::AmbiguousSelection,
            "multiple MTP devices found; pass --device SERIAL or --location LOCATION".to_string()
        )
    );
    assert_eq!(device(find_only_device(Err(Error::Busy)).unwrap_err()).0, "list devices");
    assert_eq!(device(reset_failure(ResetStep::Open, Error::Busy)).0, "open device");
    assert_eq!(device(reset_failure(ResetStep::Reset, Error::Busy)).0, "reset device");
}

#[test]
fn a_reset_reports_whether_the_device_answers() {
    let row = ResetRow::new(Ok("Pixel".to_string()));
    assert!(row.reset);
    assert_eq!(row.line(), "Reset OK, device responding: Pixel");
    let row = ResetRow::new(Err(Error::Timeout));
    assert_eq!(row.responding_model, None);
    assert_eq!(
        row.line(),
        "Reset sent, but the device didn't answer GetDeviceInfo yet. \
         Give it a moment or replug if it stays silent."
    );
}

fn visible() -> MtpDeviceInfo {
    MtpDeviceInfo {
        vendor_id: 1,
        product_id: 2,
        manufacturer: Some("Google".to_string()),
        product: Some("Pixel".to_string()),
        serial_number: None,
        location_id: 0x20,
        speed: None,
        match_reason: MtpMatchReason::StandardClass,
    }
}

fn capabilities() -> Capabilities {
    Capabilities {
        can_upload: true,
        can_delete: true,
        can_rename: false,
        can_move: true,
        can_copy: true,
        can_create_folder: true,
        supports_partial_download: true,
        supports_thumbnails: false,
        supports_events: true,
    }
}

fn identity() -> DeviceInfo {
    DeviceInfo {
        manufacturer: "Google".to_string(),
        model: "Pixel".to_string(),
        serial_number: "P1".to_string(),
    }
}

fn internal() -> StorageInfo {
    StorageInfo {
        id: StorageId(0x10001),
        description: "Internal".to_string(),
        total_capacity: 100,
        free_space: 50,
        is_writable: true,
    }
}

#[test]
fn doctor_walks_from_devices_to_the_probe() {
    let args = DoctorArgs { probe_cancel: true, probe_path: None };
    let mut doctor = Doctor::new(false, &args);
    let reply = doctor.listed(Ok(vec![visible()]));
    assert_eq!(reply.lines, vec!["devices: 1 visible", "  Google Pixel (location: 00000020)"]);
    assert!(!reply.emit);
    assert!(matches!(reply.next, DoctorNext::Open));
    let reply = doctor.opened(&identity(), &capabilities());
    assert_eq!(reply.lines[0], "open: ok (Google Pixel)");
    assert_eq!(
        reply.lines[1],
        "capabilities: upload=true delete=true rename=false move=true copy=true mkdir=true \
         partial_download=true thumbnails=false events=true"
    );
    assert!(matches!(reply.next, DoctorNext::ListStorages));
    let reply = doctor.storages_listed(Ok(vec![internal()]));
    assert_eq!(reply.lines, vec!["storages: 1", "  [0] Internal free=50 access=ReadWrite"]);
    assert!(matches!(reply.next, DoctorNext::CollectRoot(0)));
    let reply = doctor.root_read(found(vec![object(1, "Music", true), object(2, "Download", true)], &[7]));
    assert_eq!(
        reply.lines,
        vec![
            "      unreadable at root: 1 object(s) the device listed but won't describe",
            "        handle=7 device busy",
            "      writable-folder hints: Download, Music",
        ]
    );
    match reply.next {
        DoctorNext::Probe(probe) => assert!(matches!(probe.action, CancelAction::Search)),
        other => panic!("{other:?}"),
    }
    let reply = doctor.probed(probe_skipped("nothing".to_string()));
    assert_eq!(reply.lines, vec!["cancel-probe: skipped (nothing)"]);
    assert!(matches!(reply.next, DoctorNext::Finish));
    assert!(!reply.emit);
    assert_eq!(doctor.row.storages.len(), 1);
    assert_eq!(doctor.row.cancel_probe.unwrap().outcome, "skipped");
}

#[test]
fn a_probe_path_implies_the_probe_of_that_file() {
    let args = DoctorArgs { probe_cancel: false, probe_path: Some("/Pictures/pinned.bin".to_string()) };
    let mut doctor = Doctor::new(true, &args);
    doctor.listed(Ok(vec![visible()]));
    doctor.opened(&identity(), &capabilities());
    doctor.storages_listed(Ok(vec![internal()]));
    let reply = doctor.root_read(found(vec![object(1, "Pictures", true)], &[]));
    assert!(!reply.emit);
    match reply.next {
        DoctorNext::Probe(probe) => assert!(matches!(
            &probe.action,
            CancelAction::ResolvePath(path) if path == "/Pictures/pinned.bin"
        )),
        other => panic!("{other:?}"),
    }
    let reply = doctor.probed(probe_skipped("remote path not found".to_string()));
    assert!(reply.emit && reply.lines.is_empty());
    assert!(matches!(reply.next, DoctorNext::Finish));
    assert_eq!(doctor.row.cancel_probe.unwrap().outcome, "skipped");
}

#[test]
fn doctor_prints_json_once_at_the_end() {
    let args = DoctorArgs { probe_cancel: false, probe_path: None };
    let mut doctor = Doctor::new(true, &args);
    assert!(doctor.listed(Ok(vec![visible()])).lines.is_empty());
    assert!(doctor.opened(&identity(), &capabilities()).lines.is_empty());
    let reply = doctor.storages_listed(Ok(vec![internal()]));
    assert!(reply.lines.is_empty() && !reply.emit);
    let reply = doctor.root_read(found(Vec::new(), &[]));
    assert!(reply.lines.is_empty() && reply.emit);
    assert!(matches!(reply.next, DoctorNext::Finish));
}

#[test]
fn doctor_reads_storages_in_order() {
    let args = DoctorArgs { probe_cancel: false, probe_path: None };
    let mut doctor = Doctor::new(false, &args);
    doctor.listed(Ok(vec![visible()]));
    doctor.opened(&identity(), &capabilities());
    let card = StorageInfo { is_writable: false, ..internal() };
    let reply = doctor.storages_listed(Ok(vec![internal(), card]));
    assert!(matches!(reply.next, DoctorNext::CollectRoot(0)));
    let reply = doctor.root_read(found(Vec::new(), &[]));
    assert_eq!(
        reply.lines,
        vec![
            "      writable-folder hints: none found at root",
            "  [1] Internal free=50 access=ReadOnly",
        ]
    );
    assert!(matches!(reply.next, DoctorNext::CollectRoot(1)));
    match doctor.root_read(Err(Error::Busy)).next {
        DoctorNext::Fail(e) => assert_eq!(device(e).0, "list storage root"),
        other => panic!("{other:?}"),
    }
}

#[test]
fn doctor_fails_where_it_must() {
    let args = DoctorArgs { probe_cancel: false, probe_path: Some("/x".to_string()) };
    let mut doctor = Doctor::new(false, &args);
    assert!(doctor.probe_wanted);
    let reply = doctor.listed(Ok(Vec::new()));
    assert_eq!(reply.lines, vec!["devices: none"]);
    match reply.next {
        DoctorNext::Fail(e) => assert_eq!(plain(e).0, CliErrorKind::NoDevice),
        other => panic!("{other:?}"),
    }
    match Doctor::new(false, &args).listed(Err(Error::Busy)).next {
        DoctorNext::Fail(e) => assert_eq!(device(e).0, "list devices"),
        other => panic!("{other:?}"),
    }
    let mut doctor = Doctor::new(true, &args);
    doctor.listed(Ok(vec![visible()]));
    let reply = doctor.open_failed(OpenFailure {
        error: CliError::new(CliErrorKind::Other, "held"),
        message: "held".to_string(),
        help: Some("close it".to_string()),
    });
    assert!(reply.emit);
    assert!(matches!(reply.next, DoctorNext::Fail(_)));
    assert_eq!(doctor.row.open_error.as_deref(), Some("held"));
    assert_eq!(doctor.row.open_help.as_deref(), Some("close it"));
    let mut doctor = Doctor::new(false, &args);
    doctor.listed(Ok(vec![visible()]));
    doctor.opened(&identity(), &capabilities());
    let reply = doctor.storages_listed(Ok(Vec::new()));
    assert_eq!(reply.lines, vec!["storages: 0", "cancel-probe: skipped (no storage to probe)"]);
}

#[test]
fn writable_folders_are_hinted_in_a_fixed_order() {
    let root = vec![
        object(1, "GARMIN", true),
        object(2, "Pictures", false),
        object(3, "Documents", true),
        object(4, "Download", true),
    ];
    assert_eq!(writable_folder_hints(&root), vec!["Download", "Documents", "GARMIN"]);
    assert!(writable_folder_hints(&Vec::new()).is_empty());
}
