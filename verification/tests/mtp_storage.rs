use mtp_rs::mtp::backend::{BackendListingError, ByteRange};
use mtp_rs::mtp::error::Error;
use mtp_rs::mtp::storage::{
    collect_objects, ListingItem, ObjectCollection, ObjectListing, RecursiveWalk, SkippedObject,
    Storage, WindowedDownload, DEFAULT_DOWNLOAD_WINDOW,
};
use mtp_rs::mtp::traversal::{Traversal, MAX_OBJECTS};
use mtp_rs::mtp::types::{ObjectHandle, ObjectInfo, StorageId, StorageInfo};
use mtp_rs::ptp::{PtpHandle, PtpStorageId};

fn object(handle: u64, name: &str, folder: bool) -> ObjectInfo {
    ObjectInfo {
        handle: ObjectHandle(handle),
        storage_id: StorageId(0x10001),
        parent: ObjectHandle(0),
        format: if folder { 0x3001 } else { 0x3000 },
        size: 1,
        filename: name.to_string(),
    }
}

fn skipped(handle: u64) -> BackendListingError {
    BackendListingError::skippable(ObjectHandle(handle), Error::Other { detail: "GeneralError".to_string() })
}

#[test]
fn an_undescribable_object_leaves_its_siblings_readable() {
    let items = || vec![Ok(object(1, "a.txt", false)), Err(skipped(2)), Ok(object(3, "c.txt", false))];
    let collection = collect_objects(items()).unwrap();
    let names: Vec<&str> = collection.objects.iter().map(|o| o.filename.as_str()).collect();
    assert_eq!(names, ["a.txt", "c.txt"]);
    assert_eq!(collection.skipped.len(), 1);
    assert_eq!(collection.skipped[0].handle, ObjectHandle(2));

    let mut listing = ObjectListing::new(3);
    let mut rest = items().into_iter();
    let mut counts = (0, 0);
    while let Some(item) = listing.next(rest.next()) {
        match item.expect("a skipped object must not surface as a fatal error") {
            ListingItem::Object(_) => counts.0 += 1,
            ListingItem::Skipped(s) => {
                assert_eq!(s.handle, ObjectHandle(2));
                counts.1 += 1;
            }
        }
    }
    assert_eq!(counts, (2, 1));

    let restored = vec![Ok(object(1, "a.txt", false)), Ok(object(2, "b.txt", false)), Ok(object(3, "c.txt", false))];
    assert_eq!(collect_objects(restored).unwrap().objects.len(), 3);
}

#[test]
fn a_folder_of_undescribable_objects_is_an_error_not_an_empty_folder() {
    let err = collect_objects(vec![Err(skipped(1)), Err(skipped(2))]).unwrap_err();
    assert!(matches!(err, Error::Other { ref detail } if detail == "GeneralError"));
    let empty = collect_objects(Vec::new()).unwrap();
    assert!(empty.objects.is_empty() && empty.skipped.is_empty());
}

#[test]
fn a_fatal_item_ends_a_collection() {
    let items = vec![
        Ok(object(1, "a", false)),
        Err(BackendListingError::fatal(ObjectHandle(2), Error::Timeout)),
        Ok(object(3, "c", false)),
    ];
    assert!(matches!(collect_objects(items), Err(Error::Timeout)));
    let mut step = ObjectCollection::new();
    assert!(step.take(Err(skipped(1))).is_ok());
    assert!(matches!(
        step.take(Err(BackendListingError::fatal(ObjectHandle(2), Error::Busy))),
        Err(Error::Busy)
    ));
}

#[test]
fn a_listing_counts_every_item_it_yields() {
    let mut listing = ObjectListing::new(4);
    assert_eq!((listing.total(), listing.fetched()), (4, 0));
    match listing.next(Some(Ok(object(1, "a", false)))) {
        Some(Ok(item)) => assert_eq!(item.object().unwrap().filename, "a"),
        other => panic!("{other:?}"),
    }
    assert_eq!(listing.fetched(), 1);
    match listing.next(Some(Err(skipped(2)))) {
        Some(Ok(ListingItem::Skipped(s))) => assert_eq!(s.handle, ObjectHandle(2)),
        other => panic!("{other:?}"),
    }
    assert_eq!(listing.fetched(), 2);
    assert!(matches!(
        listing.next(Some(Err(BackendListingError::fatal(ObjectHandle(3), Error::Timeout)))),
        Some(Err(Error::Timeout))
    ));
    assert!(listing.next(None).is_none());
    assert_eq!((listing.total(), listing.fetched()), (4, 2));
}

#[test]
fn a_recursive_walk_lists_every_folder_once() {
    let mut walk = RecursiveWalk::new(None);
    let mut listed = Vec::new();
    while let Some(folder) = walk.next() {
        listed.push(folder);
        walk.take(Ok(match folder {
            None => vec![object(1, "A", true), object(2, "x", false), object(3, "B", true)],
            Some(ObjectHandle(1)) => vec![object(4, "C", true)],
            Some(ObjectHandle(3)) => vec![object(5, "y", false)],
            _ => vec![object(6, "z", false)],
        }))
        .unwrap();
    }
    assert_eq!(listed.len(), 4);
    for folder in [None, Some(ObjectHandle(1)), Some(ObjectHandle(3)), Some(ObjectHandle(4))] {
        assert_eq!(listed.iter().filter(|f| **f == folder).count(), 1);
    }
    let found: Vec<u64> = walk.finish().into_iter().map(|o| o.handle.0).collect();
    let place = |handle: u64| found.iter().position(|h| *h == handle).unwrap();
    let mut sorted = found.clone();
    sorted.sort();
    assert_eq!(sorted, [1, 2, 3, 4, 5, 6]);
    assert!(place(1) < place(4) && place(4) < place(6) && place(3) < place(5));
}

#[test]
fn a_failed_listing_fails_the_recursive_walk() {
    let mut walk = RecursiveWalk::new(Some(ObjectHandle(9)));
    assert_eq!(walk.next(), Some(Some(ObjectHandle(9))));
    walk.take(Ok(vec![object(1, "A", true)])).unwrap();
    assert_eq!(walk.next(), Some(Some(ObjectHandle(1))));
    assert!(matches!(walk.take(Err(Error::AccessDenied)), Err(Error::AccessDenied)));
    assert_eq!(walk.finish().len(), 1);
}

fn item(info: ObjectInfo) -> ListingItem {
    ListingItem::Object(info)
}

#[test]
fn a_traversal_goes_breadth_first_and_counts_what_it_saw() {
    let mut traversal = Traversal::new();
    assert_eq!(traversal.next(), Some(None));
    assert!(traversal.take(item(object(1, "A", true))));
    assert!(traversal.take(item(object(2, "x", false))));
    assert!(traversal.take(item(object(3, "B", true))));
    assert_eq!(traversal.next(), Some(Some(ObjectHandle(1))));
    assert!(traversal.take(item(object(4, "C", true))));
    assert_eq!(traversal.next(), Some(Some(ObjectHandle(3))));
    assert_eq!(traversal.summary(), "Recursive traversal saw: 3 folders, 1 files, 4 total");
    let unread = SkippedObject { handle: ObjectHandle(5), error: Error::Busy };
    assert!(traversal.take(ListingItem::Skipped(unread)));
    assert_eq!(traversal.next(), Some(Some(ObjectHandle(4))));
    assert_eq!(traversal.next(), None);
    assert_eq!(
        traversal.summary(),
        "Recursive traversal saw: 3 folders, 1 files, 4 total, 1 unreadable"
    );
}

#[test]
fn a_traversal_stops_at_its_bound() {
    let mut traversal = Traversal::new();
    assert_eq!(traversal.next(), Some(None));
    assert!(traversal.take(item(object(1, "A", true))));
    for i in 2..MAX_OBJECTS as u64 {
        assert!(traversal.take(item(object(i, "f", false))));
    }
    assert!(!traversal.take(item(object(900, "last", false))));
    assert_eq!(traversal.next(), None);
    assert_eq!(
        traversal.summary(),
        "Recursive traversal saw: 1 folders, 199 files, 200 total (stopped at cap, more exist)"
    );
}

fn read_windows(content: &[u8], window: u32, range: ByteRange, caps: &[usize]) -> Vec<Vec<u8>> {
    let size = content.len() as u64;
    let mut download = WindowedDownload::start(ObjectHandle(1), range, window, size).unwrap();
    let mut caps = caps.iter();
    let mut out = Vec::new();
    while let Some(len) = download.next_len() {
        let at = download.offset() as usize;
        let len = (len as usize).min(*caps.next().unwrap_or(&usize::MAX));
        out.push(content[at..at + len].to_vec());
        download.advance(len as u64).unwrap();
        assert_eq!(download.offset() as usize, at + len);
    }
    assert_eq!(download.size(), size);
    out
}

fn pattern(len: u32, modulus: u32) -> Vec<u8> {
    (0..len).map(|i| (i % modulus) as u8).collect()
}

#[test]
fn windowed_download_reassembles_to_full_file() {
    let content = pattern(5000, 256);
    assert_eq!(read_windows(&content, 1024, ByteRange::Full, &[]).concat(), content);
    for window in [1, 7, 100, 5000, 6000] {
        assert_eq!(read_windows(&content, window, ByteRange::Full, &[]).concat(), content);
    }
}

#[test]
fn windowed_download_default_window_matches_full() {
    let content = pattern(20_000, 251);
    let windows = read_windows(&content, DEFAULT_DOWNLOAD_WINDOW, ByteRange::Full, &[]);
    assert_eq!(windows, vec![content]);
}

#[test]
fn windowed_download_offset_zero_is_whole_file() {
    let content = pattern(3333, 251);
    assert_eq!(read_windows(&content, 256, ByteRange::From(0), &[]).concat(), content);
}

#[test]
fn windowed_download_short_mid_file_read_advances_correctly() {
    let content = pattern(2000, 256);
    let windows = read_windows(&content, 512, ByteRange::Full, &[100, 50]);
    assert_eq!((windows[0].len(), windows[1].len()), (100, 50));
    assert_eq!(windows.concat(), content);
}

#[test]
fn windowed_download_from_offset_returns_correct_tail() {
    let content = pattern(5000, 256);
    for offset in [0u64, 1, 100, 2500, 4999] {
        let download =
            WindowedDownload::start(ObjectHandle(1), ByteRange::From(offset), 512, 5000).unwrap();
        assert_eq!(download.size(), 5000);
        assert_eq!(download.offset(), offset);
        let got = read_windows(&content, 512, ByteRange::From(offset), &[]).concat();
        assert_eq!(got, content[offset as usize..]);
    }
}

#[test]
fn a_windowed_download_stops_at_the_end_of_a_bounded_range() {
    let content = pattern(300, 251);
    let range = ByteRange::Range { offset: 10, len: 100 };
    let windows = read_windows(&content, 64, range, &[]);
    assert_eq!((windows[0].len(), windows[1].len(), windows.len()), (64, 36, 2));
    assert_eq!(windows.concat(), content[10..110]);

    let first = read_windows(&[7, 8], 1, ByteRange::Range { offset: 0, len: 1 }, &[]);
    assert_eq!(first, vec![vec![7]]);

    let clamped = ByteRange::Range { offset: 250, len: u64::MAX };
    assert_eq!(read_windows(&content, 64, clamped, &[]).concat(), content[250..]);
    let empty = ByteRange::Range { offset: 250, len: 0 };
    assert!(read_windows(&content, 64, empty, &[]).is_empty());
    let past = ByteRange::Range { offset: 301, len: 1 };
    assert!(WindowedDownload::start(ObjectHandle(1), past, 64, 300).is_err());
}

#[test]
fn windowed_download_at_size_first_window_is_none() {
    let size = b"exactly this many bytes".len() as u64;
    let download = WindowedDownload::start(ObjectHandle(1), ByteRange::From(size), 64, size).unwrap();
    assert_eq!(download.next_len(), None);
}

#[test]
fn windowed_download_empty_file_first_window_none() {
    let download = WindowedDownload::start(ObjectHandle(1), ByteRange::Full, 64, 0).unwrap();
    assert_eq!(download.next_len(), None);
}

#[test]
fn windowed_download_past_size_errors() {
    let size = b"small".len() as u64;
    match WindowedDownload::start(ObjectHandle(1), ByteRange::From(size + 1), 64, size) {
        Err(Error::InvalidData { message }) => {
            assert_eq!(message, "windowed download offset 6 is past the object size 5");
        }
        other => panic!("{other:?}"),
    }
}

#[test]
fn windowed_download_short_final_window_exact_total() {
    let content = pattern(1000, 256);
    let sizes: Vec<usize> =
        read_windows(&content, 256, ByteRange::Full, &[]).iter().map(|w| w.len()).collect();
    assert_eq!(sizes.iter().sum::<usize>(), 1000);
    assert_eq!(sizes, vec![256, 256, 256, 232]);
}

#[test]
fn windowed_download_zero_bytes_before_eof_errors() {
    let mut download = WindowedDownload::start(ObjectHandle(1), ByteRange::Full, 512, 2000).unwrap();
    assert_eq!(download.next_len(), Some(512));
    download.advance(512).unwrap();
    assert_eq!(download.next_len(), Some(512));
    match download.advance(0) {
        Err(Error::InvalidData { message }) => assert_eq!(
            message,
            "windowed download stalled: the device returned no data at offset 512 of 2000"
        ),
        other => panic!("{other:?}"),
    }
    assert_eq!(download.offset(), 512);
}

#[test]
fn a_window_asks_for_at_least_one_byte() {
    let download = WindowedDownload::start(ObjectHandle(1), ByteRange::Full, 0, 10).unwrap();
    assert_eq!(download.next_len(), Some(1));
    assert_eq!(DEFAULT_DOWNLOAD_WINDOW, 8 * 1024 * 1024);
}

fn info(free_space: u64) -> StorageInfo {
    StorageInfo {
        id: StorageId(0x10001),
        description: "Internal".to_string(),
        total_capacity: 100,
        free_space,
        is_writable: true,
    }
}

#[test]
fn a_storage_keeps_its_information_until_it_is_refreshed() {
    let mut storage = Storage::new(StorageId(0x10001), info(50));
    assert_eq!(storage.id(), StorageId(0x10001));
    assert!(matches!(storage.refresh(Err(Error::Timeout)), Err(Error::Timeout)));
    assert_eq!(storage.info().free_space, 50);
    storage.refresh(Ok(info(20))).unwrap();
    assert_eq!(storage.info().free_space, 20);
    assert_eq!(storage.destination(None), StorageId(0x10001));
    assert_eq!(storage.destination(Some(StorageId(2))), StorageId(2));
}

#[test]
fn neutral_identifiers_keep_the_wire_identifiers() {
    assert_eq!(ObjectHandle::from_ptp(PtpHandle(0xFFFF_FFFF)).to_ptp(), PtpHandle(0xFFFF_FFFF));
    assert_eq!(StorageId::from_ptp(PtpStorageId(0x10001)).to_ptp(), PtpStorageId(0x10001));
    assert!(object(1, "d", true).is_folder() && !object(1, "d", true).is_file());
    assert!(object(1, "f", false).is_file());
}
