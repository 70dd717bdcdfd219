use mtp_rs::cli::args::{parse_u16_hex, parse_u64_hex_or_dec, parse_vid_pid};
use mtp_rs::cli::commands::folder_plan::count;
use mtp_rs::cli::commands::local_names::{
    find_collision, find_repeat, local_name_problem, LocalKey, LocalPath, PlanEntry,
};
use mtp_rs::cli::commands::probe::{
    explicit_target, folder_priority, probe_cancelled, probe_not_started, probe_skipped,
    CancelAction, CancelEvent, CancelProbe, ProbePick, ProbeSearch, ProbeTarget,
};
use mtp_rs::cli::test_device::{split_list, test_device_config};
use mtp_rs::mtp::error::Error;
use mtp_rs::mtp::types::{ObjectHandle, ObjectInfo, StorageId};
use std::time::Duration;

#[test]
fn known_vid_pid_accepts_hex_pair() {
    assert_eq!(parse_vid_pid("091e:0003").unwrap(), (0x091e, 0x0003));
    assert_eq!(parse_vid_pid("0x091e:0x0003").unwrap(), (0x091e, 0x0003));
}

#[test]
fn known_vid_pid_rejects_malformed_input() {
    assert!(parse_vid_pid("091e").is_err());
    assert!(parse_vid_pid("nope:0003").is_err());
}

#[test]
fn location_parser_accepts_decimal_and_hex() {
    assert_eq!(parse_u64_hex_or_dec("42").unwrap(), 42);
    assert_eq!(parse_u64_hex_or_dec("0x2a").unwrap(), 42);
    assert_eq!(parse_u64_hex_or_dec("2a").unwrap(), 42);
}

#[test]
fn hexadecimal_locations_read_back_in_either_case() {
    for text in ["0xBEEF", "0Xbeef", "0XBeEf", "beEF"] {
        assert_eq!(parse_u64_hex_or_dec(text).unwrap(), 0xbeef);
    }
    assert_eq!(parse_u64_hex_or_dec("0XFFFFFFFFFFFFFFFF").unwrap(), u64::MAX);
    assert_eq!(parse_u64_hex_or_dec("18446744073709551615").unwrap(), u64::MAX);
}

#[test]
fn the_earliest_of_equally_large_files_is_kept() {
    let mut pick = ProbePick::default();
    for (handle, size) in [(1, 10), (2, 30), (3, 30), (4, 20)] {
        let path = format!("/{handle}");
        assert!(!pick.offer(ProbeTarget { handle: ObjectHandle(handle), path, size }));
    }
    assert_eq!(pick.best.unwrap().handle, ObjectHandle(2));
}

#[test]
fn vid_pid_is_bounded_and_either_half_is_checked() {
    assert_eq!(parse_vid_pid("ffff:FFFF").unwrap(), (0xffff, 0xffff));
    assert!(parse_vid_pid("10000:0003").is_err());
    assert!(parse_vid_pid("0003:10000").is_err());
    assert!(parse_vid_pid("0003:").is_err());
    assert!(parse_vid_pid(":0003").is_err());
    assert!(parse_vid_pid("1:2:3").is_err());
    assert_eq!(parse_u16_hex("0Xab").unwrap(), 0xab);
    assert!(parse_u16_hex("").is_err());
}

#[test]
fn locations_read_back_in_decimal_and_in_hex() {
    for n in [0u64, 9, 10, 42, 0xFFFF_0000_0000_0000, u64::MAX] {
        assert_eq!(parse_u64_hex_or_dec(&format!("{n}")).unwrap(), n);
        assert_eq!(parse_u64_hex_or_dec(&format!("0x{n:x}")).unwrap(), n);
    }
    assert!(parse_u64_hex_or_dec("18446744073709551616").is_err());
    assert!(parse_u64_hex_or_dec("0x10000000000000000").is_err());
    assert!(parse_u64_hex_or_dec("somewhere").is_err());
    assert!(parse_u64_hex_or_dec("").is_err());
}

fn target(size: u64) -> ProbeTarget {
    ProbeTarget { handle: ObjectHandle(1), path: format!("/f{size}"), size }
}

#[test]
fn a_mid_size_file_ends_the_search() {
    let mut pick = ProbePick::default();
    assert!(pick.offer(target(200_000)));
    assert_eq!(pick.best.unwrap().size, 200_000);
}

#[test]
fn a_tiny_file_is_kept_rather_than_skipped() {
    let mut pick = ProbePick::default();
    assert!(!pick.offer(target(36)));
    assert_eq!(pick.best.unwrap().size, 36);
}

#[test]
fn outside_the_band_the_largest_file_wins() {
    let mut pick = ProbePick::default();
    assert!(!pick.offer(target(36)));
    assert!(!pick.offer(target(4_000)));
    assert!(!pick.offer(target(500)));
    assert_eq!(pick.best.unwrap().size, 4_000);
}

#[test]
fn a_mid_size_file_beats_a_bigger_out_of_band_one() {
    let mut pick = ProbePick::default();
    assert!(!pick.offer(target(900_000_000)));
    assert!(pick.offer(target(150_000)));
    assert_eq!(pick.best.unwrap().size, 150_000);
}

#[test]
fn user_folders_are_visited_before_the_android_tree() {
    let mut names = vec!["Android", "Notifications", "DCIM", "Music"];
    names.sort_by_key(|name| folder_priority(name));
    assert_eq!(names, vec!["DCIM", "Music", "Notifications", "Android"]);
}

#[test]
fn the_preferred_band_holds_both_of_its_ends() {
    for size in [100_000u64, 10_000_000] {
        assert!(ProbePick::default().offer(target(size)));
    }
    for size in [99_999u64, 10_000_001] {
        assert!(!ProbePick::default().offer(target(size)));
    }
}

fn object(handle: u64, name: &str, folder: bool, size: u64) -> ObjectInfo {
    ObjectInfo {
        handle: ObjectHandle(handle),
        storage_id: StorageId(0x10001),
        parent: ObjectHandle(0),
        format: if folder { 0x3001 } else { 0x3000 },
        size,
        filename: name.to_string(),
    }
}

#[test]
fn a_probe_search_goes_into_user_folders_first() {
    let mut search = ProbeSearch::new();
    let root = search.next().unwrap();
    assert_eq!(root.parent, None);
    assert_eq!(root.depth, 0);
    let listing = vec![
        object(1, "Android", true, 0),
        object(2, "Notifications", true, 0),
        object(3, "DCIM", true, 0),
        object(4, "note.txt", false, 12),
    ];
    assert!(search.take(root, Ok(listing)).is_none());
    let first = search.next().unwrap();
    assert_eq!(first.parent, Some(ObjectHandle(3)));
    assert_eq!(first.prefix, "/DCIM");
    let found = search.take(first, Ok(vec![object(5, "a.jpg", false, 500_000)])).unwrap().unwrap();
    assert_eq!(found.path, "/DCIM/a.jpg");
    assert_eq!(found.handle, ObjectHandle(5));
    assert_eq!(found.size, 500_000);
}

#[test]
fn a_probe_search_passes_over_a_subfolder_but_not_over_the_root() {
    let mut search = ProbeSearch::new();
    let root = search.next().unwrap();
    let failed = search.take(root, Err(Error::AccessDenied)).unwrap().unwrap_err();
    assert_eq!(failed, format!("could not list storage root: {}", Error::AccessDenied.describe()));

    let mut search = ProbeSearch::new();
    let root = search.next().unwrap();
    assert!(search.take(root, Ok(vec![object(1, "A", true, 0), object(2, "t", false, 7)])).is_none());
    let sub = search.next().unwrap();
    assert!(search.take(sub, Err(Error::Busy)).is_none());
    assert!(search.next().is_none());
    assert_eq!(search.finish().unwrap().size, 7);
}

#[test]
fn a_probe_search_without_files_says_what_it_covered() {
    let mut search = ProbeSearch::new();
    let mut listed = 0;
    while let Some(folder) = search.next() {
        listed += 1;
        let next = object(listed, "Deep", true, 0);
        assert!(search.take(folder, Ok(vec![next])).is_none());
    }
    assert_eq!(listed, 4);
    assert_eq!(
        search.finish().unwrap_err(),
        "found no file to probe in 4 folder(s), searching up to 3 levels below the storage root. \
         Pass --probe-path /some/file to point the probe at one"
    );
}

#[test]
fn a_probe_search_lists_a_bounded_number_of_folders() {
    let mut search = ProbeSearch::new();
    let root = search.next().unwrap();
    let many: Vec<ObjectInfo> = (0..100).map(|i| object(i + 1, &format!("d{i}"), true, 0)).collect();
    assert!(search.take(root, Ok(many)).is_none());
    let mut listed = 1;
    while let Some(folder) = search.next() {
        listed += 1;
        assert!(search.take(folder, Ok(Vec::new())).is_none());
    }
    assert_eq!(listed, 48);
}

#[test]
fn a_probe_path_must_name_a_file() {
    let found = explicit_target("/a.bin", &object(9, "a.bin", false, 3)).unwrap();
    assert_eq!((found.handle, found.path.as_str(), found.size), (ObjectHandle(9), "/a.bin", 3));
    assert_eq!(
        explicit_target("/DCIM", &object(9, "DCIM", true, 0)).unwrap_err(),
        "--probe-path /DCIM is not a file"
    );
}

#[test]
fn a_cancel_probe_tells_healthy_from_wedged_from_failed() {
    let t = target(36);
    let healthy = probe_cancelled(&t, Ok(()));
    assert_eq!(healthy.outcome, "healthy");
    assert_eq!(healthy.detail, "cancelled '/f36' (36 bytes); session survived");
    let wedged = probe_cancelled(&t, Err(Error::DeviceReset));
    assert_eq!(wedged.outcome, "wedged_recovered");
    assert!(wedged.detail.starts_with("cancel wedged the device on '/f36' (36 bytes);"));
    let failed = probe_cancelled(&t, Err(Error::Timeout));
    assert_eq!(failed.outcome, "errored");
    assert_eq!(failed.detail, format!("cancel returned an error: {}", Error::Timeout.describe()));
    let not_started = probe_not_started(&t, &Error::Busy);
    assert_eq!(not_started.outcome, "errored");
    assert_eq!(
        not_started.detail,
        format!("could not start download of '/f36': {}", Error::Busy.describe())
    );
    let skipped = probe_skipped("why".to_string());
    assert_eq!((skipped.outcome, skipped.detail.as_str()), ("skipped", "why"));
}

#[test]
fn a_cancel_probe_cancels_what_it_started() {
    let mut probe = CancelProbe::new(None);
    assert!(matches!(probe.action, CancelAction::Search));
    probe.step(CancelEvent::Found(Ok(target(36))));
    assert!(matches!(&probe.action, CancelAction::StartDownload(t) if t.size == 36));
    probe.step(CancelEvent::Started(Ok(())));
    assert!(matches!(&probe.action, CancelAction::ReadChunk(_)));
    probe.step(CancelEvent::ChunkRead);
    assert!(matches!(&probe.action, CancelAction::Cancel(_)));
    probe.step(CancelEvent::Cancelled(Err(Error::DeviceReset)));
    assert_eq!(probe.finish().unwrap().outcome, "wedged_recovered");

    let mut probe = CancelProbe::new(None);
    probe.step(CancelEvent::Found(Err("none".to_string())));
    let row = probe.finish().unwrap();
    assert_eq!((row.outcome, row.detail.as_str()), ("skipped", "none"));

    let mut probe = CancelProbe::new(None);
    probe.step(CancelEvent::Found(Ok(target(36))));
    probe.step(CancelEvent::Started(Err(Error::Busy)));
    assert_eq!(probe.finish().unwrap().outcome, "errored");
    assert!(CancelProbe::new(None).finish().is_none());
}

#[test]
fn a_named_path_is_probed_and_nothing_is_searched() {
    let path = "/Pictures/pinned.bin";
    let object = |format: u16| ObjectInfo {
        handle: ObjectHandle(12),
        storage_id: StorageId(0x10001),
        parent: ObjectHandle(3),
        format,
        size: 4_096,
        filename: "pinned.bin".to_string(),
    };
    let mut probe = CancelProbe::new(Some(path.to_string()));
    assert!(matches!(&probe.action, CancelAction::ResolvePath(p) if p == path));
    probe.step(CancelEvent::Resolved(Ok(object(0x3000))));
    match &probe.action {
        CancelAction::StartDownload(t) => {
            assert_eq!((t.handle, t.path.as_str(), t.size), (ObjectHandle(12), path, 4_096));
        }
        other => panic!("{other:?}"),
    }
    probe.step(CancelEvent::Started(Ok(())));
    probe.step(CancelEvent::ChunkRead);
    probe.step(CancelEvent::Cancelled(Ok(())));
    let row = probe.finish().unwrap();
    assert_eq!(row.outcome, "healthy");
    assert!(row.detail.contains(path));

    let mut probe = CancelProbe::new(Some(path.to_string()));
    probe.step(CancelEvent::Resolved(Ok(object(0x3001))));
    let row = probe.finish().unwrap();
    assert_eq!(row.outcome, "skipped");
    assert_eq!(row.detail, "--probe-path /Pictures/pinned.bin is not a file");

    let missing = "remote path not found: /Download/nope.bin";
    let mut probe = CancelProbe::new(Some("/Download/nope.bin".to_string()));
    probe.step(CancelEvent::Resolved(Err(missing.to_string())));
    let row = probe.finish().unwrap();
    assert_eq!((row.outcome, row.detail.as_str()), ("skipped", missing));
}

#[test]
fn names_that_are_paths_are_refused_everywhere() {
    for windows in [false, true] {
        for name in ["", ".", "..", "a/b", "a\\b", "a\0b"] {
            assert!(
                local_name_problem(name, windows).is_some(),
                "{name:?} should be refused (windows: {windows})"
            );
        }
    }
}

#[test]
fn names_windows_cannot_store_are_refused_only_there() {
    for name in [
        "a:b",
        "what?",
        "star*",
        "pipe|",
        "quote\"",
        "<tag>",
        "tab\tname",
        "trailing.",
        "trailing ",
        "CON",
        "con.txt",
        "LPT1",
        "COM¹.log",
        "nul",
    ] {
        assert!(
            local_name_problem(name, true).is_some(),
            "{name:?} should be refused on Windows"
        );
        assert_eq!(local_name_problem(name, false), None, "{name:?} is fine elsewhere");
    }
}

#[test]
fn ordinary_names_pass_everywhere() {
    for windows in [false, true] {
        for name in [
            "IMG_0001.jpg",
            ".hidden",
            "Screenshot 2026-09-12 at 23.20.png",
            "résumé.pdf",
            "CONSOLE.txt",
            "com10",
        ] {
            assert_eq!(local_name_problem(name, windows), None, "{name:?} (windows: {windows})");
        }
    }
}

#[test]
fn a_refused_name_says_why() {
    assert_eq!(local_name_problem("", false), Some("empty"));
    assert_eq!(local_name_problem("..", false), Some("`.` and `..` aren't names"));
    assert_eq!(local_name_problem("a/b", true), Some("contains a path separator"));
    assert_eq!(local_name_problem("a\0b", false), Some("contains a null byte"));
    assert_eq!(local_name_problem("a:b", true), Some("contains a character Windows doesn't allow"));
    assert_eq!(
        local_name_problem("a.", true),
        Some("ends with a dot or space, which Windows drops")
    );
    assert_eq!(local_name_problem("lpt9.tar.gz", true), Some("a reserved device name on Windows"));
    assert_eq!(local_name_problem("COM", true), None);
    assert_eq!(local_name_problem("COM1x", true), None);
}

fn path(components: &[&str]) -> LocalPath {
    LocalPath { components: components.iter().map(|c| c.to_string()).collect() }
}

fn entry(remote: &str, local: &[&str]) -> PlanEntry {
    PlanEntry { remote_path: remote.to_string(), local_path: path(local) }
}

#[test]
fn names_differing_only_in_case_collide_only_when_case_is_ignored() {
    let entries = vec![
        entry("/DCIM/IMG.jpg", &["out", "IMG.jpg"]),
        entry("/DCIM/img.JPG", &["out", "img.JPG"]),
    ];
    assert_eq!(find_collision(&entries, false), None);
    assert_eq!(find_collision(&entries, true), Some(("/DCIM/IMG.jpg", "/DCIM/img.JPG")));
}

#[test]
fn a_repeated_name_collides_even_when_case_matters() {
    let entries = vec![
        entry("/DCIM/a.jpg", &["out", "a.jpg"]),
        entry("/DCIM/a.jpg", &["out", "a.jpg"]),
    ];
    assert_eq!(find_collision(&entries, false), Some(("/DCIM/a.jpg", "/DCIM/a.jpg")));
}

#[test]
fn the_same_name_in_different_folders_does_not_collide() {
    let entries = vec![
        entry("/A/x.jpg", &["out", "A", "x.jpg"]),
        entry("/B/X.jpg", &["out", "B", "X.jpg"]),
    ];
    assert_eq!(find_collision(&entries, true), None);
}

#[test]
fn the_first_two_that_collide_are_named() {
    let entries = vec![
        entry("/1", &["a"]),
        entry("/2", &["b"]),
        entry("/3", &["B"]),
        entry("/4", &["A"]),
    ];
    assert_eq!(find_collision(&entries, true), Some(("/2", "/3")));
    let entries = vec![entry("/1", &["RÉSUMÉ"]), entry("/2", &["résumé"])];
    assert_eq!(find_collision(&entries, true), Some(("/1", "/2")));
    assert_eq!(find_collision(&entries, false), None);
}

#[test]
fn keys_repeat_where_folder_and_name_do() {
    let key = |parent: &[&str], name: &str| LocalKey { parent: path(parent), name: name.to_string() };
    assert_eq!(find_repeat(&vec![key(&["a"], "x"), key(&["b"], "x"), key(&["a"], "x")]), Some((0, 2)));
    assert_eq!(find_repeat(&vec![key(&["a"], "x"), key(&["b"], "x")]), None);
}

#[test]
fn local_paths_join_and_part() {
    let p = path(&["DCIM"]).join("a.jpg");
    assert_eq!(p.components, vec!["DCIM", "a.jpg"]);
    assert!(p.parent().same_as(&path(&["DCIM"])));
    assert!(!p.same_as(&path(&["DCIM"])));
    assert!(!p.same_as(&path(&["DCIM", "b.jpg"])));
}

#[test]
fn counts_take_the_plural_except_for_one() {
    assert_eq!(count(0, "file"), "0 files");
    assert_eq!(count(1, "file"), "1 file");
    assert_eq!(count(12, "folder"), "12 folders");
}

#[test]
fn the_test_device_takes_its_identity_from_its_arguments() {
    let config = test_device_config("/tmp/x", None, None);
    assert_eq!(config.manufacturer, "TestCorp");
    assert_eq!(config.model, "CLI Test Device");
    assert_eq!(config.serial, "mtp-rs-cli-test");
    assert_eq!(config.storages.len(), 1);
    assert_eq!(config.storages[0].description, "Internal Storage");
    assert_eq!(config.storages[0].capacity, 64 * 1024 * 1024);
    assert_eq!(config.storages[0].backing_dir, "/tmp/x");
    assert!(!config.storages[0].read_only);
    assert_eq!(config.event_poll_interval, Duration::ZERO);
    assert!(!config.watch_backing_dirs);
    assert!(config.supports_rename);
    assert!(config.undescribable_objects.is_empty());
    let config = test_device_config("/tmp/x", Some("S1"), Some("a.txt, b/c.txt"));
    assert_eq!(config.serial, "S1");
    assert_eq!(config.undescribable_objects, vec!["a.txt", "b/c.txt"]);
}

#[test]
fn lists_are_split_at_commas_and_trimmed() {
    assert_eq!(split_list(""), Vec::<String>::new());
    assert_eq!(split_list(" , ,\t,"), Vec::<String>::new());
    assert_eq!(split_list("a"), vec!["a"]);
    assert_eq!(split_list(" a b ,,\u{3000}é\u{a0}, z"), vec!["a b", "é", "z"]);
}
