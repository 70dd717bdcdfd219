//! What users of the commands can rely on, stated of whole runs and of the calls themselves.

use vstd::prelude::*;

use crate::cli::commands::folder_download;
use crate::cli::commands::folder_download::{FolderActionView, FolderEventView};
use crate::cli::commands::folder_plan;
use crate::cli::commands::folder_plan::{FolderPlan, FolderPlanView, PendingFolderView};
use crate::cli::commands::get;
use crate::cli::commands::get::{Destination, FileActionView, FileEventView, LocalFailure};
use crate::cli::commands::local_names;
use crate::cli::commands::reset::ResetRow;
use crate::cli::error::{CliError, CliErrorView};
use crate::mtp::error::ErrorView;
use crate::mtp::types::{ObjectInfo, ObjectInfoView};
use crate::outside;
use crate::search;
use crate::text;

verus! {

/// Whether an event says that the temporary file was made.
pub open spec fn temp_made(event: FileEventView) -> bool {
    event matches FileEventView::TempCreated(Ok(_))
}

/// Whether an event says that the download started.
pub open spec fn was_started(event: FileEventView) -> bool {
    event matches FileEventView::Started(Ok(_))
}

/// Whether an event says that a chunk came.
pub open spec fn chunk_came(event: FileEventView) -> bool {
    event matches FileEventView::Chunk(Ok(_))
}

/// Whether an event says that a chunk was written.
pub open spec fn was_written(event: FileEventView) -> bool {
    event matches FileEventView::Written(Ok(_))
}

/// Whether an event says that the file was flushed.
pub open spec fn was_flushed(event: FileEventView) -> bool {
    event matches FileEventView::Flushed(Ok(_))
}

/// Whether an event says that what stood at the destination was removed.
pub open spec fn was_removed(event: FileEventView) -> bool {
    event matches FileEventView::Removed(Ok(_))
}

/// Whether an event says that the file was renamed into place.
pub open spec fn was_renamed(event: FileEventView) -> bool {
    event matches FileEventView::Renamed(Ok(_))
}

/// Whether the first `n` events are those of a download that stands between two chunks: the temporary file was
/// made, the download started, and every chunk that came was written.
pub open spec fn between_chunks(events: Seq<FileEventView>, n: int) -> bool {
    &&& 2 <= n <= events.len()
    &&& n % 2 == 0
    &&& temp_made(events[0])
    &&& was_started(events[1])
    &&& forall|i: int|
        2 <= i < n ==> (if i % 2 == 0 {
            chunk_came(#[trigger] events[i])
        } else {
            was_written(events[i])
        })
}

/// Whether the events are those of a download of which so many bytes are received: all chunks were written, and
/// the device had no more.
pub open spec fn all_received(events: Seq<FileEventView>, n: int, bytes: u64) -> bool {
    &&& between_chunks(events, n)
    &&& n < events.len()
    &&& events[n] == (FileEventView::Ended { bytes })
}

/// A file is flushed, and its destination touched, only after the last chunk: every chunk that came was written
/// before the next one was asked for, the device said that it had no more, and what is reported is the number of
/// bytes it then gave. A destination is removed only where one is replaced, after the flush, and renaming comes
/// last.
pub proof fn law_a_file_lands_only_when_it_is_complete(
    remote_path: Seq<char>,
    replaces: bool,
    events: Seq<FileEventView>,
)
    requires
        get::is_file_run(get::fresh_download(remote_path, replaces), events),
    ensures
        ({
            let d = get::file_run(get::fresh_download(remote_path, replaces), events);
            let len = events.len() as int;
            &&& d.replaces == replaces
            &&& d.action is CreateTemp ==> len == 0
            &&& d.action is StartDownload ==> len == 1 && temp_made(events[0])
            &&& d.action is NextChunk ==> between_chunks(events, len)
            &&& d.action is WriteChunk ==> between_chunks(events, len - 1) && chunk_came(events[len - 1])
            &&& d.action is Flush ==> all_received(events, len - 1, d.bytes)
            &&& d.action is RemoveDestination ==> replaces && all_received(events, len - 2, d.bytes)
                && was_flushed(events[len - 1])
            &&& d.action is RenameTemp && !replaces ==> all_received(events, len - 2, d.bytes)
                && was_flushed(events[len - 1])
            &&& d.action is RenameTemp && replaces ==> all_received(events, len - 3, d.bytes)
                && was_flushed(events[len - 2]) && was_removed(events[len - 1])
            &&& d.action matches FileActionView::Done { bytes } ==> {
                &&& was_renamed(events[len - 1])
                &&& replaces ==> all_received(events, len - 4, bytes) && was_flushed(events[len - 3]) && was_removed(events[len - 2])
                &&& !replaces ==> all_received(events, len - 3, bytes) && was_flushed(events[len - 2])
            }
        }),
    decreases events.len(),
{
    if events.len() > 0 {
        let front = events.drop_last();
        law_a_file_lands_only_when_it_is_complete(remote_path, replaces, front);
        assert(forall|i: int| 0 <= i < front.len() ==> #[trigger] events[i] == front[i]);
        let before = get::file_run(get::fresh_download(remote_path, replaces), front);
        let last = events[events.len() - 1];
        assert(events.last() == last);
        let n = front.len() as int;
        let now = get::file_run(get::fresh_download(remote_path, replaces), events);
        assert(now == get::file_step(before, last));
        match before.action {
            FileActionView::NextChunk => {
                assert(between_chunks(events, n));
            },
            FileActionView::WriteChunk => {
                assert(between_chunks(events, n - 1));
                if was_written(last) {
                    assert forall|i: int| 2 <= i < n + 1 implies (if i % 2 == 0 {
                        chunk_came(#[trigger] events[i])
                    } else {
                        was_written(events[i])
                    }) by {
                        if i < n - 1 {
                            assert(events[i] == front[i]);
                        }
                    }
                    assert(between_chunks(events, n + 1));
                }
            },
            FileActionView::Flush => {
                assert(between_chunks(events, n - 1));
                assert(all_received(events, n - 1, before.bytes));
            },
            FileActionView::RemoveDestination => {
                assert(between_chunks(events, n - 2));
                assert(all_received(events, n - 2, before.bytes));
            },
            FileActionView::RenameTemp => {
                if replaces {
                    assert(between_chunks(events, n - 3));
                    assert(all_received(events, n - 3, before.bytes));
                } else {
                    assert(between_chunks(events, n - 2));
                    assert(all_received(events, n - 2, before.bytes));
                }
            },
            _ => {},
        }
    }
}

/// A download that goes on asks for the next chunk.
proof fn lemma_chunks_go_on(remote_path: Seq<char>, replaces: bool, events: Seq<FileEventView>, n: int)
    requires
        between_chunks(events, n),
    ensures
        ({
            let start = get::fresh_download(remote_path, replaces);
            &&& get::is_file_run(start, events.take(n))
            &&& get::file_run(start, events.take(n)).action is NextChunk
            &&& get::file_run(start, events.take(n)).replaces == replaces
        }),
    decreases n,
{
    let start = get::fresh_download(remote_path, replaces);
    let now = events.take(n);
    let one = events.take(n - 1);
    let two = events.take(n - 2);
    assert(now.drop_last() =~= one);
    assert(one.drop_last() =~= two);
    if n == 2 {
        assert(two =~= Seq::empty());
        assert(get::is_file_run(start, two));
        assert(one.last() == events[0]);
        assert(now.last() == events[1]);
        assert(get::is_file_run(start, one));
    } else {
        lemma_chunks_go_on(remote_path, replaces, events, n - 2);
        assert(one.last() == events[n - 2]);
        assert(now.last() == events[n - 1]);
        assert(chunk_came(events[n - 2]));
        assert(was_written(events[n - 1]));
        assert(get::is_file_run(start, one));
    }
}

/// A download that meets no failure is done: once every chunk was written and the device has no more, the file
/// is flushed, what stood at the destination is removed where it is replaced, and the file is renamed into place,
/// and then the bytes received are reported.
pub proof fn law_a_file_that_meets_no_failure_is_done(
    remote_path: Seq<char>,
    replaces: bool,
    events: Seq<FileEventView>,
    n: int,
    bytes: u64,
)
    requires
        all_received(events, n, bytes),
        replaces ==> events.len() == n + 4 && was_flushed(events[n + 1]) && was_removed(events[n + 2])
            && was_renamed(events[n + 3]),
        !replaces ==> events.len() == n + 3 && was_flushed(events[n + 1]) && was_renamed(events[n + 2]),
    ensures
        get::is_file_run(get::fresh_download(remote_path, replaces), events),
        get::file_run(get::fresh_download(remote_path, replaces), events).action
            == (FileActionView::Done { bytes }),
{
    let start = get::fresh_download(remote_path, replaces);
    lemma_chunks_go_on(remote_path, replaces, events, n);
    let len = events.len() as int;
    assert(events.take(len) =~= events);
    assert(events.take(n + 1).drop_last() =~= events.take(n));
    assert(events.take(n + 1).last() == events[n]);
    assert(get::is_file_run(start, events.take(n + 1)));
    assert(events.take(n + 2).drop_last() =~= events.take(n + 1));
    assert(events.take(n + 2).last() == events[n + 1]);
    assert(was_flushed(events[n + 1]));
    assert(get::is_file_run(start, events.take(n + 2)));
    assert(events.take(n + 3).drop_last() =~= events.take(n + 2));
    assert(events.take(n + 3).last() == events[n + 2]);
    assert(get::is_file_run(start, events.take(n + 3)));
    if replaces {
        assert(was_removed(events[n + 2]));
        assert(was_renamed(events[n + 3]));
        assert(events.take(n + 4).drop_last() =~= events.take(n + 3));
        assert(events.take(n + 4).last() == events[n + 3]);
        assert(events.take(n + 4) =~= events);
    } else {
        assert(was_renamed(events[n + 2]));
        assert(events.take(n + 3) =~= events);
    }
}

/// A failed step ends a download, and only a failed step does. Until the file is complete the temporary file is
/// removed again; the error is the device's own, or ends with the reason given.
pub proof fn law_a_failed_step_fails_the_file(d: get::FileDownloadView, event: FileEventView)
    requires
        get::answers(d.action, event),
    ensures
        ({
            let next = get::file_step(d, event).action;
            let failed = match event {
                FileEventView::TempCreated(r) => r is Err,
                FileEventView::Started(r) => r is Err,
                FileEventView::Chunk(r) => r is Err,
                FileEventView::Written(r) => r is Err,
                FileEventView::Flushed(r) => r is Err,
                FileEventView::Removed(r) => r is Err,
                FileEventView::Renamed(r) => r is Err,
                FileEventView::Ended { .. } => false,
            };
            &&& failed <==> next is Fail || next is RemoveTemp
            &&& next is RemoveTemp <==> failed && (event is Started || event is Chunk || event is Written
                || event is Flushed)
            &&& event matches FileEventView::Started(Err(e)) ==> (next->RemoveTemp_0 matches
                CliErrorView::Device { source, context } && source == e && d.remote_path.is_suffix_of(context))
            &&& event matches FileEventView::Chunk(Err(e)) ==> (next->RemoveTemp_0 matches
                CliErrorView::Device { source, context } && source == e && d.remote_path.is_suffix_of(context))
            &&& event matches FileEventView::Written(Err(reason)) ==> (next->RemoveTemp_0 matches
                CliErrorView::Plain { kind, message } && kind is Transfer && reason.is_suffix_of(message))
            &&& event matches FileEventView::Flushed(Err(reason)) ==> (next->RemoveTemp_0 matches
                CliErrorView::Plain { kind, message } && kind is Transfer && reason.is_suffix_of(message))
            &&& event matches FileEventView::TempCreated(Err(e)) ==> (next->Fail_0 matches
                CliErrorView::Plain { message, .. } && e.reason.is_suffix_of(message))
            &&& event matches FileEventView::Removed(Err(reason)) ==> (next->Fail_0 matches
                CliErrorView::Plain { message, .. } && reason.is_suffix_of(message))
            &&& event matches FileEventView::Renamed(Err(reason)) ==> (next->Fail_0 matches
                CliErrorView::Plain { message, .. } && reason.is_suffix_of(message))
        }),
{
    lemma_suffix("start download of "@, d.remote_path);
    lemma_suffix("download "@, d.remote_path);
    match event {
        FileEventView::Written(Err(reason)) => {
            lemma_suffix("write local file: "@, reason);
        },
        FileEventView::Flushed(Err(reason)) => {
            lemma_suffix("flush local file: "@, reason);
        },
        FileEventView::TempCreated(Err(e)) => {
            lemma_suffix("create local file "@ + e.path + ": "@, e.reason);
        },
        FileEventView::Removed(Err(reason)) => {
            lemma_suffix("replace local file: "@, reason);
        },
        FileEventView::Renamed(Err(reason)) => {
            lemma_suffix("replace local file: "@, reason);
        },
        _ => {},
    }
}

proof fn lemma_suffix(a: Seq<char>, b: Seq<char>)
    ensures
        b.is_suffix_of(a + b),
{
    assert((a + b).subrange((a + b).len() - b.len(), (a + b).len() as int) =~= b);
}

proof fn lemma_prefix(a: Seq<char>, b: Seq<char>)
    ensures
        a.is_prefix_of(a + b),
{
    assert((a + b).subrange(0, a.len() as int) =~= a);
}

/// The command goes on exactly where nothing stands at its destination, or what stands there may be replaced.
pub proof fn law_nothing_is_overwritten_unasked(
    exists_there: Result<bool, String>,
    replace: bool,
    r: Result<(), CliError>,
)
    requires
        call_ensures(get::check_new_destination, (exists_there, replace), r),
    ensures
        r is Ok <==> exists_there == Ok::<bool, String>(false) || (exists_there == Ok::<bool, String>(true)
            && replace),
{
}

/// A file is written exactly where nothing stands, or a file that may be replaced: a directory never is, nor
/// what could not be looked at. Something is replaced exactly where a file stands.
pub proof fn law_a_file_replaces_only_a_file(
    at: Destination,
    path: &str,
    replace: bool,
    r: Result<bool, CliError>,
)
    requires
        call_ensures(get::check_file_destination, (&at, path, replace), r),
    ensures
        r is Ok <==> at is Missing || (at is File && replace),
        r matches Ok(replaces) ==> (replaces <==> at is File),
{
}

/// A folder is written into a directory, or where nothing was found; never onto a file.
pub proof fn law_a_folder_never_lands_on_a_file(at: Destination, r: Result<bool, CliError>)
    requires
        call_ensures(get::root_existed, (&at,), r),
    ensures
        r is Err <==> at is File,
        r matches Ok(existed) ==> (existed <==> at is Directory),
{
}

/// The storage root and every association are downloaded as folders, and everything else as a file.
pub proof fn law_what_is_downloaded_as_a_folder(object: Option<ObjectInfo>, r: bool)
    requires
        call_ensures(get::is_folder_download, (&object,), r),
    ensures
        r <==> object is None || object->0.format == 0x3001,
{
}

/// The name of the temporary file is hidden, ends in `.tmp`, and begins with the name of the file that it is for.
pub proof fn law_a_temporary_file_is_named_for_its_file(name: &str, nonce: u128, process: u32, r: String)
    requires
        call_ensures(get::temp_file_name, (Some(name), nonce, process), r),
    ensures
        ("."@ + name@).is_prefix_of(r@),
        ".tmp"@.is_suffix_of(r@),
        r@ != name@,
{
    let rest = ".mtp-rs-"@ + text::decimal(nonce as nat) + "-"@ + text::decimal(process as nat) + ".tmp"@;
    reveal_strlit(".");
    assert(r@ =~= ("."@ + name@) + rest);
    lemma_prefix("."@ + name@, rest);
    let head = "."@ + name@ + ".mtp-rs-"@ + text::decimal(nonce as nat) + "-"@ + text::decimal(
        process as nat,
    );
    assert(r@ =~= head + ".tmp"@);
    lemma_suffix(head, ".tmp"@);
    assert(r@.len() > name@.len());
}

/// The probe tells a folder without regard to case by its upper-case name, unless the probe itself failed.
pub proof fn law_the_case_probe_goes_by_its_upper_case_name(
    upper: Result<bool, String>,
    removed: Result<(), String>,
    r: Result<bool, String>,
)
    requires
        call_ensures(get::case_probe_result, (upper, removed), r),
    ensures
        r is Ok <==> upper is Ok && removed is Ok,
        r matches Ok(b) ==> b == upper->Ok_0,
{
}

/// Every object of a listing is planned by its format: an association as a folder that is made and listed, and
/// anything else as a file to download, by its handle; at the path of its folder with its name behind it.
pub proof fn law_objects_are_planned_by_their_format(
    objects: Seq<ObjectInfoView>,
    place: PendingFolderView,
    i: int,
)
    requires
        0 <= i < objects.len(),
    ensures
        objects[i].format != 0x3001 ==> exists|k: int|
            0 <= k < folder_plan::planned_files(objects, place).len() && ({
                let file = #[trigger] folder_plan::planned_files(objects, place)[k];
                &&& file.handle == objects[i].handle
                &&& file.local_path == place.local_folder.push(objects[i].filename)
                &&& file.remote_path == folder_plan::remote_child(place.remote_folder, objects[i].filename)
            }),
        objects[i].format == 0x3001 ==> exists|k: int|
            0 <= k < folder_plan::planned_folders(objects, place).len() && ({
                let folder = #[trigger] folder_plan::planned_folders(objects, place)[k];
                &&& folder.local_path == place.local_folder.push(objects[i].filename)
                &&& folder.remote_path == folder_plan::remote_child(
                    place.remote_folder,
                    objects[i].filename,
                )
                &&& k < folder_plan::pending_folders(objects, place).len()
                &&& folder_plan::pending_folders(objects, place)[k].parent == Some(objects[i].handle)
                &&& folder_plan::pending_folders(objects, place)[k].local_folder == folder.local_path
                &&& folder_plan::pending_folders(objects, place)[k].remote_folder == folder.remote_path
            }),
    decreases objects.len(),
{
    let fewer = objects.drop_last();
    lemma_folders_are_queued(objects, place);
    lemma_folders_are_queued(fewer, place);
    if i < fewer.len() {
        assert(fewer[i] == objects[i]);
        law_objects_are_planned_by_their_format(fewer, place, i);
        if objects[i].format != 0x3001 {
            let old_files = folder_plan::planned_files(fewer, place);
            let k = choose|k: int|
                0 <= k < old_files.len() && ({
                    let file = #[trigger] old_files[k];
                    &&& file.handle == objects[i].handle
                    &&& file.local_path == place.local_folder.push(objects[i].filename)
                    &&& file.remote_path == folder_plan::remote_child(
                        place.remote_folder,
                        objects[i].filename,
                    )
                });
            assert(folder_plan::planned_files(objects, place)[k] == old_files[k]);
        } else {
            let old_folders = folder_plan::planned_folders(fewer, place);
            let old_pending = folder_plan::pending_folders(fewer, place);
            let k = choose|k: int|
                0 <= k < old_folders.len() && ({
                    let folder = #[trigger] old_folders[k];
                    &&& folder.local_path == place.local_folder.push(objects[i].filename)
                    &&& folder.remote_path == folder_plan::remote_child(
                        place.remote_folder,
                        objects[i].filename,
                    )
                    &&& k < old_pending.len()
                    &&& old_pending[k].parent == Some(objects[i].handle)
                    &&& old_pending[k].local_folder == folder.local_path
                    &&& old_pending[k].remote_folder == folder.remote_path
                });
            assert(folder_plan::planned_folders(objects, place)[k] == old_folders[k]);
            assert(folder_plan::pending_folders(objects, place)[k] == old_pending[k]);
        }
    } else if objects[i].format != 0x3001 {
        let k = folder_plan::planned_files(fewer, place).len() as int;
        assert(folder_plan::planned_files(objects, place)[k].handle == objects[i].handle);
    } else {
        let k = folder_plan::planned_folders(fewer, place).len() as int;
        assert(folder_plan::planned_folders(objects, place)[k].local_path == place.local_folder.push(
            objects[i].filename,
        ));
    }
}

proof fn lemma_folders_are_queued(objects: Seq<ObjectInfoView>, place: PendingFolderView)
    ensures
        folder_plan::planned_folders(objects, place).len() == folder_plan::pending_folders(
            objects,
            place,
        ).len(),
    decreases objects.len(),
{
    if objects.len() > 0 {
        lemma_folders_are_queued(objects.drop_last(), place);
    }
}

/// A remote path is the folder's with the name behind it and one slash between, also below the storage root.
pub proof fn law_a_remote_path_is_its_folder_and_its_name(folder: Seq<char>, name: Seq<char>)
    requires
        folder.len() > 0,
        folder.last() == '/' ==> folder.len() == 1,
    ensures
        ({
            let path = folder_plan::remote_child(folder, name);
            let slash = path.len() - name.len() - 1;
            &&& 0 <= slash
            &&& path[slash] == '/'
            &&& path.skip(slash + 1) == name
            &&& folder.len() > 1 || folder[0] != '/' ==> path.take(slash) == folder
            &&& folder == seq!['/'] ==> slash == 0
        }),
{
    reveal_strlit("/");
    let path = folder_plan::remote_child(folder, name);
    let slash = path.len() - name.len() - 1;
    assert("/"@ =~= seq!['/']);
    if folder == "/"@ {
        assert(path.skip(1) =~= name);
    } else {
        if folder.len() == 1 && folder[0] == '/' {
            assert(folder =~= seq!['/']);
        }
        assert(path.skip(slash + 1) =~= name);
        assert(path.take(slash) =~= folder);
    }
}

/// Whether two local paths are the same place on a disk: the same folder and the same name, without regard to case
/// where the disk has none.
pub open spec fn same_place(a: Seq<Seq<char>>, b: Seq<Seq<char>>, case_insensitive: bool) -> bool {
    &&& a.drop_last() == b.drop_last()
    &&& if case_insensitive {
        outside::lowercase(a.last()) == outside::lowercase(b.last())
    } else {
        a.last() == b.last()
    }
}

/// The local paths that a plan writes: those of its folders, and then those of its files.
pub open spec fn written_paths(plan: FolderPlanView) -> Seq<Seq<Seq<char>>> {
    Seq::new(
        plan.folders.len() + plan.files.len(),
        |i: int|
            if i < plan.folders.len() {
                plan.folders[i].local_path
            } else {
                plan.files[i - plan.folders.len()].local_path
            },
    )
}

/// A plan is refused exactly where two of the things it writes would be the same place on disk, or where it could
/// not be found out how the disk tells names apart.
pub proof fn law_a_plan_fits_where_no_two_paths_meet(
    plan: FolderPlan,
    probed: Result<bool, LocalFailure>,
    r: Result<(), CliError>,
)
    requires
        call_ensures(folder_download::check_no_collisions, (&plan, probed), r),
        forall|i: int|
            0 <= i < written_paths(plan@).len() ==> (#[trigger] written_paths(plan@)[i]).len() > 0,
    ensures
        probed is Err ==> r is Err,
        probed matches Ok(case_insensitive) ==> (r is Ok <==> forall|i: int, j: int|
            0 <= i < j < written_paths(plan@).len() ==> !same_place(
                #[trigger] written_paths(plan@)[i],
                #[trigger] written_paths(plan@)[j],
                case_insensitive,
            )),
{
    if let Ok(case_insensitive) = probed {
        let keys = folder_download::plan_keys(plan@, case_insensitive);
        let paths = written_paths(plan@);
        local_names::law_no_repeat_means_no_collision(keys);
        assert(keys.len() == paths.len());
        assert forall|i: int| 0 <= i < paths.len() implies #[trigger] keys[i] == local_names::key_of(
            paths[i],
            case_insensitive,
        ) by {
            assert(folder_plan::entries_of(plan@)[i].1 == paths[i]);
        }
        assert forall|i: int, j: int| 0 <= i < j < paths.len() implies (#[trigger] keys[i]
            == #[trigger] keys[j] <==> same_place(paths[i], paths[j], case_insensitive)) by {}
        if local_names::first_repeat(keys) is None {
            assert forall|i: int, j: int| 0 <= i < j < paths.len() implies !same_place(
                #[trigger] paths[i],
                #[trigger] paths[j],
                case_insensitive,
            ) by {
                assert(keys[i] != keys[j]);
            }
        } else {
            let (i, j) = local_names::first_repeat(keys)->0;
            assert(keys[i] == keys[j]);
            assert(same_place(paths[i], paths[j], case_insensitive));
        }
    }
}

/// The pair that a collision names is the first: no two entries before its second one meet, and its first one is
/// the earliest that its second one meets.
pub proof fn law_the_first_collision_is_named(keys: Seq<local_names::LocalKeyView>)
    ensures
        local_names::first_repeat(keys) matches Some((i, j)) ==> {
            &&& 0 <= i < j < keys.len()
            &&& keys[i] == keys[j]
            &&& forall|a: int, b: int| 0 <= a < b < j ==> #[trigger] keys[a] != #[trigger] keys[b]
            &&& forall|a: int| 0 <= a < i ==> #[trigger] keys[a] != keys[j]
        },
    decreases keys.len(),
{
    if keys.len() > 0 {
        let fewer = keys.drop_last();
        law_the_first_collision_is_named(fewer);
        local_names::law_no_repeat_means_no_collision(fewer);
        let p = |k: local_names::LocalKeyView| k == keys.last();
        search::lemma_first_where(fewer, p);
        assert(forall|a: int| 0 <= a < fewer.len() ==> #[trigger] keys[a] == fewer[a]);
        if local_names::first_repeat(fewer) is None {
            if let Some((i, j)) = local_names::first_repeat(keys) {
                assert(p(fewer[i]));
                assert forall|a: int| 0 <= a < i implies #[trigger] keys[a] != keys[j] by {
                    assert(!p(fewer[a]));
                }
            }
        }
    }
}

/// A folder's download fails at a failed step and at a plan that does not fit, and nowhere else; every step that
/// succeeds leads on.
pub proof fn law_a_folder_fails_only_at_a_failure(
    d: folder_download::FolderDownloadView,
    event: FolderEventView,
)
    requires
        folder_download::answers(d.action, event),
    ensures
        ({
            let next = folder_download::folder_step(d, event).action;
            let failed = match event {
                FolderEventView::RootCreated(r) => r is Err,
                FolderEventView::CaseProbed(probed) => folder_download::fits(d.plan, probed) is Err,
                FolderEventView::FolderCreated(r) => r is Err,
                FolderEventView::Downloaded(r) => r is Err,
            };
            &&& next is Fail || next is RemoveRoot <==> failed
            &&& event matches FolderEventView::Downloaded(Err(e)) ==> next == FolderActionView::Fail(e)
            &&& next is RemoveRoot <==> failed && event is CaseProbed && !d.root_existed
            &&& event matches FolderEventView::RootCreated(Ok(_)) ==> next is ProbeCase
            &&& event is CaseProbed && !failed && d.plan.folders.len() > 0 ==> next
                == FolderActionView::CreateFolder(0)
            &&& event is CaseProbed && !failed && d.plan.folders.len() == 0 && d.plan.files.len() > 0
                ==> next == FolderActionView::Download(0)
            &&& d.action matches FolderActionView::CreateFolder(i) ==> (!failed && i + 1
                < d.plan.folders.len() ==> next == FolderActionView::CreateFolder(i + 1))
            &&& d.action matches FolderActionView::Download(i) ==> (!failed && i + 1 < d.plan.files.len()
                ==> next == FolderActionView::Download(i + 1))
            &&& d.action matches FolderActionView::Download(i) ==> (!failed && i + 1 >= d.plan.files.len()
                ==> next is Done)
        }),
{
}

/// A listing is planned exactly where the device gave it and every name in it can be used; otherwise the walk fails,
/// with the device's own error, or because of a name.
pub proof fn law_a_walk_fails_at_a_bad_name_or_a_failed_listing(
    walk: folder_plan::FolderWalkView,
    place: PendingFolderView,
    found: Result<crate::mtp::storage::ObjectCollectionView, ErrorView>,
    windows: bool,
)
    ensures
        ({
            let step = folder_plan::walk_step(walk, place, found, windows);
            &&& step is Ok <==> found is Ok && forall|i: int|
                0 <= i < found->Ok_0.objects.len() ==> local_names::name_problem(
                    (#[trigger] found->Ok_0.objects[i]).filename,
                    windows,
                ) is None
            &&& found matches Err(e) ==> (step matches Err(CliErrorView::Device { context, source }) && source == e
                && place.remote_folder.is_suffix_of(context))
            &&& found is Ok && step is Err ==> (step->Err_0 matches CliErrorView::Plain { kind, .. }
                && kind is RemotePath)
            &&& step matches Ok(next) ==> {
                &&& next.plan.skipped.len() == walk.plan.skipped.len() + found->Ok_0.skipped.len()
                &&& forall|i: int|
                    0 <= i < found->Ok_0.skipped.len() ==> {
                        let row = #[trigger] next.plan.skipped[walk.plan.skipped.len() + i];
                        &&& row.handle == found->Ok_0.skipped[i].handle.0
                        &&& row.remote_folder == place.remote_folder
                        &&& row.error == crate::mtp::error::error_text(found->Ok_0.skipped[i].error)
                    }
            }
        }),
{
    lemma_suffix("list "@, place.remote_folder);
    if let Ok(listed) = found {
        let p = |o: ObjectInfoView| local_names::name_problem(o.filename, windows) is Some;
        search::lemma_first_where(listed.objects, p);
        match folder_plan::first_bad_name(listed.objects, windows) {
            Some(i) => {
                assert(p(listed.objects[i]));
                assert(local_names::name_problem(listed.objects[i].filename, windows) is Some);
            },
            None => {
                assert forall|i: int| 0 <= i < listed.objects.len() implies local_names::name_problem(
                    (#[trigger] listed.objects[i]).filename,
                    windows,
                ) is None by {
                    assert(!p(listed.objects[i]));
                }
                let step = folder_plan::walk_step(walk, place, found, windows);
                let next = step->Ok_0;
                let rows = folder_plan::skipped_rows(listed.skipped, place.remote_folder);
                assert forall|i: int| 0 <= i < listed.skipped.len() implies {
                    let row = #[trigger] next.plan.skipped[walk.plan.skipped.len() + i];
                    &&& row.handle == listed.skipped[i].handle.0
                    &&& row.remote_folder == place.remote_folder
                    &&& row.error == crate::mtp::error::error_text(listed.skipped[i].error)
                } by {
                    assert(next.plan.skipped[walk.plan.skipped.len() + i] == rows[i]);
                }
            },
        }
    }
}

/// The remote path of a folder below the root is that of the folder it lies in with its name behind it.
pub proof fn law_a_remote_root_grows_by_its_names(components: Seq<Seq<char>>, name: Seq<char>)
    requires
        forall|i: int|
            0 <= i < components.len() ==> (#[trigger] components[i]).len() > 0,
    ensures
        get::remote_root_of(Seq::empty()) == seq!['/'],
        get::remote_root_of(components.push(name)) == folder_plan::remote_child(
            get::remote_root_of(components),
            name,
        ),
{
    reveal_strlit("/");
    assert("/"@ =~= seq!['/']);
    assert(components.push(name).drop_last() =~= components);
    let grown = get::remote_root_of(components.push(name));
    let before = get::remote_root_of(components);
    if components.len() == 0 {
        assert(grown =~= "/"@ + name);
    } else {
        lemma_joined_len(components);
        assert(before.len() > 1);
        assert(before != "/"@);
        assert(grown =~= before + "/"@ + name);
    }
}

proof fn lemma_joined_len(components: Seq<Seq<char>>)
    requires
        components.len() > 0,
        forall|i: int|
            0 <= i < components.len() ==> (#[trigger] components[i]).len() > 0,
    ensures
        text::joined(components, "/"@).len() > 0,
{
    assert(components[0].len() > 0);
    assert(components[components.len() - 1].len() > 0);
}

/// A number of things is named in the plural exactly where it is not one.
pub proof fn law_one_is_not_many(n: usize, noun: &str, r: String)
    requires
        call_ensures(folder_plan::count, (n, noun), r),
    ensures
        n == 1 ==> r@ == text::decimal(1) + seq![' '] + noun@,
        n != 1 ==> r@ == text::decimal(n as nat) + seq![' '] + noun@ + seq!['s'],
{
    reveal_strlit(" ");
    reveal_strlit("s");
    reveal_strlit("");
    assert(" "@ =~= seq![' ']);
    assert("s"@ =~= seq!['s']);
    assert(n == 1 ==> r@ =~= text::decimal(1) + seq![' '] + noun@);
}

/// The report of a downloaded folder counts what was planned, and gives the bytes that were downloaded.
pub proof fn law_a_folder_is_reported_as_planned(
    remote_path: String,
    local_path: String,
    handle: Option<u64>,
    bytes: u64,
    plan: FolderPlan,
    r: folder_download::GetFolderRow,
)
    requires
        call_ensures(
            folder_download::GetFolderRow::new,
            (remote_path, local_path, handle, bytes, plan),
            r,
        ),
    ensures
        r.remote_path@ == remote_path@,
        r.local_path@ == local_path@,
        r.handle == handle,
        r.bytes == bytes,
        r.files == plan.files@.len(),
        r.folders == plan.folders@.len(),
        r.skipped@.len() == plan.skipped@.len(),
{
    assert(plan@.files.len() == plan.files@.len());
    assert(plan@.folders.len() == plan.folders@.len());
    assert(plan@.skipped.len() == plan.skipped@.len());
    assert(folder_plan::skipped_row_views(r.skipped@).len() == r.skipped@.len());
}

/// Every object that could not be read is warned about: a line for each, with its handle and its error, behind one that
/// says how many; and no warning where there is none.
pub proof fn law_every_unread_object_is_warned_about(rows: Seq<folder_plan::SkippedRowView>, i: int)
    requires
        0 <= i < rows.len(),
    ensures
        get::skipped_lines(Seq::empty()).len() == 0,
        get::skipped_lines(rows).len() == rows.len() + 1,
        rows[i].error.is_suffix_of(get::skipped_lines(rows)[i + 1]),
        text::contains_text(get::skipped_lines(rows)[i + 1], text::decimal(rows[i].handle as nat)),
        text::contains_text(get::skipped_lines(rows)[i + 1], rows[i].remote_folder),
        text::contains_text(get::skipped_lines(rows)[0], text::decimal(rows.len())),
{
    let row = rows[i];
    let line = get::skipped_lines(rows)[i + 1];
    let number = text::decimal(row.handle as nat);
    let front = "  "@ + row.remote_folder + " handle="@ + number + " "@;
    assert(line =~= front + row.error);
    lemma_suffix(front, row.error);
    lemma_inside("  "@ + row.remote_folder + " handle="@, number, " "@ + row.error);
    assert(line =~= "  "@ + row.remote_folder + " handle="@ + number + (" "@ + row.error));
    lemma_inside("  "@, row.remote_folder, " handle="@ + number + " "@ + row.error);
    assert(line =~= "  "@ + row.remote_folder + (" handle="@ + number + " "@ + row.error));
    let first = get::skipped_lines(rows)[0];
    let count = text::decimal(rows.len());
    let rest = first.skip(("warning: "@ + count).len() as int);
    assert(first =~= "warning: "@ + count + rest);
    lemma_inside("warning: "@, count, rest);
}

proof fn lemma_inside(a: Seq<char>, b: Seq<char>, c: Seq<char>)
    ensures
        text::contains_text(a + b + c, b),
{
    let all = a + b + c;
    assert(all.subrange(a.len() as int, (a.len() + b.len()) as int) =~= b);
    assert(text::stands_at(all, b, a.len() as int));
}

/// What a file's download came to is known exactly once it is over: the bytes, where it is done, and else the error that
/// ended it.
pub proof fn law_a_file_gives_its_outcome(d: get::FileDownload, r: Option<Result<u64, CliError>>)
    requires
        call_ensures(get::FileDownload::finish, (d,), r),
    ensures
        r is Some <==> d.action is Done || d.action is Fail || d.action is RemoveTemp,
        d.action matches get::FileAction::Done { bytes } ==> r == Some(Ok::<u64, CliError>(bytes)),
        d.action matches get::FileAction::Fail(e) ==> (r matches Some(Err(x)) && x@ == e@),
        d.action matches get::FileAction::RemoveTemp(e) ==> (r matches Some(Err(x)) && x@ == e@),
{
}

/// What a folder's download came to is known exactly once it is over: the bytes of its files and the plan that was
/// carried out, or the error that ended it.
pub proof fn law_a_folder_gives_its_outcome(
    d: folder_download::FolderDownload,
    r: Option<Result<(u64, FolderPlan), CliError>>,
)
    requires
        call_ensures(folder_download::FolderDownload::finish, (d,), r),
    ensures
        r is Some <==> d.action is Done || d.action is Fail || d.action is RemoveRoot,
        d.action is Done ==> (r matches Some(Ok((bytes, plan))) && bytes == d.bytes && plan@ == d.plan@),
        d.action matches folder_download::FolderAction::Fail(e) ==> (r matches Some(Err(x)) && x@ == e@),
        d.action matches folder_download::FolderAction::RemoveRoot(e) ==> (r matches Some(Err(x)) && x@ == e@),
{
}

/// Every object that `ls` could not read is warned about, with its handle and its error, behind a line that says how
/// many there are.
pub proof fn law_ls_warns_about_every_unread_object(
    rows: Seq<crate::cli::commands::ls::UnreadRowView>,
    i: int,
)
    requires
        0 <= i < rows.len(),
    ensures
        ({
            let lines = crate::cli::commands::ls::warning_lines(rows);
            &&& crate::cli::commands::ls::warning_lines(Seq::empty()).len() == 0
            &&& lines.len() == rows.len() + 1
            &&& rows[i].error.is_suffix_of(lines[i + 1])
            &&& text::contains_text(lines[i + 1], text::decimal(rows[i].handle as nat))
            &&& text::contains_text(lines[0], text::decimal(rows.len()))
        }),
{
    let lines = crate::cli::commands::ls::warning_lines(rows);
    let number = text::decimal(rows[i].handle as nat);
    let front = "  handle="@ + number + " "@;
    assert(lines[i + 1] =~= front + rows[i].error);
    lemma_suffix(front, rows[i].error);
    lemma_inside("  handle="@, number, " "@ + rows[i].error);
    assert(lines[i + 1] =~= "  handle="@ + number + (" "@ + rows[i].error));
    let count = text::decimal(rows.len());
    let rest = lines[0].skip(("warning: "@ + count).len() as int);
    assert(lines[0] =~= "warning: "@ + count + rest);
    lemma_inside("warning: "@, count, rest);
}

/// A reset says which device answers, where one does.
pub proof fn law_a_reset_names_the_device_that_answers(row: ResetRow, r: String)
    requires
        call_ensures(ResetRow::line, (&row,), r),
    ensures
        row.responding_model matches Some(model) ==> model@.is_suffix_of(r@),
{
    if let Some(model) = row.responding_model {
        lemma_suffix("Reset OK, device responding: "@, model@);
    }
}

} // verus!
