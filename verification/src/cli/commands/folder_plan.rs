//! Planning the download of a folder: the whole remote tree is walked before anything is written, so that
//! a name that can't be used locally fails the command up front.

use vstd::prelude::*;

use crate::cli::commands::local_names;
use crate::cli::commands::local_names::{LocalPath, PlanEntry};
use crate::cli::error::{CliError, CliErrorKind, CliErrorView};
use crate::mtp::error;
use crate::mtp::error::Error;
use crate::mtp::storage::{ObjectCollection, ObjectCollectionView, SkippedObjectView};
use crate::mtp::types::{ObjectHandle, ObjectInfoView};
use crate::outside;
use crate::text;

verus! {

/// A folder to create.
#[derive(Debug)]
pub struct PlannedFolder {
    pub remote_path: String,
    pub local_path: LocalPath,
}

/// A [`PlannedFolder`] with its paths as views.
pub struct PlannedFolderView {
    pub remote_path: Seq<char>,
    pub local_path: Seq<Seq<char>>,
}

impl View for PlannedFolder {
    type V = PlannedFolderView;

    open spec fn view(&self) -> PlannedFolderView {
        PlannedFolderView { remote_path: self.remote_path@, local_path: self.local_path@ }
    }
}

/// A file to download.
#[derive(Debug)]
pub struct PlannedFile {
    pub handle: ObjectHandle,
    pub remote_path: String,
    pub local_path: LocalPath,
}

/// A [`PlannedFile`] with its paths as views.
pub struct PlannedFileView {
    pub handle: ObjectHandle,
    pub remote_path: Seq<char>,
    pub local_path: Seq<Seq<char>>,
}

impl View for PlannedFile {
    type V = PlannedFileView;

    open spec fn view(&self) -> PlannedFileView {
        PlannedFileView {
            handle: self.handle,
            remote_path: self.remote_path@,
            local_path: self.local_path@,
        }
    }
}

/// An object the device listed but refused to describe.
#[derive(Debug)]
pub struct SkippedRow {
    pub remote_folder: String,
    pub handle: u64,
    pub error: String,
}

/// A [`SkippedRow`] with its texts as sequences of characters.
pub struct SkippedRowView {
    pub remote_folder: Seq<char>,
    pub handle: u64,
    pub error: Seq<char>,
}

impl View for SkippedRow {
    type V = SkippedRowView;

    open spec fn view(&self) -> SkippedRowView {
        SkippedRowView {
            remote_folder: self.remote_folder@,
            handle: self.handle,
            error: self.error@,
        }
    }
}

/// Everything a folder download will write. Local paths are relative to the destination.
#[derive(Debug)]
pub struct FolderPlan {
    /// Folders below the destination, parents before children.
    pub folders: Vec<PlannedFolder>,
    pub files: Vec<PlannedFile>,
    pub skipped: Vec<SkippedRow>,
}

/// A [`FolderPlan`] with its parts as views.
pub struct FolderPlanView {
    pub folders: Seq<PlannedFolderView>,
    pub files: Seq<PlannedFileView>,
    pub skipped: Seq<SkippedRowView>,
}

/// Planned folders as views.
pub open spec fn folder_views(folders: Seq<PlannedFolder>) -> Seq<PlannedFolderView> {
    folders.map_values(|f: PlannedFolder| f@)
}

/// Planned files as views.
pub open spec fn file_views(files: Seq<PlannedFile>) -> Seq<PlannedFileView> {
    files.map_values(|f: PlannedFile| f@)
}

/// Skipped objects as views.
pub open spec fn skipped_row_views(rows: Seq<SkippedRow>) -> Seq<SkippedRowView> {
    rows.map_values(|r: SkippedRow| r@)
}

impl View for FolderPlan {
    type V = FolderPlanView;

    open spec fn view(&self) -> FolderPlanView {
        FolderPlanView {
            folders: folder_views(self.folders@),
            files: file_views(self.files@),
            skipped: skipped_row_views(self.skipped@),
        }
    }
}

/// A folder waiting to be listed.
#[derive(Debug)]
pub struct PendingFolder {
    /// `None` for the storage root.
    pub parent: Option<ObjectHandle>,
    pub remote_folder: String,
    pub local_folder: LocalPath,
}

/// A [`PendingFolder`] with its paths as views.
pub struct PendingFolderView {
    pub parent: Option<ObjectHandle>,
    pub remote_folder: Seq<char>,
    pub local_folder: Seq<Seq<char>>,
}

impl View for PendingFolder {
    type V = PendingFolderView;

    open spec fn view(&self) -> PendingFolderView {
        PendingFolderView {
            parent: self.parent,
            remote_folder: self.remote_folder@,
            local_folder: self.local_folder@,
        }
    }
}

/// Pending folders as views.
pub open spec fn pending_views(folders: Seq<PendingFolder>) -> Seq<PendingFolderView> {
    folders.map_values(|f: PendingFolder| f@)
}

/// The walk over a remote tree.
#[derive(Debug)]
pub struct FolderWalk {
    /// Folders still to be listed; the last one comes next.
    pub to_visit: Vec<PendingFolder>,
    pub plan: FolderPlan,
}

/// A [`FolderWalk`] with its parts as views.
pub struct FolderWalkView {
    pub to_visit: Seq<PendingFolderView>,
    pub plan: FolderPlanView,
}

impl View for FolderWalk {
    type V = FolderWalkView;

    open spec fn view(&self) -> FolderWalkView {
        FolderWalkView { to_visit: pending_views(self.to_visit@), plan: self.plan@ }
    }
}

/// The remote path of an object in a folder.
pub open spec fn remote_child(folder: Seq<char>, name: Seq<char>) -> Seq<char> {
    if folder == "/"@ {
        "/"@ + name
    } else {
        folder + "/"@ + name
    }
}

/// The folders among objects, as folders to create.
pub open spec fn planned_folders(objects: Seq<ObjectInfoView>, folder: PendingFolderView) -> Seq<
    PlannedFolderView,
>
    decreases objects.len(),
{
    if objects.len() == 0 {
        Seq::empty()
    } else {
        let before = planned_folders(objects.drop_last(), folder);
        let o = objects.last();
        if o.is_folder() {
            before.push(
                PlannedFolderView {
                    remote_path: remote_child(folder.remote_folder, o.filename),
                    local_path: folder.local_folder.push(o.filename),
                },
            )
        } else {
            before
        }
    }
}

/// The folders among objects, as folders to list.
pub open spec fn pending_folders(objects: Seq<ObjectInfoView>, folder: PendingFolderView) -> Seq<
    PendingFolderView,
>
    decreases objects.len(),
{
    if objects.len() == 0 {
        Seq::empty()
    } else {
        let before = pending_folders(objects.drop_last(), folder);
        let o = objects.last();
        if o.is_folder() {
            before.push(
                PendingFolderView {
                    parent: Some(o.handle),
                    remote_folder: remote_child(folder.remote_folder, o.filename),
                    local_folder: folder.local_folder.push(o.filename),
                },
            )
        } else {
            before
        }
    }
}

/// The files among objects, as files to download.
pub open spec fn planned_files(objects: Seq<ObjectInfoView>, folder: PendingFolderView) -> Seq<
    PlannedFileView,
>
    decreases objects.len(),
{
    if objects.len() == 0 {
        Seq::empty()
    } else {
        let before = planned_files(objects.drop_last(), folder);
        let o = objects.last();
        if o.is_folder() {
            before
        } else {
            before.push(
                PlannedFileView {
                    handle: o.handle,
                    remote_path: remote_child(folder.remote_folder, o.filename),
                    local_path: folder.local_folder.push(o.filename),
                },
            )
        }
    }
}

/// The objects of a folder that could not be read, as rows.
pub open spec fn skipped_rows(skipped: Seq<SkippedObjectView>, remote_folder: Seq<char>) -> Seq<
    SkippedRowView,
> {
    skipped.map_values(
        |s: SkippedObjectView|
            SkippedRowView { remote_folder, handle: s.handle.0, error: error::error_text(s.error) },
    )
}

/// The walk after a folder whose every name can be used was listed.
pub open spec fn walked(
    walk: FolderWalkView,
    folder: PendingFolderView,
    found: ObjectCollectionView,
) -> FolderWalkView {
    FolderWalkView {
        to_visit: walk.to_visit + pending_folders(found.objects, folder),
        plan: FolderPlanView {
            folders: walk.plan.folders + planned_folders(found.objects, folder),
            files: walk.plan.files + planned_files(found.objects, folder),
            skipped: walk.plan.skipped + skipped_rows(found.skipped, folder.remote_folder),
        },
    }
}

/// The first object whose name can't be used locally.
pub open spec fn first_bad_name(objects: Seq<ObjectInfoView>, windows: bool) -> Option<int> {
    crate::search::first_where(
        objects,
        |o: ObjectInfoView| local_names::name_problem(o.filename, windows) is Some,
    )
}

/// The error about a name that can't be used locally, given the name in quotes.
pub open spec fn bad_name_error(
    remote_folder: Seq<char>,
    problem: Seq<char>,
    quoted_name: Seq<char>,
) -> CliErrorView {
    CliErrorView::Plain {
        kind: CliErrorKind::RemotePath,
        message: "remote object in "@ + remote_folder + " has a name that can't be used locally ("@
            + problem + "): "@ + quoted_name,
    }
}

/// Build the error about a name that can't be used locally, given the name in quotes.
pub fn write_bad_name_error(remote_folder: &str, problem: &str, quoted_name: &str) -> (r: CliError)
    ensures
        r@ == bad_name_error(remote_folder@, problem@, quoted_name@),
{
    let mut message = "remote object in ".to_owned();
    message.append(remote_folder);
    message.append(" has a name that can't be used locally (");
    message.append(problem);
    message.append("): ");
    message.append(quoted_name);
    CliError::Plain { kind: CliErrorKind::RemotePath, message }
}

/// Write the remote path of an object in a folder.
fn write_remote_child(folder: &str, name: &str) -> (r: String)
    ensures
        r@ == remote_child(folder@, name@),
{
    if text::same(folder, "/") {
        let mut r = "/".to_owned();
        r.append(name);
        r
    } else {
        let mut r = folder.to_owned();
        r.append("/");
        r.append(name);
        r
    }
}

/// What became of a folder's listing: the walk goes on with what it found, or it fails.
pub open spec fn walk_step(
    walk: FolderWalkView,
    folder: PendingFolderView,
    found: Result<ObjectCollectionView, error::ErrorView>,
    windows: bool,
) -> Result<FolderWalkView, CliErrorView> {
    match found {
        Err(e) => Err(
            CliErrorView::Device { context: "list "@ + folder.remote_folder, source: e },
        ),
        Ok(found) => match first_bad_name(found.objects, windows) {
            Some(i) => Err(
                bad_name_error(
                    folder.remote_folder,
                    local_names::name_problem(found.objects[i].filename, windows)->0,
                    outside::quoted(found.objects[i].filename),
                ),
            ),
            None => Ok(walked(walk, folder, found)),
        },
    }
}

impl FolderWalk {
    /// A walk from a folder on, `None` for the storage root, into the destination itself.
    pub fn new(root: Option<ObjectHandle>, remote_root: String) -> (r: Self)
        ensures
            r@ == fresh_walk(root, remote_root@),
    {
        let first = PendingFolder {
            parent: root,
            remote_folder: remote_root,
            local_folder: LocalPath { components: Vec::new() },
        };
        assert(first.local_folder@ =~= Seq::empty());
        let ghost view = first@;
        let mut to_visit: Vec<PendingFolder> = Vec::new();
        to_visit.push(first);
        let r = FolderWalk {
            to_visit,
            plan: FolderPlan { folders: Vec::new(), files: Vec::new(), skipped: Vec::new() },
        };
        assert(r@.to_visit =~= seq![view]);
        assert(r@.plan.folders =~= Seq::empty());
        assert(r@.plan.files =~= Seq::empty());
        assert(r@.plan.skipped =~= Seq::empty());
        r
    }

    /// The next folder to list, or `None` when the walk is over.
    pub fn next(&mut self) -> (r: Option<PendingFolder>)
        ensures
            final(self)@.plan == old(self)@.plan,
            match r {
                Some(folder) => {
                    &&& old(self)@.to_visit.len() > 0
                    &&& folder@ == old(self)@.to_visit.last()
                    &&& final(self)@.to_visit == old(self)@.to_visit.drop_last()
                },
                None => old(self)@.to_visit.len() == 0 && final(self)@.to_visit
                    == old(self)@.to_visit,
            },
    {
        let ghost before = self@;
        match self.to_visit.pop() {
            Some(folder) => {
                assert(self@.to_visit =~= before.to_visit.drop_last());
                Some(folder)
            },
            None => {
                assert(self@.to_visit =~= before.to_visit);
                None
            },
        }
    }

    /// Plan what was found in a folder.
    fn add(&mut self, folder: &PendingFolder, found: &ObjectCollection)
        ensures
            final(self)@ == walked(old(self)@, folder@, found@),
    {
        let ghost before = self@;
        let ghost objects = found@.objects;
        let ghost skipped = found@.skipped;
        let mut i: usize = 0;
        assert(self@.plan.skipped =~= before.plan.skipped + skipped_rows(
            skipped.take(0),
            folder@.remote_folder,
        ));
        while i < found.skipped.len()
            invariant
                i <= found.skipped@.len(),
                skipped == found@.skipped,
                self@ == (FolderWalkView {
                    plan: FolderPlanView {
                        skipped: before.plan.skipped + skipped_rows(
                            skipped.take(i as int),
                            folder@.remote_folder,
                        ),
                        ..before.plan
                    },
                    ..before
                }),
            decreases found.skipped.len() - i,
        {
            let ghost now = self@;
            let row = SkippedRow {
                remote_folder: folder.remote_folder.clone(),
                handle: found.skipped[i].handle.0,
                error: found.skipped[i].error.describe(),
            };
            let ghost view = row@;
            self.plan.skipped.push(row);
            proof {
                assert(self@.plan.skipped =~= now.plan.skipped.push(view));
                assert(skipped_rows(skipped.take(i + 1), folder@.remote_folder) =~= skipped_rows(
                    skipped.take(i as int),
                    folder@.remote_folder,
                ).push(view));
                assert(self@.plan.skipped =~= before.plan.skipped + skipped_rows(
                    skipped.take(i + 1),
                    folder@.remote_folder,
                ));
            }
            i = i + 1;
        }
        assert(skipped.take(i as int) =~= skipped);
        let ghost rows = self@.plan.skipped;
        let mut k: usize = 0;
        proof {
            assert(objects.take(0) =~= Seq::empty());
            assert(self@.to_visit =~= before.to_visit + pending_folders(objects.take(0), folder@));
            assert(self@.plan.folders =~= before.plan.folders + planned_folders(
                objects.take(0),
                folder@,
            ));
            assert(self@.plan.files =~= before.plan.files + planned_files(objects.take(0), folder@));
        }
        while k < found.objects.len()
            invariant
                k <= found.objects@.len(),
                objects == found@.objects,
                self@ == (FolderWalkView {
                    to_visit: before.to_visit + pending_folders(objects.take(k as int), folder@),
                    plan: FolderPlanView {
                        folders: before.plan.folders + planned_folders(
                            objects.take(k as int),
                            folder@,
                        ),
                        files: before.plan.files + planned_files(objects.take(k as int), folder@),
                        skipped: rows,
                    },
                }),
            decreases found.objects.len() - k,
        {
            let object = &found.objects[k];
            let ghost now = self@;
            proof {
                assert(objects.take(k + 1).drop_last() =~= objects.take(k as int));
                assert(objects.take(k + 1).last() == object@);
            }
            let remote_path = write_remote_child(
                folder.remote_folder.as_str(),
                object.filename.as_str(),
            );
            let local_path = folder.local_folder.join(object.filename.as_str());
            if object.is_folder() {
                let planned = PlannedFolder {
                    remote_path: remote_path.clone(),
                    local_path: local_path.clone(),
                };
                let ghost planned_view = planned@;
                self.plan.folders.push(planned);
                let pending = PendingFolder {
                    parent: Some(object.handle),
                    remote_folder: remote_path,
                    local_folder: local_path,
                };
                let ghost pending_view = pending@;
                self.to_visit.push(pending);
                proof {
                    assert(self@.plan.folders =~= now.plan.folders.push(planned_view));
                    assert(self@.to_visit =~= now.to_visit.push(pending_view));
                    assert(self@.to_visit =~= before.to_visit + pending_folders(
                        objects.take(k + 1),
                        folder@,
                    ));
                    assert(self@.plan.folders =~= before.plan.folders + planned_folders(
                        objects.take(k + 1),
                        folder@,
                    ));
                }
            } else {
                let planned = PlannedFile { handle: object.handle, remote_path, local_path };
                let ghost planned_view = planned@;
                self.plan.files.push(planned);
                proof {
                    assert(self@.plan.files =~= now.plan.files.push(planned_view));
                    assert(self@.plan.files =~= before.plan.files + planned_files(
                        objects.take(k + 1),
                        folder@,
                    ));
                }
            }
            k = k + 1;
        }
        assert(objects.take(k as int) =~= objects);
    }

    /// Take the listing of a folder. A folder that would not list, or a name that can't be used locally,
    /// ends the walk, and nothing of that folder is planned.
    pub fn take(
        &mut self,
        folder: PendingFolder,
        listing: Result<ObjectCollection, Error>,
        windows: bool,
    ) -> (r: Result<(), CliError>)
        ensures
            ({
                let step = walk_step(
                    old(self)@,
                    folder@,
                    match listing {
                        Ok(found) => Ok(found@),
                        Err(e) => Err(e@),
                    },
                    windows,
                );
                match r {
                    Ok(_) => step == Ok::<FolderWalkView, CliErrorView>(final(self)@),
                    Err(e) => step == Err::<FolderWalkView, CliErrorView>(e@) && final(self)@
                        == old(self)@,
                }
            }),
    {
        let found = match listing {
            Ok(found) => found,
            Err(e) => {
                let mut context = "list ".to_owned();
                context.append(folder.remote_folder.as_str());
                return Err(CliError::Device { context, source: e });
            },
        };
        let ghost objects = found@.objects;
        let ghost p = |o: ObjectInfoView|
            local_names::name_problem(o.filename, windows) is Some;
        let mut i: usize = 0;
        while i < found.objects.len()
            invariant
                i <= found.objects@.len(),
                listing == Ok::<ObjectCollection, Error>(found),
                objects == found@.objects,
                p == (|o: ObjectInfoView| local_names::name_problem(o.filename, windows) is Some),
                forall|j: int| 0 <= j < i ==> !p(#[trigger] objects[j]),
            decreases found.objects.len() - i,
        {
            assert(objects[i as int] == found.objects@[i as int]@);
            match local_names::local_name_problem(found.objects[i].filename.as_str(), windows) {
                Some(problem) => {
                    proof {
                        assert(p(objects[i as int]));
                        crate::search::lemma_first_where_at(objects, p, i as int);
                    }
                    let quoted_name = outside::quote(found.objects[i].filename.as_str());
                    return Err(
                        write_bad_name_error(
                            folder.remote_folder.as_str(),
                            problem,
                            quoted_name.as_str(),
                        ),
                    );
                },
                None => {
                    assert(!p(objects[i as int]));
                },
            }
            i = i + 1;
        }
        proof {
            crate::search::lemma_first_where_none(objects, p);
        }
        self.add(&folder, &found);
        Ok(())
    }
}

/// A number and its noun, in the plural where the number is not one.
pub open spec fn counted(n: nat, noun: Seq<char>) -> Seq<char> {
    text::decimal(n) + " "@ + noun + (if n == 1 {
        ""@
    } else {
        "s"@
    })
}

/// Write a number and its noun.
pub fn count(n: usize, noun: &str) -> (r: String)
    ensures
        r@ == counted(n as nat, noun@),
{
    let mut r = text::write_count(n);
    r.append(" ");
    r.append(noun);
    if n == 1 {
        r.append("");
    } else {
        r.append("s");
    }
    r
}

/// The entries of a plan, folders before files.
pub open spec fn entries_of(plan: FolderPlanView) -> Seq<(Seq<char>, Seq<Seq<char>>)> {
    plan.folders.map_values(|f: PlannedFolderView| (f.remote_path, f.local_path))
        + plan.files.map_values(|f: PlannedFileView| (f.remote_path, f.local_path))
}

/// Entries as pairs of a remote and a local path.
pub open spec fn entry_views(entries: Seq<PlanEntry>) -> Seq<(Seq<char>, Seq<Seq<char>>)> {
    entries.map_values(|e: PlanEntry| (e.remote_path@, e.local_path@))
}

impl FolderPlan {
    /// Every planned folder and file, with where it comes from and where it goes.
    pub fn entries(&self) -> (r: Vec<PlanEntry>)
        ensures
            entry_views(r@) == entries_of(self@),
    {
        let mut r: Vec<PlanEntry> = Vec::new();
        let mut i: usize = 0;
        while i < self.folders.len()
            invariant
                i <= self.folders@.len(),
                r@.len() == i,
                forall|k: int|
                    0 <= k < i ==> entry_views(r@)[k] == #[trigger] entries_of(self@)[k],
            decreases self.folders.len() - i,
        {
            let ghost before = entry_views(r@);
            r.push(
                PlanEntry {
                    remote_path: self.folders[i].remote_path.clone(),
                    local_path: self.folders[i].local_path.clone(),
                },
            );
            assert(forall|k: int| 0 <= k < i ==> entry_views(r@)[k] == before[k]);
            i = i + 1;
        }
        let mut k: usize = 0;
        while k < self.files.len()
            invariant
                k <= self.files@.len(),
                r@.len() == self.folders@.len() + k,
                forall|j: int|
                    0 <= j < r@.len() ==> entry_views(r@)[j] == #[trigger] entries_of(self@)[j],
            decreases self.files.len() - k,
        {
            let ghost before = entry_views(r@);
            r.push(
                PlanEntry {
                    remote_path: self.files[k].remote_path.clone(),
                    local_path: self.files[k].local_path.clone(),
                },
            );
            assert(forall|j: int| 0 <= j < before.len() ==> entry_views(r@)[j] == before[j]);
            k = k + 1;
        }
        assert(entry_views(r@) =~= entries_of(self@));
        r
    }

    /// The progress line shown while folders are being listed.
    pub fn listing_progress(&self) -> (r: String)
        ensures
            r@ == "\rlisting: "@ + counted(self@.files.len(), "file"@) + ", "@ + counted(
                self@.folders.len(),
                "folder"@,
            ),
    {
        let mut r = "\rlisting: ".to_owned();
        r.append(count(self.files.len(), "file").as_str());
        r.append(", ");
        r.append(count(self.folders.len(), "folder").as_str());
        r
    }
}

/// A walk as it starts: one folder to list, and nothing planned.
pub open spec fn fresh_walk(root: Option<ObjectHandle>, remote_root: Seq<char>) -> FolderWalkView {
    FolderWalkView {
        to_visit: seq![
            PendingFolderView { parent: root, remote_folder: remote_root, local_folder: Seq::empty() },
        ],
        plan: FolderPlanView {
            folders: Seq::empty(),
            files: Seq::empty(),
            skipped: Seq::empty(),
        },
    }
}

/// What a walk comes to when the device answers its listings so, one after another. Answers that come
/// when no folder is left are not used.
pub open spec fn walk_of(
    root: Option<ObjectHandle>,
    remote_root: Seq<char>,
    answers: Seq<Result<ObjectCollectionView, error::ErrorView>>,
    windows: bool,
) -> Result<FolderWalkView, CliErrorView>
    decreases answers.len(),
{
    if answers.len() == 0 {
        Ok(fresh_walk(root, remote_root))
    } else {
        match walk_of(root, remote_root, answers.drop_last(), windows) {
            Err(e) => Err(e),
            Ok(walk) => if walk.to_visit.len() == 0 {
                Ok(walk)
            } else {
                walk_step(
                    FolderWalkView { to_visit: walk.to_visit.drop_last(), plan: walk.plan },
                    walk.to_visit.last(),
                    answers.last(),
                    windows,
                )
            },
        }
    }
}

/// Whether every component of a path is a name that can be used locally.
pub open spec fn stays_inside(path: Seq<Seq<char>>, windows: bool) -> bool {
    forall|i: int|
        0 <= i < path.len() ==> local_names::name_problem(#[trigger] path[i], windows) is None
}

/// Whether a path is the destination itself or one of the first `n` planned folders.
pub open spec fn is_planned_folder(
    folders: Seq<PlannedFolderView>,
    n: int,
    path: Seq<Seq<char>>,
) -> bool {
    path.len() == 0 || exists|j: int| 0 <= j < n && (#[trigger] folders[j]).local_path == path
}

/// What holds of a walk at every step: no path leaves the destination, every folder comes after the one
/// it lies in, and every file and every folder still to be listed lies in a folder that is planned.
pub open spec fn walk_is_sound(walk: FolderWalkView, windows: bool) -> bool {
    let folders = walk.plan.folders;
    &&& forall|i: int|
        0 <= i < folders.len() ==> {
            let path = (#[trigger] folders[i]).local_path;
            path.len() > 0 && stays_inside(path, windows) && is_planned_folder(
                folders,
                i,
                path.drop_last(),
            )
        }
    &&& forall|i: int|
        0 <= i < walk.plan.files.len() ==> {
            let path = (#[trigger] walk.plan.files[i]).local_path;
            path.len() > 0 && stays_inside(path, windows) && is_planned_folder(
                folders,
                folders.len() as int,
                path.drop_last(),
            )
        }
    &&& forall|i: int|
        0 <= i < walk.to_visit.len() ==> {
            let path = (#[trigger] walk.to_visit[i]).local_folder;
            stays_inside(path, windows) && is_planned_folder(folders, folders.len() as int, path)
        }
}

/// Every folder found in a listing is planned and queued, under a usable name in the listed folder.
proof fn lemma_planned(objects: Seq<ObjectInfoView>, folder: PendingFolderView, windows: bool)
    requires
        first_bad_name(objects, windows) is None,
        stays_inside(folder.local_folder, windows),
    ensures
        planned_folders(objects, folder).len() == pending_folders(objects, folder).len(),
        planned_folders(objects, folder).len() + planned_files(objects, folder).len()
            == objects.len(),
        forall|i: int|
            0 <= i < planned_folders(objects, folder).len() ==> {
                let path = (#[trigger] planned_folders(objects, folder)[i]).local_path;
                path.len() > 0 && stays_inside(path, windows) && path.drop_last()
                    == folder.local_folder && pending_folders(objects, folder)[i].local_folder
                    == path
            },
        forall|i: int|
            0 <= i < planned_files(objects, folder).len() ==> {
                let path = (#[trigger] planned_files(objects, folder)[i]).local_path;
                path.len() > 0 && stays_inside(path, windows) && path.drop_last()
                    == folder.local_folder
            },
    decreases objects.len(),
{
    if objects.len() > 0 {
        let p = |o: ObjectInfoView| local_names::name_problem(o.filename, windows) is Some;
        crate::search::lemma_first_where(objects, p);
        let front = objects.drop_last();
        assert forall|j: int| 0 <= j < front.len() implies !p(#[trigger] front[j]) by {
            assert(front[j] == objects[j]);
        }
        crate::search::lemma_first_where_none(front, p);
        lemma_planned(front, folder, windows);
        let o = objects.last();
        assert(!p(objects[objects.len() - 1]));
        let path = folder.local_folder.push(o.filename);
        assert(path.drop_last() =~= folder.local_folder);
        assert forall|i: int| 0 <= i < path.len() implies local_names::name_problem(
            #[trigger] path[i],
            windows,
        ) is None by {
            if i < folder.local_folder.len() {
                assert(path[i] == folder.local_folder[i]);
            }
        }
    }
}

/// One more listing keeps a walk sound.
proof fn lemma_step_is_sound(
    walk: FolderWalkView,
    folder: PendingFolderView,
    found: ObjectCollectionView,
    windows: bool,
)
    requires
        walk_is_sound(walk, windows),
        stays_inside(folder.local_folder, windows),
        is_planned_folder(
            walk.plan.folders,
            walk.plan.folders.len() as int,
            folder.local_folder,
        ),
        first_bad_name(found.objects, windows) is None,
    ensures
        walk_is_sound(walked(walk, folder, found), windows),
{
    lemma_planned(found.objects, folder, windows);
    let after = walked(walk, folder, found);
    let old_folders = walk.plan.folders;
    let folders = after.plan.folders;
    assert forall|n: int, path: Seq<Seq<char>>|
        0 <= n <= old_folders.len() && #[trigger] is_planned_folder(
            old_folders,
            n,
            path,
        ) implies is_planned_folder(folders, n, path) && is_planned_folder(
        folders,
        folders.len() as int,
        path,
    ) by {
        if path.len() > 0 {
            let j = choose|j: int|
                0 <= j < n && (#[trigger] old_folders[j]).local_path == path;
            assert(folders[j] == old_folders[j]);
        }
    }
    assert forall|i: int| 0 <= i < folders.len() implies {
        let path = (#[trigger] folders[i]).local_path;
        path.len() > 0 && stays_inside(path, windows) && is_planned_folder(
            folders,
            i,
            path.drop_last(),
        )
    } by {
        let old_len = old_folders.len() as int;
        if i < old_len {
            assert(folders[i] == old_folders[i]);
            assert(is_planned_folder(old_folders, i, old_folders[i].local_path.drop_last()));
        } else {
            assert(folders[i] == planned_folders(found.objects, folder)[i - old_len]);
            assert(is_planned_folder(old_folders, old_len, folder.local_folder));
            if folder.local_folder.len() > 0 {
                let j = choose|j: int|
                    0 <= j < old_len && (#[trigger] folders[j]).local_path == folder.local_folder;
                assert(folders[j].local_path == folder.local_folder);
            }
        }
    }
    assert forall|i: int| 0 <= i < after.plan.files.len() implies {
        let path = (#[trigger] after.plan.files[i]).local_path;
        path.len() > 0 && stays_inside(path, windows) && is_planned_folder(
            folders,
            folders.len() as int,
            path.drop_last(),
        )
    } by {
        let old_len = walk.plan.files.len() as int;
        if i < old_len {
            assert(after.plan.files[i] == walk.plan.files[i]);
            assert(is_planned_folder(
                old_folders,
                old_folders.len() as int,
                walk.plan.files[i].local_path.drop_last(),
            ));
        } else {
            assert(after.plan.files[i] == planned_files(found.objects, folder)[i - old_len]);
        }
    }
    assert forall|i: int| 0 <= i < after.to_visit.len() implies {
        let path = (#[trigger] after.to_visit[i]).local_folder;
        stays_inside(path, windows) && is_planned_folder(folders, folders.len() as int, path)
    } by {
        let old_len = walk.to_visit.len() as int;
        if i < old_len {
            assert(after.to_visit[i] == walk.to_visit[i]);
            assert(is_planned_folder(
                old_folders,
                old_folders.len() as int,
                walk.to_visit[i].local_folder,
            ));
        } else {
            let k = i - old_len;
            assert(after.to_visit[i] == pending_folders(found.objects, folder)[k]);
            assert(folders[old_folders.len() + k] == planned_folders(found.objects, folder)[k]);
        }
    }
}

/// Whatever the device answers, what is planned never leaves the destination, a folder is planned before
/// what lies in it, and every file lies in the destination or in a planned folder.
pub proof fn law_plans_stay_inside(
    root: Option<ObjectHandle>,
    remote_root: Seq<char>,
    answers: Seq<Result<ObjectCollectionView, error::ErrorView>>,
    windows: bool,
)
    ensures
        walk_of(root, remote_root, answers, windows) matches Ok(walk) ==> walk_is_sound(
            walk,
            windows,
        ),
    decreases answers.len(),
{
    if answers.len() > 0 {
        law_plans_stay_inside(root, remote_root, answers.drop_last(), windows);
        if let Ok(walk) = walk_of(root, remote_root, answers.drop_last(), windows) {
            if walk.to_visit.len() > 0 {
                let folder = walk.to_visit.last();
                let popped = FolderWalkView { to_visit: walk.to_visit.drop_last(), plan: walk.plan };
                assert(walk.to_visit[walk.to_visit.len() - 1] == folder);
                assert forall|i: int| 0 <= i < popped.to_visit.len() implies {
                    let path = (#[trigger] popped.to_visit[i]).local_folder;
                    stays_inside(path, windows) && is_planned_folder(
                        popped.plan.folders,
                        popped.plan.folders.len() as int,
                        path,
                    )
                } by {
                    assert(popped.to_visit[i] == walk.to_visit[i]);
                }
                if let Ok(found) = answers.last() {
                    if first_bad_name(found.objects, windows) is None {
                        lemma_step_is_sound(popped, folder, found, windows);
                    }
                }
            }
        }
    } else {
        let walk = fresh_walk(root, remote_root);
        assert(walk.to_visit[0].local_folder.len() == 0);
    }
}

/// How many objects the answers describe.
pub open spec fn described(
    answers: Seq<Result<ObjectCollectionView, error::ErrorView>>,
) -> nat
    decreases answers.len(),
{
    if answers.len() == 0 {
        0
    } else {
        described(answers.drop_last()) + (match answers.last() {
            Ok(found) => found.objects.len(),
            Err(_) => 0,
        })
    }
}

/// How many objects the answers leave undescribed.
pub open spec fn undescribed(
    answers: Seq<Result<ObjectCollectionView, error::ErrorView>>,
) -> nat
    decreases answers.len(),
{
    if answers.len() == 0 {
        0
    } else {
        undescribed(answers.drop_last()) + (match answers.last() {
            Ok(found) => found.skipped.len(),
            Err(_) => 0,
        })
    }
}

/// Whether each answer was asked for: the walk had not failed, and a folder was left to list.
pub open spec fn each_was_asked_for(
    root: Option<ObjectHandle>,
    remote_root: Seq<char>,
    answers: Seq<Result<ObjectCollectionView, error::ErrorView>>,
    windows: bool,
) -> bool
    decreases answers.len(),
{
    answers.len() == 0 || (each_was_asked_for(root, remote_root, answers.drop_last(), windows) && (
    walk_of(root, remote_root, answers.drop_last(), windows) matches Ok(walk)
        && walk.to_visit.len() > 0))
}

/// The walk keeps count: as many objects are planned as were described, as many are reported as were not, and
/// as many folders were listed or wait to be as the root and the planned ones make.
pub proof fn law_a_walk_keeps_count(
    root: Option<ObjectHandle>,
    remote_root: Seq<char>,
    answers: Seq<Result<ObjectCollectionView, error::ErrorView>>,
    windows: bool,
)
    requires
        each_was_asked_for(root, remote_root, answers, windows),
    ensures
        walk_of(root, remote_root, answers, windows) matches Ok(walk) ==> {
            &&& walk.plan.folders.len() + walk.plan.files.len() == described(answers)
            &&& walk.plan.skipped.len() == undescribed(answers)
            &&& answers.len() + walk.to_visit.len() == 1 + walk.plan.folders.len()
        },
    decreases answers.len(),
{
    if answers.len() > 0 {
        let front = answers.drop_last();
        law_a_walk_keeps_count(root, remote_root, front, windows);
        law_plans_stay_inside(root, remote_root, front, windows);
        if let Ok(walk) = walk_of(root, remote_root, front, windows) {
            let folder = walk.to_visit.last();
            assert(walk.to_visit[walk.to_visit.len() - 1] == folder);
            if let Ok(found) = answers.last() {
                if first_bad_name(found.objects, windows) is None {
                    lemma_planned(found.objects, folder, windows);
                }
            }
        }
    }
}

} // verus!
