//! Downloading a planned folder: the destination is made, the plan is held against how it tells names
//! apart, and only then are folders made and files downloaded, in the plan's order.

use vstd::prelude::*;

use crate::cli::commands::folder_plan;
use crate::cli::commands::folder_plan::{FolderPlan, FolderPlanView, SkippedRow};
use crate::cli::commands::get;
use crate::cli::commands::get::{LocalFailure, LocalFailureView};
use crate::cli::commands::local_names;
use crate::cli::commands::local_names::LocalKeyView;
use crate::cli::error;
use crate::cli::error::{CliError, CliErrorKind, CliErrorView};
use crate::text;

verus! {

/// What a folder's download does next.
#[derive(Debug)]
pub enum FolderAction {
    /// Make the destination folder.
    CreateRoot,
    /// Find out whether the destination tells names apart by case.
    ProbeCase,
    /// Make a planned folder.
    CreateFolder(usize),
    /// Download a planned file.
    Download(usize),
    /// Remove the destination folder, which is still empty, and fail.
    RemoveRoot(CliError),
    Fail(CliError),
    Done,
}

/// A [`FolderAction`] with its errors as views.
pub enum FolderActionView {
    CreateRoot,
    ProbeCase,
    CreateFolder(int),
    Download(int),
    RemoveRoot(CliErrorView),
    Fail(CliErrorView),
    Done,
}

impl View for FolderAction {
    type V = FolderActionView;

    open spec fn view(&self) -> FolderActionView {
        match self {
            FolderAction::CreateRoot => FolderActionView::CreateRoot,
            FolderAction::ProbeCase => FolderActionView::ProbeCase,
            FolderAction::CreateFolder(i) => FolderActionView::CreateFolder(*i as int),
            FolderAction::Download(i) => FolderActionView::Download(*i as int),
            FolderAction::RemoveRoot(e) => FolderActionView::RemoveRoot(e@),
            FolderAction::Fail(e) => FolderActionView::Fail(e@),
            FolderAction::Done => FolderActionView::Done,
        }
    }
}

/// How a step of a folder's download went.
#[derive(Debug)]
pub enum FolderEvent {
    RootCreated(Result<(), LocalFailure>),
    CaseProbed(Result<bool, LocalFailure>),
    FolderCreated(Result<(), LocalFailure>),
    Downloaded(Result<u64, CliError>),
}

/// A [`FolderEvent`] with its errors as views.
pub enum FolderEventView {
    RootCreated(Result<(), LocalFailureView>),
    CaseProbed(Result<bool, LocalFailureView>),
    FolderCreated(Result<(), LocalFailureView>),
    Downloaded(Result<u64, CliErrorView>),
}

/// A step's result with its failure as a view.
pub open spec fn failure_view<T>(r: Result<T, LocalFailure>) -> Result<T, LocalFailureView> {
    match r {
        Ok(v) => Ok(v),
        Err(e) => Err(e@),
    }
}

impl View for FolderEvent {
    type V = FolderEventView;

    open spec fn view(&self) -> FolderEventView {
        match self {
            FolderEvent::RootCreated(r) => FolderEventView::RootCreated(failure_view(*r)),
            FolderEvent::CaseProbed(r) => FolderEventView::CaseProbed(failure_view(*r)),
            FolderEvent::FolderCreated(r) => FolderEventView::FolderCreated(failure_view(*r)),
            FolderEvent::Downloaded(r) => FolderEventView::Downloaded(error::cli_outcome(*r)),
        }
    }
}

/// The download of a planned folder.
#[derive(Debug)]
pub struct FolderDownload {
    pub plan: FolderPlan,
    /// The destination folder was there before.
    pub root_existed: bool,
    /// The bytes of the files downloaded so far.
    pub bytes: u64,
    pub action: FolderAction,
}

/// A [`FolderDownload`] with its parts as views.
pub struct FolderDownloadView {
    pub plan: FolderPlanView,
    pub root_existed: bool,
    pub bytes: u64,
    pub action: FolderActionView,
}

impl View for FolderDownload {
    type V = FolderDownloadView;

    open spec fn view(&self) -> FolderDownloadView {
        FolderDownloadView {
            plan: self.plan@,
            root_existed: self.root_existed,
            bytes: self.bytes,
            action: self.action@,
        }
    }
}

/// Where the entries of a plan would land.
pub open spec fn plan_keys(plan: FolderPlanView, case_insensitive: bool) -> Seq<LocalKeyView> {
    folder_plan::entries_of(plan).map_values(
        |e: (Seq<char>, Seq<Seq<char>>)| local_names::key_of(e.1, case_insensitive),
    )
}

/// The first two entries of a plan that would land on the same local path.
pub open spec fn plan_collision(plan: FolderPlanView, case_insensitive: bool) -> Option<(int, int)> {
    local_names::first_repeat(plan_keys(plan, case_insensitive))
}

/// The error about two entries that would land on the same local path.
pub open spec fn collision_error(first: Seq<char>, second: Seq<char>) -> CliErrorView {
    CliErrorView::Plain {
        kind: CliErrorKind::RemotePath,
        message: first + " and "@ + second
            + " would be saved to the same local path; nothing was downloaded"@,
    }
}

/// Whether a plan fits a destination.
pub open spec fn fits(plan: FolderPlanView, probed: Result<bool, LocalFailureView>) -> Result<
    (),
    CliErrorView,
> {
    match probed {
        Err(e) => Err(get::local_error("check local folder "@ + e.path + ": "@ + e.reason)),
        Ok(case_insensitive) => match plan_collision(plan, case_insensitive) {
            Some((i, j)) => Err(
                collision_error(
                    folder_plan::entries_of(plan)[i].0,
                    folder_plan::entries_of(plan)[j].0,
                ),
            ),
            None => Ok(()),
        },
    }
}

/// Refuse a plan in which two entries would land on the same local path, given whether the destination
/// tells names apart by case.
pub fn check_no_collisions(plan: &FolderPlan, probed: Result<bool, LocalFailure>) -> (r: Result<
    (),
    CliError,
>)
    ensures
        error::cli_outcome(r) == fits(plan@, failure_view(probed)),
{
    match probed {
        Err(e) => Err(folder_error("check local folder ", &e)),
        Ok(case_insensitive) => {
            let entries = plan.entries();
            proof {
                assert forall|k: int| 0 <= k < entries@.len() implies (#[trigger] entries@[k]).local_path@
                    == folder_plan::entries_of(plan@)[k].1 && entries@[k].remote_path@
                    == folder_plan::entries_of(plan@)[k].0 by {
                    assert(folder_plan::entry_views(entries@)[k] == folder_plan::entries_of(plan@)[k]);
                }
                assert(entries@.len() == folder_plan::entry_views(entries@).len());
                assert(local_names::entry_keys(entries@, case_insensitive) =~= plan_keys(
                    plan@,
                    case_insensitive,
                ));
            }
            match local_names::find_collision(&entries, case_insensitive) {
                Some((first, second)) => {
                    let mut message = first.to_owned();
                    message.append(" and ");
                    message.append(second);
                    message.append(
                        " would be saved to the same local path; nothing was downloaded",
                    );
                    Err(CliError::Plain { kind: CliErrorKind::RemotePath, message })
                },
                None => Ok(()),
            }
        },
    }
}

/// A failure that is about a local folder.
fn folder_error(what: &str, failure: &LocalFailure) -> (r: CliError)
    ensures
        r@ == get::local_error(what@ + failure@.path + ": "@ + failure@.reason),
{
    let mut message = what.to_owned();
    message.append(failure.path.as_str());
    message.append(": ");
    message.append(failure.reason.as_str());
    CliError::Plain { kind: CliErrorKind::Other, message }
}

/// Whether an event answers an action.
pub open spec fn answers(action: FolderActionView, event: FolderEventView) -> bool {
    match action {
        FolderActionView::CreateRoot => event is RootCreated,
        FolderActionView::ProbeCase => event is CaseProbed,
        FolderActionView::CreateFolder(_) => event is FolderCreated,
        FolderActionView::Download(_) => event is Downloaded,
        _ => false,
    }
}

/// The action once the first `n` files are there.
pub open spec fn file_from(plan: FolderPlanView, n: int) -> FolderActionView {
    if n < plan.files.len() {
        FolderActionView::Download(n)
    } else {
        FolderActionView::Done
    }
}

/// The action once the first `n` folders are there.
pub open spec fn folder_from(plan: FolderPlanView, n: int) -> FolderActionView {
    if n < plan.folders.len() {
        FolderActionView::CreateFolder(n)
    } else {
        file_from(plan, 0)
    }
}

/// The action after an event.
pub open spec fn after_event(d: FolderDownloadView, event: FolderEventView) -> FolderActionView {
    match event {
        FolderEventView::RootCreated(Ok(_)) => FolderActionView::ProbeCase,
        FolderEventView::RootCreated(Err(e)) => FolderActionView::Fail(
            get::local_error("create local folder "@ + e.path + ": "@ + e.reason),
        ),
        FolderEventView::CaseProbed(probed) => match fits(d.plan, probed) {
            Err(e) => if d.root_existed {
                FolderActionView::Fail(e)
            } else {
                FolderActionView::RemoveRoot(e)
            },
            Ok(_) => folder_from(d.plan, 0),
        },
        FolderEventView::FolderCreated(Ok(_)) => match d.action {
            FolderActionView::CreateFolder(i) => folder_from(d.plan, i + 1),
            _ => d.action,
        },
        FolderEventView::FolderCreated(Err(e)) => FolderActionView::Fail(
            get::local_error("create local folder "@ + e.path + ": "@ + e.reason),
        ),
        FolderEventView::Downloaded(Ok(_)) => match d.action {
            FolderActionView::Download(i) => file_from(d.plan, i + 1),
            _ => d.action,
        },
        FolderEventView::Downloaded(Err(e)) => FolderActionView::Fail(e),
    }
}

/// The bytes after an event.
pub open spec fn bytes_after(d: FolderDownloadView, event: FolderEventView) -> int {
    match event {
        FolderEventView::Downloaded(Ok(n)) => d.bytes + n,
        _ => d.bytes as int,
    }
}

/// The download after an event.
pub open spec fn folder_step(d: FolderDownloadView, event: FolderEventView) -> FolderDownloadView {
    FolderDownloadView {
        plan: d.plan,
        root_existed: d.root_existed,
        bytes: bytes_after(d, event) as u64,
        action: after_event(d, event),
    }
}

/// Whether the index in an action is one of the plan.
pub open spec fn is_well_placed(d: FolderDownloadView) -> bool {
    match d.action {
        FolderActionView::CreateFolder(i) => 0 <= i < d.plan.folders.len(),
        FolderActionView::Download(i) => 0 <= i < d.plan.files.len(),
        _ => true,
    }
}

impl FolderDownload {
    /// A download as planned.
    pub fn new(plan: FolderPlan, root_existed: bool) -> (r: Self)
        ensures
            r@ == (FolderDownloadView {
                plan: plan@,
                root_existed,
                bytes: 0,
                action: FolderActionView::CreateRoot,
            }),
            is_well_placed(r@),
    {
        FolderDownload { plan, root_existed, bytes: 0, action: FolderAction::CreateRoot }
    }

    /// The action once the first `n` files are there.
    fn file_action(&self, n: usize) -> (r: FolderAction)
        ensures
            r@ == file_from(self@.plan, n as int),
    {
        if n < self.plan.files.len() {
            FolderAction::Download(n)
        } else {
            FolderAction::Done
        }
    }

    /// The action once the first `n` folders are there.
    fn folder_action(&self, n: usize) -> (r: FolderAction)
        ensures
            r@ == folder_from(self@.plan, n as int),
    {
        if n < self.plan.folders.len() {
            FolderAction::CreateFolder(n)
        } else {
            self.file_action(0)
        }
    }

    /// Take how the action went, and settle the next one. The bytes of all files together must stay
    /// countable.
    pub fn step(&mut self, event: FolderEvent)
        requires
            is_well_placed(old(self)@),
            answers(old(self)@.action, event@),
            bytes_after(old(self)@, event@) <= u64::MAX,
        ensures
            final(self)@ == folder_step(old(self)@, event@),
            is_well_placed(final(self)@),
    {
        let folders: usize = self.plan.folders.len();
        let files: usize = self.plan.files.len();
        assert(self@.plan.folders.len() == folders && self@.plan.files.len() == files);
        let action = match event {
            FolderEvent::RootCreated(r) => match r {
                Ok(_) => FolderAction::ProbeCase,
                Err(e) => FolderAction::Fail(folder_error("create local folder ", &e)),
            },
            FolderEvent::CaseProbed(probed) => match check_no_collisions(&self.plan, probed) {
                Err(e) => if self.root_existed {
                    FolderAction::Fail(e)
                } else {
                    FolderAction::RemoveRoot(e)
                },
                Ok(_) => self.folder_action(0),
            },
            FolderEvent::FolderCreated(r) => match r {
                Ok(_) => match &self.action {
                    FolderAction::CreateFolder(i) => self.folder_action(*i + 1),
                    _ => FolderAction::Done,
                },
                Err(e) => FolderAction::Fail(folder_error("create local folder ", &e)),
            },
            FolderEvent::Downloaded(r) => match r {
                Ok(n) => {
                    self.bytes = self.bytes + n;
                    match &self.action {
                        FolderAction::Download(i) => self.file_action(*i + 1),
                        _ => FolderAction::Done,
                    }
                },
                Err(e) => FolderAction::Fail(e),
            },
        };
        self.action = action;
    }

    /// What the download came to, once it is over: the bytes of all files and what had to be left out,
    /// or why it failed. Before that there is nothing to say.
    pub fn finish(self) -> (r: Option<Result<(u64, FolderPlan), CliError>>)
        ensures
            match self@.action {
                FolderActionView::Done => r matches Some(Ok((bytes, plan))) && bytes == self@.bytes
                    && plan@ == self@.plan,
                FolderActionView::RemoveRoot(e) => r matches Some(Err(x)) && x@ == e,
                FolderActionView::Fail(e) => r matches Some(Err(x)) && x@ == e,
                _ => r is None,
            },
    {
        match self.action {
            FolderAction::Done => Some(Ok((self.bytes, self.plan))),
            FolderAction::RemoveRoot(e) => Some(Err(e)),
            FolderAction::Fail(e) => Some(Err(e)),
            _ => None,
        }
    }
}

/// A download as it starts.
pub open spec fn fresh_download(plan: FolderPlanView, root_existed: bool) -> FolderDownloadView {
    FolderDownloadView { plan, root_existed, bytes: 0, action: FolderActionView::CreateRoot }
}

/// The download after events, one after another.
pub open spec fn folder_run(
    start: FolderDownloadView,
    events: Seq<FolderEventView>,
) -> FolderDownloadView
    decreases events.len(),
{
    if events.len() == 0 {
        start
    } else {
        folder_step(folder_run(start, events.drop_last()), events.last())
    }
}

/// Whether events, one after another, each answer the action before them.
pub open spec fn is_folder_run(start: FolderDownloadView, events: Seq<FolderEventView>) -> bool
    decreases events.len(),
{
    events.len() == 0 || (is_folder_run(start, events.drop_last()) && answers(
        folder_run(start, events.drop_last()).action,
        events.last(),
    ))
}

/// Nothing below the destination is written before the plan is known to fit: whenever a folder is to be
/// made, a file is to be downloaded or all is done, the case probe was answered, and under its answer no
/// two entries land on the same path. And the destination folder is removed again only where it was not
/// there before and nothing was put into it.
pub proof fn law_nothing_is_written_before_the_plan_fits(
    plan: FolderPlanView,
    root_existed: bool,
    events: Seq<FolderEventView>,
)
    requires
        is_folder_run(fresh_download(plan, root_existed), events),
    ensures
        ({
            let d = folder_run(fresh_download(plan, root_existed), events);
            &&& d.plan == plan
            &&& d.root_existed == root_existed
            &&& is_well_placed(d)
            &&& (d.action is CreateFolder || d.action is Download || d.action is Done)
                ==> events.len() >= 2 && (events[1] matches FolderEventView::CaseProbed(Ok(ignored))
                && plan_collision(plan, ignored) is None)
            &&& d.action is RemoveRoot ==> !root_existed && events.len() == 2
            &&& d.action is CreateRoot ==> events.len() == 0
            &&& d.action is ProbeCase ==> events.len() == 1
        }),
    decreases events.len(),
{
    if events.len() > 0 {
        let front = events.drop_last();
        law_nothing_is_written_before_the_plan_fits(plan, root_existed, front);
        let before = folder_run(fresh_download(plan, root_existed), front);
        assert(events[events.len() - 1] == events.last());
        if front.len() >= 2 {
            assert(front[1] == events[1]);
        }
    }
}

/// How many folders the action says are made, and how many files downloaded.
pub open spec fn progress_of(d: FolderDownloadView) -> (int, int) {
    match d.action {
        FolderActionView::CreateFolder(i) => (i, 0int),
        FolderActionView::Download(i) => (d.plan.folders.len() as int, i),
        FolderActionView::Done => (d.plan.folders.len() as int, d.plan.files.len() as int),
        _ => (0int, 0int),
    }
}

/// Whether an event says that a folder was made.
pub open spec fn folders_made(events: Seq<FolderEventView>) -> int
    decreases events.len(),
{
    if events.len() == 0 {
        0
    } else {
        folders_made(events.drop_last()) + (if events.last() matches FolderEventView::FolderCreated(
            Ok(_),
        ) {
            1int
        } else {
            0int
        })
    }
}

/// How many files the events say were downloaded.
pub open spec fn files_downloaded(events: Seq<FolderEventView>) -> int
    decreases events.len(),
{
    if events.len() == 0 {
        0
    } else {
        files_downloaded(events.drop_last()) + (if events.last() matches FolderEventView::Downloaded(
            Ok(_),
        ) {
            1int
        } else {
            0int
        })
    }
}

/// The bytes of the files that the events say were downloaded.
pub open spec fn bytes_downloaded(events: Seq<FolderEventView>) -> nat
    decreases events.len(),
{
    if events.len() == 0 {
        0
    } else {
        bytes_downloaded(events.drop_last()) + (match events.last() {
            FolderEventView::Downloaded(Ok(n)) => n as nat,
            _ => 0nat,
        })
    }
}

/// The bytes reported are those of the files downloaded, all together.
pub proof fn law_bytes_are_the_sum_over_the_files(
    plan: FolderPlanView,
    root_existed: bool,
    events: Seq<FolderEventView>,
)
    requires
        is_folder_run(fresh_download(plan, root_existed), events),
        bytes_downloaded(events) <= u64::MAX,
    ensures
        folder_run(fresh_download(plan, root_existed), events).bytes == bytes_downloaded(events),
    decreases events.len(),
{
    if events.len() > 0 {
        law_bytes_are_the_sum_over_the_files(plan, root_existed, events.drop_last());
    }
}

/// When all is done, every planned folder was made and every planned file downloaded.
pub proof fn law_done_means_all_done(
    plan: FolderPlanView,
    root_existed: bool,
    events: Seq<FolderEventView>,
)
    requires
        is_folder_run(fresh_download(plan, root_existed), events),
    ensures
        ({
            let d = folder_run(fresh_download(plan, root_existed), events);
            &&& !(d.action is Fail) ==> progress_of(d) == (
                folders_made(events),
                files_downloaded(events),
            )
            &&& d.action is Done ==> folders_made(events) == plan.folders.len()
                && files_downloaded(events) == plan.files.len()
        }),
    decreases events.len(),
{
    if events.len() > 0 {
        let front = events.drop_last();
        law_done_means_all_done(plan, root_existed, front);
        law_nothing_is_written_before_the_plan_fits(plan, root_existed, front);
    }
}

/// What is reported of a downloaded file.
#[derive(Debug)]
pub struct GetRow {
    pub remote_path: String,
    pub local_path: String,
    pub filename: String,
    pub handle: u64,
    pub bytes: u64,
}

impl GetRow {
    /// The line that reports the file.
    pub fn line(&self) -> (r: String)
        ensures
            r@ == "downloaded "@ + self.local_path@ + " ("@ + text::decimal(self.bytes as nat)
                + " bytes)"@,
    {
        let mut r = "downloaded ".to_owned();
        r.append(self.local_path.as_str());
        r.append(" (");
        r.append(text::write_decimal(self.bytes).as_str());
        r.append(" bytes)");
        r
    }
}

/// What is reported of a downloaded folder.
#[derive(Debug)]
pub struct GetFolderRow {
    pub remote_path: String,
    pub local_path: String,
    /// `None` for the storage root, which has no handle.
    pub handle: Option<u64>,
    pub files: usize,
    pub folders: usize,
    pub bytes: u64,
    /// Objects the device listed but would not describe.
    pub skipped: Vec<SkippedRow>,
}

impl GetFolderRow {
    /// Report a plan that was carried out.
    pub fn new(
        remote_path: String,
        local_path: String,
        handle: Option<u64>,
        bytes: u64,
        plan: FolderPlan,
    ) -> (r: Self)
        ensures
            r.remote_path@ == remote_path@,
            r.local_path@ == local_path@,
            r.handle == handle,
            r.bytes == bytes,
            r.files == plan@.files.len(),
            r.folders == plan@.folders.len(),
            folder_plan::skipped_row_views(r.skipped@) == plan@.skipped,
    {
        GetFolderRow {
            remote_path,
            local_path,
            handle,
            files: plan.files.len(),
            folders: plan.folders.len(),
            bytes,
            skipped: plan.skipped,
        }
    }

    /// The line that reports the folder.
    pub fn line(&self) -> (r: String)
        ensures
            r@ == "downloaded "@ + self.local_path@ + " ("@ + folder_plan::counted(
                self.files as nat,
                "file"@,
            ) + ", "@ + folder_plan::counted(self.folders as nat, "folder"@) + ", "@
                + text::decimal(self.bytes as nat) + " bytes)"@,
    {
        let mut r = "downloaded ".to_owned();
        r.append(self.local_path.as_str());
        r.append(" (");
        r.append(folder_plan::count(self.files, "file").as_str());
        r.append(", ");
        r.append(folder_plan::count(self.folders, "folder").as_str());
        r.append(", ");
        r.append(text::write_decimal(self.bytes).as_str());
        r.append(" bytes)");
        r
    }
}

} // verus!
