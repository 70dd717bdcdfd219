//! The cancel-health probe of `doctor`: finding a file to download, and telling what a cancelled
//! download did to the device.

use vstd::prelude::*;

use crate::mtp::error::{Error, ErrorView};
use crate::mtp::types::{ObjectHandle, ObjectInfo, ObjectInfoView};
use crate::search;
use crate::text;
use std::collections::VecDeque;

verus! {

/// A file the probe can download and cancel.
#[derive(Debug)]
pub struct ProbeTarget {
    pub handle: ObjectHandle,
    /// Absolute remote path.
    pub path: String,
    pub size: u64,
}

/// A [`ProbeTarget`] with its path as a sequence of characters.
pub struct ProbeTargetView {
    pub handle: ObjectHandle,
    pub path: Seq<char>,
    pub size: u64,
}

impl View for ProbeTarget {
    type V = ProbeTargetView;

    open spec fn view(&self) -> ProbeTargetView {
        ProbeTargetView { handle: self.handle, path: self.path@, size: self.size }
    }
}

/// The size band the search prefers. Anything in it is good enough to stop at.
pub const PROBE_PREFERRED_MIN_SIZE: u64 = 100_000;

pub const PROBE_PREFERRED_MAX_SIZE: u64 = 10_000_000;

/// How far below the storage root the search descends.
pub const PROBE_MAX_DEPTH: usize = 3;

/// How many folders the search lists in total.
pub const PROBE_MAX_FOLDERS: usize = 48;

/// How long the probe's cancel waits for the device to fall silent, in milliseconds.
pub const PROBE_CANCEL_IDLE_MILLIS: u64 = 300;

/// Whether a file lies in the preferred band.
pub open spec fn is_preferred(t: ProbeTargetView) -> bool {
    PROBE_PREFERRED_MIN_SIZE <= t.size <= PROBE_PREFERRED_MAX_SIZE
}

/// The better of the best file so far and another one: a preferred file wins, and otherwise the larger
/// one does, the earlier of two equals.
pub open spec fn better(best: Option<ProbeTargetView>, candidate: ProbeTargetView) -> ProbeTargetView {
    match best {
        Some(held) => if is_preferred(candidate) || candidate.size > held.size {
            candidate
        } else {
            held
        },
        None => candidate,
    }
}

/// The best file after several were offered.
pub open spec fn best_of(best: Option<ProbeTargetView>, offers: Seq<ProbeTargetView>) -> Option<
    ProbeTargetView,
>
    decreases offers.len(),
{
    if offers.len() == 0 {
        best
    } else {
        Some(better(best_of(best, offers.drop_last()), offers.last()))
    }
}

/// A target that may be missing, as a view.
pub open spec fn target_view(t: Option<ProbeTarget>) -> Option<ProbeTargetView> {
    match t {
        Some(t) => Some(t@),
        None => None,
    }
}

/// Picks which file the probe downloads. A mid-size file is a preference, never a requirement: any file
/// beats skipping the probe.
#[derive(Debug)]
pub struct ProbePick {
    pub best: Option<ProbeTarget>,
}

impl Default for ProbePick {
    fn default() -> (r: Self)
        ensures
            r.best is None,
    {
        ProbePick { best: None }
    }
}

impl ProbePick {
    /// Offer a candidate. Returns `true` when the pick is final, so that the search can stop.
    pub fn offer(&mut self, candidate: ProbeTarget) -> (r: bool)
        ensures
            r == is_preferred(candidate@),
            target_view(final(self).best) == Some(
                better(target_view(old(self).best), candidate@),
            ),
    {
        let preferred = PROBE_PREFERRED_MIN_SIZE <= candidate.size && candidate.size
            <= PROBE_PREFERRED_MAX_SIZE;
        if preferred {
            self.best = Some(candidate);
            return true;
        }
        let wins = match &self.best {
            Some(best) => candidate.size > best.size,
            None => true,
        };
        if wins {
            self.best = Some(candidate);
        }
        false
    }
}

/// Whether a file is the first of the largest among several.
pub open spec fn is_first_largest(offers: Seq<ProbeTargetView>, k: int) -> bool {
    &&& 0 <= k < offers.len()
    &&& forall|i: int| 0 <= i < offers.len() ==> (#[trigger] offers[i]).size <= offers[k].size
    &&& forall|i: int| 0 <= i < k ==> (#[trigger] offers[i]).size < offers[k].size
}

/// Outside the preferred band the largest file wins, the earliest of equals, and some file always does.
pub proof fn law_the_largest_file_wins(offers: Seq<ProbeTargetView>)
    requires
        offers.len() > 0,
        forall|i: int| 0 <= i < offers.len() ==> !is_preferred(#[trigger] offers[i]),
    ensures
        exists|k: int| #[trigger]
            is_first_largest(offers, k) && best_of(None, offers) == Some(offers[k]),
    decreases offers.len(),
{
    let fewer = offers.drop_last();
    let last = offers.len() - 1;
    assert(offers.last() == offers[last]);
    if fewer.len() == 0 {
        assert(is_first_largest(offers, 0));
    } else {
        assert forall|i: int| 0 <= i < fewer.len() implies !is_preferred(#[trigger] fewer[i]) by {
            assert(fewer[i] == offers[i]);
        }
        law_the_largest_file_wins(fewer);
        let k = choose|k: int| #[trigger]
            is_first_largest(fewer, k) && best_of(None, fewer) == Some(fewer[k]);
        let at = if offers[last].size > fewer[k].size {
            last
        } else {
            k
        };
        assert(is_first_largest(offers, at)) by {
            assert forall|i: int| 0 <= i < offers.len() implies (#[trigger] offers[i]).size
                <= offers[at].size && (i < at ==> offers[i].size < offers[at].size) by {
                if i < fewer.len() {
                    assert(fewer[i] == offers[i]);
                }
            }
        }
        assert(best_of(None, offers) == Some(offers[at]));
    }
}

/// Visit order of folders: user files first, `Android` last.
pub open spec fn priority_of(name: Seq<char>) -> u8 {
    if name == "DCIM"@ || name == "Camera"@ || name == "Download"@ || name == "Downloads"@ || name
        == "Pictures"@ {
        0
    } else if name == "Movies"@ || name == "Music"@ || name == "Documents"@ || name == "Audiobooks"@
        || name == "Podcasts"@ {
        1
    } else if name == "Android"@ {
        3
    } else {
        2
    }
}

/// Visit order for a folder's subfolders: user files first, `Android` last, since that tree is huge and
/// partly unreadable.
pub fn folder_priority(name: &str) -> (r: u8)
    ensures
        r == priority_of(name@),
{
    if text::same(name, "DCIM") || text::same(name, "Camera") || text::same(name, "Download")
        || text::same(name, "Downloads") || text::same(name, "Pictures") {
        0
    } else if text::same(name, "Movies") || text::same(name, "Music") || text::same(
        name,
        "Documents",
    ) || text::same(name, "Audiobooks") || text::same(name, "Podcasts") {
        1
    } else if text::same(name, "Android") {
        3
    } else {
        2
    }
}

/// A folder waiting to be listed.
#[derive(Debug)]
pub struct ProbeFolder {
    /// `None` for the storage root.
    pub parent: Option<ObjectHandle>,
    /// Its absolute remote path, empty for the root.
    pub prefix: String,
    pub depth: usize,
}

/// A [`ProbeFolder`] with its path as a sequence of characters.
pub struct ProbeFolderView {
    pub parent: Option<ObjectHandle>,
    pub prefix: Seq<char>,
    pub depth: int,
}

impl View for ProbeFolder {
    type V = ProbeFolderView;

    open spec fn view(&self) -> ProbeFolderView {
        ProbeFolderView { parent: self.parent, prefix: self.prefix@, depth: self.depth as int }
    }
}

/// The path of an object in a folder.
pub open spec fn child_path(prefix: Seq<char>, name: Seq<char>) -> Seq<char> {
    prefix + "/"@ + name
}

/// The files among objects, as probe targets.
pub open spec fn file_targets(objects: Seq<ObjectInfoView>, prefix: Seq<char>) -> Seq<ProbeTargetView>
    decreases objects.len(),
{
    if objects.len() == 0 {
        Seq::empty()
    } else {
        let before = file_targets(objects.drop_last(), prefix);
        let o = objects.last();
        if o.is_folder() {
            before
        } else {
            before.push(
                ProbeTargetView {
                    handle: o.handle,
                    path: child_path(prefix, o.filename),
                    size: o.size,
                },
            )
        }
    }
}

/// The folders of one priority among objects, as folders to list.
pub open spec fn folders_at(
    objects: Seq<ObjectInfoView>,
    folder: ProbeFolderView,
    priority: u8,
) -> Seq<ProbeFolderView>
    decreases objects.len(),
{
    if objects.len() == 0 {
        Seq::empty()
    } else {
        let before = folders_at(objects.drop_last(), folder, priority);
        let o = objects.last();
        if o.is_folder() && priority_of(o.filename) == priority {
            before.push(
                ProbeFolderView {
                    parent: Some(o.handle),
                    prefix: child_path(folder.prefix, o.filename),
                    depth: folder.depth + 1,
                },
            )
        } else {
            before
        }
    }
}

/// The folders among objects in the order they will be listed: by priority, and in the order of the
/// listing within one priority. Below the greatest depth none is listed.
pub open spec fn folders_to_list(objects: Seq<ObjectInfoView>, folder: ProbeFolderView) -> Seq<
    ProbeFolderView,
> {
    if folder.depth < PROBE_MAX_DEPTH {
        folders_at(objects, folder, 0) + folders_at(objects, folder, 1) + folders_at(
            objects,
            folder,
            2,
        ) + folders_at(objects, folder, 3)
    } else {
        Seq::empty()
    }
}

/// The breadth-first search for a file to probe with.
#[derive(Debug)]
pub struct ProbeSearch {
    pub queue: VecDeque<ProbeFolder>,
    pub pick: ProbePick,
    pub folders_listed: usize,
}

/// A [`ProbeSearch`] with its parts as views.
pub struct ProbeSearchView {
    pub queue: Seq<ProbeFolderView>,
    pub best: Option<ProbeTargetView>,
    pub folders_listed: int,
}

/// Folders as views.
pub open spec fn folder_views(folders: Seq<ProbeFolder>) -> Seq<ProbeFolderView> {
    folders.map_values(|f: ProbeFolder| f@)
}

impl View for ProbeSearch {
    type V = ProbeSearchView;

    open spec fn view(&self) -> ProbeSearchView {
        ProbeSearchView {
            queue: folder_views(self.queue@),
            best: target_view(self.pick.best),
            folders_listed: self.folders_listed as int,
        }
    }
}

impl ProbeSearchView {
    /// The search stays within its bounds.
    pub open spec fn wf(self) -> bool {
        &&& 0 <= self.folders_listed <= PROBE_MAX_FOLDERS
        &&& forall|i: int|
            0 <= i < self.queue.len() ==> 0 <= (#[trigger] self.queue[i]).depth <= PROBE_MAX_DEPTH
    }
}

/// Where a search stands: it goes on, or it has its result before the folders ran out.
pub enum SearchState {
    Searching(ProbeSearchView),
    Over(Result<ProbeTargetView, Seq<char>>),
}

/// A search from the storage root on, as it starts.
pub open spec fn fresh_search() -> ProbeSearchView {
    ProbeSearchView {
        queue: seq![ProbeFolderView { parent: None, prefix: Seq::empty(), depth: 0 }],
        best: None,
        folders_listed: 0,
    }
}

/// Whether a search lists another folder: one is left, and not enough have been listed.
pub open spec fn lists_another(s: ProbeSearchView) -> bool {
    s.queue.len() > 0 && s.folders_listed < PROBE_MAX_FOLDERS
}

/// A search once its next folder was handed out.
pub open spec fn handed_out(s: ProbeSearchView) -> ProbeSearchView {
    ProbeSearchView { queue: s.queue.skip(1), folders_listed: s.folders_listed + 1, ..s }
}

/// A search after the listing of a folder: it ends at the first preferred file, or where the storage root
/// will not list; otherwise the files are offered and the subfolders queued. A subfolder that will not list
/// is passed over.
pub open spec fn search_take(
    s: ProbeSearchView,
    folder: ProbeFolderView,
    listing: Result<Seq<ObjectInfoView>, ErrorView>,
) -> SearchState {
    match listing {
        Err(e) => if folder.parent is None {
            SearchState::Over(
                Err("could not list storage root: "@ + crate::mtp::error::error_text(e)),
            )
        } else {
            SearchState::Searching(s)
        },
        Ok(objects) => {
            let targets = file_targets(objects, folder.prefix);
            match search::first_where(targets, |t: ProbeTargetView| is_preferred(t)) {
                Some(i) => SearchState::Over(Ok(targets[i])),
                None => SearchState::Searching(
                    ProbeSearchView {
                        queue: s.queue + folders_to_list(objects, folder),
                        best: best_of(s.best, targets),
                        ..s
                    },
                ),
            }
        },
    }
}

/// A listing as views.
pub open spec fn listing_view(listing: Result<Vec<ObjectInfo>, Error>) -> Result<
    Seq<ObjectInfoView>,
    ErrorView,
> {
    match listing {
        Ok(objects) => Ok(crate::mtp::storage::object_views(objects@)),
        Err(e) => Err(e@),
    }
}

/// How a search ends: with the best file, or with what it covered.
pub open spec fn search_result(s: ProbeSearchView) -> Result<ProbeTargetView, Seq<char>> {
    match s.best {
        Some(best) => Ok(best),
        None => Err(
            "found no file to probe in "@ + text::decimal(s.folders_listed as nat)
                + " folder(s), searching up to "@ + text::decimal(PROBE_MAX_DEPTH as nat)
                + " levels below the storage root. Pass --probe-path /some/file to point the probe at one"@,
        ),
    }
}

/// A search result as a view.
pub open spec fn result_view(r: Result<ProbeTarget, String>) -> Result<ProbeTargetView, Seq<char>> {
    match r {
        Ok(t) => Ok(t@),
        Err(message) => Err(message@),
    }
}

proof fn lemma_folder_depths(objects: Seq<ObjectInfoView>, folder: ProbeFolderView, priority: u8)
    ensures
        forall|i: int|
            0 <= i < folders_at(objects, folder, priority).len() ==> (#[trigger] folders_at(
                objects,
                folder,
                priority,
            )[i]).depth == folder.depth + 1,
    decreases objects.len(),
{
    if objects.len() > 0 {
        lemma_folder_depths(objects.drop_last(), folder, priority);
    }
}

impl ProbeSearch {
    /// A search from the storage root on.
    pub fn new() -> (r: Self)
        ensures
            r@ == fresh_search(),
            r@.wf(),
    {
        let mut queue: VecDeque<ProbeFolder> = VecDeque::new();
        queue.push_back(ProbeFolder { parent: None, prefix: String::new(), depth: 0 });
        let r = ProbeSearch { queue, pick: ProbePick { best: None }, folders_listed: 0 };
        proof {
            reveal_strlit("");
            assert(r.queue@[0].prefix@ =~= Seq::empty());
            assert(r@.queue =~= seq![
                ProbeFolderView { parent: None, prefix: Seq::empty(), depth: 0 },
            ]);
        }
        r
    }

    /// The next folder to list, or `None` when the search is over: nothing is left, or enough folders
    /// have been listed.
    pub fn next(&mut self) -> (r: Option<ProbeFolder>)
        requires
            old(self)@.wf(),
        ensures
            final(self)@.wf(),
            match r {
                Some(folder) => {
                    &&& lists_another(old(self)@)
                    &&& folder@ == old(self)@.queue[0]
                    &&& folder.depth <= PROBE_MAX_DEPTH
                    &&& final(self)@ == handed_out(old(self)@)
                },
                None => !lists_another(old(self)@) && final(self)@ == old(self)@,
            },
    {
        if self.folders_listed >= PROBE_MAX_FOLDERS {
            return None;
        }
        let ghost before = self@;
        match self.queue.pop_front() {
            Some(folder) => {
                self.folders_listed = self.folders_listed + 1;
                proof {
                    assert(folder@ == before.queue[0]);
                    assert(self@.queue =~= before.queue.skip(1));
                }
                Some(folder)
            },
            None => {
                assert(self@.queue =~= before.queue);
                None
            },
        }
    }

    /// Queue the subfolders of one priority.
    fn queue_priority(&mut self, objects: &Vec<ObjectInfo>, folder: &ProbeFolder, priority: u8)
        requires
            folder.depth < PROBE_MAX_DEPTH,
        ensures
            final(self)@ == (ProbeSearchView {
                queue: old(self)@.queue + folders_at(
                    crate::mtp::storage::object_views(objects@),
                    folder@,
                    priority,
                ),
                ..old(self)@
            }),
    {
        let ghost before = self@;
        let ghost views = crate::mtp::storage::object_views(objects@);
        let mut i: usize = 0;
        proof {
            assert(views.take(0) =~= Seq::empty());
            assert(self@.queue =~= before.queue + folders_at(views.take(0), folder@, priority));
        }
        while i < objects.len()
            invariant
                i <= objects@.len(),
                views == crate::mtp::storage::object_views(objects@),
                folder.depth < PROBE_MAX_DEPTH,
                self@ == (ProbeSearchView {
                    queue: before.queue + folders_at(views.take(i as int), folder@, priority),
                    ..before
                }),
            decreases objects.len() - i,
        {
            let object = &objects[i];
            let ghost now = self@;
            proof {
                assert(views.take(i + 1).drop_last() =~= views.take(i as int));
                assert(views.take(i + 1).last() == object@);
            }
            if object.is_folder() && folder_priority(object.filename.as_str()) == priority {
                let mut prefix = folder.prefix.clone();
                prefix.append("/");
                prefix.append(object.filename.as_str());
                let entry = ProbeFolder {
                    parent: Some(object.handle),
                    prefix,
                    depth: folder.depth + 1,
                };
                let ghost view = entry@;
                self.queue.push_back(entry);
                proof {
                    assert(self@.queue =~= now.queue.push(view));
                    assert(self@.queue =~= before.queue + folders_at(
                        views.take(i + 1),
                        folder@,
                        priority,
                    ));
                }
            }
            i = i + 1;
        }
        assert(views.take(i as int) =~= views);
    }

    /// Take the listing of a folder. `Some` ends the search: a preferred file was found, or the storage
    /// root would not list. A subfolder that will not list is passed over.
    pub fn take(&mut self, folder: ProbeFolder, listing: Result<Vec<ObjectInfo>, Error>) -> (r: Option<
        Result<ProbeTarget, String>,
    >)
        requires
            old(self)@.wf(),
            folder.depth <= PROBE_MAX_DEPTH,
        ensures
            final(self)@.wf(),
            match search_take(old(self)@, folder@, listing_view(listing)) {
                SearchState::Searching(s) => r is None && final(self)@ == s,
                SearchState::Over(result) => {
                    &&& r is Some
                    &&& result_view(r->0) == result
                    &&& final(self)@ == (if listing is Err {
                        old(self)@
                    } else {
                        ProbeSearchView { best: None, ..old(self)@ }
                    })
                },
            },
    {
        let objects = match listing {
            Ok(objects) => objects,
            Err(e) => {
                if folder.parent.is_none() {
                    let mut message = "could not list storage root: ".to_owned();
                    message.append(e.describe().as_str());
                    return Some(Err(message));
                }
                return None;
            },
        };
        let ghost before = self@;
        let ghost views = crate::mtp::storage::object_views(objects@);
        let ghost targets = file_targets(views, folder@.prefix);
        let ghost p = |t: ProbeTargetView| is_preferred(t);
        let mut i: usize = 0;
        proof {
            assert(views.take(0) =~= Seq::empty());
        }
        while i < objects.len()
            invariant
                i <= objects@.len(),
                listing == Ok::<Vec<ObjectInfo>, Error>(objects),
                views == crate::mtp::storage::object_views(objects@),
                targets == file_targets(views, folder@.prefix),
                p == (|t: ProbeTargetView| is_preferred(t)),
                before == old(self)@,
                before.wf(),
                self@ == (ProbeSearchView {
                    best: best_of(before.best, file_targets(views.take(i as int), folder@.prefix)),
                    ..before
                }),
                forall|j: int|
                    0 <= j < file_targets(views.take(i as int), folder@.prefix).len() ==> !p(
                        #[trigger] file_targets(views.take(i as int), folder@.prefix)[j],
                    ),
            decreases objects.len() - i,
        {
            let object = &objects[i];
            let ghost so_far = file_targets(views.take(i as int), folder@.prefix);
            let ghost now = self@;
            proof {
                assert(views.take(i + 1).drop_last() =~= views.take(i as int));
                assert(views.take(i + 1).last() == object@);
            }
            if object.is_file() {
                let mut path = folder.prefix.clone();
                path.append("/");
                path.append(object.filename.as_str());
                let candidate = ProbeTarget { handle: object.handle, path, size: object.size };
                let ghost view = candidate@;
                let is_final = self.pick.offer(candidate);
                proof {
                    assert(so_far.push(view).drop_last() =~= so_far);
                    assert(self@.queue == now.queue);
                }
                if is_final {
                    proof {
                        lemma_targets_prefix(views, folder@.prefix, i + 1);
                        let longer = so_far.push(view);
                        assert(longer == file_targets(views.take(i + 1), folder@.prefix));
                        let at = so_far.len() as int;
                        assert(targets.take(longer.len() as int)[at] == longer[at]);
                        assert forall|j: int| 0 <= j < at implies !p(#[trigger] targets[j]) by {
                            assert(targets[j] == targets.take(longer.len() as int)[j]);
                            assert(!p(so_far[j]));
                        }
                        search::lemma_first_where_at(targets, p, at);
                    }
                    match self.pick.best.take() {
                        Some(best) => {
                            return Some(Ok(best));
                        },
                        None => {},
                    }
                }
            }
            i = i + 1;
        }
        proof {
            assert(views.take(i as int) =~= views);
            search::lemma_first_where_none(targets, p);
        }
        if folder.depth < PROBE_MAX_DEPTH {
            let ghost base = self@.queue;
            self.queue_priority(&objects, &folder, 0);
            self.queue_priority(&objects, &folder, 1);
            self.queue_priority(&objects, &folder, 2);
            self.queue_priority(&objects, &folder, 3);
            proof {
                lemma_folder_depths(views, folder@, 0);
                lemma_folder_depths(views, folder@, 1);
                lemma_folder_depths(views, folder@, 2);
                lemma_folder_depths(views, folder@, 3);
            }
        }
        assert(self@.queue =~= before.queue + folders_to_list(views, folder@));
        None
    }

    /// How the search ends: with the best file, or with what it covered.
    pub fn finish(self) -> (r: Result<ProbeTarget, String>)
        ensures
            result_view(r) == search_result(self@),
    {
        match self.pick.best {
            Some(best) => Ok(best),
            None => {
                let mut message = "found no file to probe in ".to_owned();
                message.append(text::write_count(self.folders_listed).as_str());
                message.append(" folder(s), searching up to ");
                message.append(text::write_count(PROBE_MAX_DEPTH).as_str());
                message.append(
                    " levels below the storage root. Pass --probe-path /some/file to point the probe at one",
                );
                Err(message)
            },
        }
    }
}

/// The targets of the first objects are the first targets.
proof fn lemma_targets_prefix(objects: Seq<ObjectInfoView>, prefix: Seq<char>, k: int)
    requires
        0 <= k <= objects.len(),
    ensures
        ({
            let part = file_targets(objects.take(k), prefix);
            let all = file_targets(objects, prefix);
            part.len() <= all.len() && all.take(part.len() as int) == part
        }),
    decreases objects.len() - k,
{
    let part = file_targets(objects.take(k), prefix);
    let all = file_targets(objects, prefix);
    if k == objects.len() {
        assert(objects.take(k) =~= objects);
        assert(all.take(part.len() as int) =~= part);
    } else {
        lemma_targets_prefix(objects, prefix, k + 1);
        assert(objects.take(k + 1).drop_last() =~= objects.take(k));
        let longer = file_targets(objects.take(k + 1), prefix);
        assert(longer.take(part.len() as int) =~= part);
        assert(all.take(part.len() as int) =~= longer.take(part.len() as int));
    }
}

/// A search after these listings, one after another.
pub open spec fn search_run(listings: Seq<Result<Seq<ObjectInfoView>, ErrorView>>) -> SearchState
    decreases listings.len(),
{
    if listings.len() == 0 {
        SearchState::Searching(fresh_search())
    } else {
        match search_run(listings.drop_last()) {
            SearchState::Searching(s) => search_take(handed_out(s), s.queue[0], listings.last()),
            SearchState::Over(result) => SearchState::Over(result),
        }
    }
}

/// Whether each of these listings was asked for.
pub open spec fn is_search_run(listings: Seq<Result<Seq<ObjectInfoView>, ErrorView>>) -> bool
    decreases listings.len(),
{
    listings.len() == 0 || (is_search_run(listings.drop_last()) && (search_run(
        listings.drop_last(),
    ) matches SearchState::Searching(s) && lists_another(s)))
}

/// The folders that a search asked for, one for each listing.
pub open spec fn searched(listings: Seq<Result<Seq<ObjectInfoView>, ErrorView>>) -> Seq<
    ProbeFolderView,
>
    decreases listings.len(),
{
    if listings.len() == 0 {
        Seq::empty()
    } else {
        let before = listings.drop_last();
        searched(before).push(search_run(before)->Searching_0.queue[0])
    }
}

/// The files that a search has seen, in the order in which it saw them.
pub open spec fn seen_files(listings: Seq<Result<Seq<ObjectInfoView>, ErrorView>>) -> Seq<
    ProbeTargetView,
>
    decreases listings.len(),
{
    if listings.len() == 0 {
        Seq::empty()
    } else {
        let before = seen_files(listings.drop_last());
        match listings.last() {
            Ok(objects) => before + file_targets(objects, searched(listings).last().prefix),
            Err(_) => before,
        }
    }
}

/// Offering some files and then others is offering them all.
proof fn lemma_offers_add(
    best: Option<ProbeTargetView>,
    a: Seq<ProbeTargetView>,
    b: Seq<ProbeTargetView>,
)
    ensures
        best_of(best, a + b) == best_of(best_of(best, a), b),
    decreases b.len(),
{
    if b.len() == 0 {
        assert(a + b =~= a);
    } else {
        assert((a + b).drop_last() =~= a + b.drop_last());
        lemma_offers_add(best, a, b.drop_last());
    }
}

/// A search is bounded: it lists at most [`PROBE_MAX_FOLDERS`] folders, none of them more than
/// [`PROBE_MAX_DEPTH`] levels below the storage root.
pub proof fn law_a_search_is_bounded(listings: Seq<Result<Seq<ObjectInfoView>, ErrorView>>)
    requires
        is_search_run(listings),
    ensures
        listings.len() <= PROBE_MAX_FOLDERS,
        searched(listings).len() == listings.len(),
        forall|i: int|
            0 <= i < listings.len() ==> 0 <= (#[trigger] searched(listings)[i]).depth
                <= PROBE_MAX_DEPTH,
        search_run(listings) matches SearchState::Searching(s) ==> s.wf() && s.folders_listed
            == listings.len(),
    decreases listings.len(),
{
    if listings.len() > 0 {
        let fewer = listings.drop_last();
        law_a_search_is_bounded(fewer);
        let s = search_run(fewer)->Searching_0;
        let folder = s.queue[0];
        assert forall|i: int| 0 <= i < listings.len() implies 0 <= (#[trigger] searched(
            listings,
        )[i]).depth <= PROBE_MAX_DEPTH by {
            if i < fewer.len() {
                assert(searched(listings)[i] == searched(fewer)[i]);
            }
        }
        match listings.last() {
            Ok(objects) => {
                lemma_folder_depths(objects, folder, 0);
                lemma_folder_depths(objects, folder, 1);
                lemma_folder_depths(objects, folder, 2);
                lemma_folder_depths(objects, folder, 3);
            },
            Err(_) => {},
        }
    }
}

/// A search finds the best of all the files it has seen: the first file in the preferred band ends it, and
/// for as long as there was none, the largest file of all is held, the earliest of equals. Where it has seen
/// any file at all, it ends with one.
pub proof fn law_a_search_finds_the_best_file(listings: Seq<Result<Seq<ObjectInfoView>, ErrorView>>)
    requires
        is_search_run(listings),
    ensures
        ({
            let files = seen_files(listings);
            let preferred = search::first_where(files, |t: ProbeTargetView| is_preferred(t));
            match search_run(listings) {
                SearchState::Searching(s) => {
                    &&& preferred is None
                    &&& s.best == best_of(None, files)
                    &&& files.len() > 0 ==> exists|k: int| #[trigger]
                        is_first_largest(files, k) && search_result(s) == Ok::<
                            ProbeTargetView,
                            Seq<char>,
                        >(files[k])
                    &&& files.len() == 0 ==> search_result(s) is Err
                },
                SearchState::Over(Ok(target)) => preferred matches Some(i) && target == files[i],
                SearchState::Over(Err(_)) => listings.len() == 1 && listings[0] is Err,
            }
        }),
    decreases listings.len(),
{
    let files = seen_files(listings);
    let p = |t: ProbeTargetView| is_preferred(t);
    if listings.len() == 0 {
        search::lemma_first_where_none(files, p);
    } else {
        let fewer = listings.drop_last();
        let before = seen_files(fewer);
        law_a_search_finds_the_best_file(fewer);
        law_a_search_is_bounded(fewer);
        lemma_only_the_first_is_the_root(fewer);
        let s = search_run(fewer)->Searching_0;
        assert(searched(listings).last() == s.queue[0]);
        search::lemma_first_where(before, p);
        match listings.last() {
            Err(_) => {},
            Ok(objects) => {
                let targets = file_targets(objects, s.queue[0].prefix);
                lemma_offers_add(None, before, targets);
                match search::first_where(targets, p) {
                    Some(i) => {
                        search::lemma_first_where(targets, p);
                        let at = before.len() + i;
                        assert(files[at] == targets[i]);
                        assert forall|j: int| 0 <= j < at implies !p(#[trigger] files[j]) by {
                            if j < before.len() {
                                assert(files[j] == before[j]);
                            } else {
                                assert(files[j] == targets[j - before.len()]);
                            }
                        }
                        search::lemma_first_where_at(files, p, at);
                    },
                    None => {
                        search::lemma_first_where(targets, p);
                        assert forall|j: int| 0 <= j < files.len() implies !p(
                            #[trigger] files[j],
                        ) by {
                            if j < before.len() {
                                assert(files[j] == before[j]);
                            } else {
                                assert(files[j] == targets[j - before.len()]);
                            }
                        }
                        search::lemma_first_where_none(files, p);
                    },
                }
            },
        }
    }
    match search_run(listings) {
        SearchState::Searching(s) => {
            if files.len() > 0 {
                search::lemma_first_where(files, p);
                assert forall|i: int| 0 <= i < files.len() implies !is_preferred(
                    #[trigger] files[i],
                ) by {
                    assert(!p(files[i]));
                }
                law_the_largest_file_wins(files);
            }
        },
        SearchState::Over(_) => {},
    }
}

/// The storage root is listed first, and never again.
proof fn lemma_only_the_first_is_the_root(listings: Seq<Result<Seq<ObjectInfoView>, ErrorView>>)
    requires
        is_search_run(listings),
        search_run(listings) is Searching,
    ensures
        listings.len() > 0 ==> forall|i: int|
            0 <= i < search_run(listings)->Searching_0.queue.len() ==> (
            #[trigger] search_run(listings)->Searching_0.queue[i]).parent is Some,
    decreases listings.len(),
{
    if listings.len() > 0 {
        let fewer = listings.drop_last();
        lemma_only_the_first_is_the_root(fewer);
        let s = search_run(fewer)->Searching_0;
        let now = search_run(listings)->Searching_0;
        match listings.last() {
            Ok(objects) => {
                lemma_subfolders_have_parents(objects, s.queue[0], 0);
                lemma_subfolders_have_parents(objects, s.queue[0], 1);
                lemma_subfolders_have_parents(objects, s.queue[0], 2);
                lemma_subfolders_have_parents(objects, s.queue[0], 3);
            },
            Err(_) => {},
        }
        assert forall|i: int| 0 <= i < now.queue.len() implies (
        #[trigger] now.queue[i]).parent is Some by {
            if i < s.queue.len() - 1 {
                assert(now.queue[i] == s.queue[i + 1]);
            }
        }
    }
}

proof fn lemma_subfolders_have_parents(
    objects: Seq<ObjectInfoView>,
    folder: ProbeFolderView,
    priority: u8,
)
    ensures
        forall|i: int|
            0 <= i < folders_at(objects, folder, priority).len() ==> (#[trigger] folders_at(
                objects,
                folder,
                priority,
            )[i]).parent is Some,
    decreases objects.len(),
{
    if objects.len() > 0 {
        lemma_subfolders_have_parents(objects.drop_last(), folder, priority);
    }
}

/// The folders among objects, in the order of the listing.
pub open spec fn folders_in_order(objects: Seq<ObjectInfoView>, folder: ProbeFolderView) -> Seq<
    ProbeFolderView,
>
    decreases objects.len(),
{
    if objects.len() == 0 {
        Seq::empty()
    } else {
        let before = folders_in_order(objects.drop_last(), folder);
        let o = objects.last();
        if o.is_folder() {
            before.push(
                ProbeFolderView {
                    parent: Some(o.handle),
                    prefix: child_path(folder.prefix, o.filename),
                    depth: folder.depth + 1,
                },
            )
        } else {
            before
        }
    }
}

proof fn lemma_four_parts<A>(a: Seq<A>, b: Seq<A>, c: Seq<A>, d: Seq<A>)
    ensures
        (a + b + c + d).to_multiset() =~= a.to_multiset().add(b.to_multiset()).add(
            c.to_multiset(),
        ).add(d.to_multiset()),
{
    vstd::seq_lib::lemma_multiset_commutative(a, b);
    vstd::seq_lib::lemma_multiset_commutative(a + b, c);
    vstd::seq_lib::lemma_multiset_commutative(a + b + c, d);
}

/// Ordering the subfolders neither loses nor repeats any: above the greatest depth exactly the folders of
/// the listing are queued, user folders first and the `Android` tree last.
pub proof fn law_every_subfolder_is_queued_once(
    objects: Seq<ObjectInfoView>,
    folder: ProbeFolderView,
)
    requires
        folder.depth < PROBE_MAX_DEPTH,
    ensures
        folders_to_list(objects, folder).to_multiset() == folders_in_order(
            objects,
            folder,
        ).to_multiset(),
    decreases objects.len(),
{
    let parts = |k: u8| folders_at(objects, folder, k);
    lemma_four_parts(parts(0), parts(1), parts(2), parts(3));
    if objects.len() == 0 {
        assert(folders_to_list(objects, folder) =~= folders_in_order(objects, folder));
    } else {
        let fewer = objects.drop_last();
        law_every_subfolder_is_queued_once(fewer, folder);
        lemma_four_parts(
            folders_at(fewer, folder, 0),
            folders_at(fewer, folder, 1),
            folders_at(fewer, folder, 2),
            folders_at(fewer, folder, 3),
        );
        broadcast use vstd::seq_lib::group_to_multiset_ensures;

        assert(folders_to_list(objects, folder).to_multiset() =~= folders_in_order(
            objects,
            folder,
        ).to_multiset());
    }
}

/// Any file beats skipping the probe: once a file has been offered, there is a pick.
pub proof fn law_any_file_beats_skipping(
    best: Option<ProbeTargetView>,
    offers: Seq<ProbeTargetView>,
)
    ensures
        best_of(best, offers) is Some <==> best is Some || offers.len() > 0,
{
}

/// What the probe did, in one word, and the detail to go with it.
#[derive(Debug)]
pub struct CancelProbeRow {
    /// `healthy`, `wedged_recovered`, `errored`, or `skipped`.
    pub outcome: &'static str,
    pub detail: String,
}

/// A [`CancelProbeRow`] with its texts as sequences of characters.
pub struct CancelProbeRowView {
    pub outcome: Seq<char>,
    pub detail: Seq<char>,
}

impl View for CancelProbeRow {
    type V = CancelProbeRowView;

    open spec fn view(&self) -> CancelProbeRowView {
        CancelProbeRowView { outcome: self.outcome@, detail: self.detail@ }
    }
}

/// The target that a path given by the user names: the object there, if it is a file.
pub open spec fn named_target(path: Seq<char>, object: ObjectInfoView) -> Result<
    ProbeTargetView,
    Seq<char>,
> {
    if object.is_folder() {
        Err("--probe-path "@ + path + " is not a file"@)
    } else {
        Ok(ProbeTargetView { handle: object.handle, path, size: object.size })
    }
}

/// The target that a path given by the user names, if the object there is a file.
pub fn explicit_target(path: &str, object: &ObjectInfo) -> (r: Result<ProbeTarget, String>)
    ensures
        result_view(r) == named_target(path@, object@),
{
    if !object.is_file() {
        let mut message = "--probe-path ".to_owned();
        message.append(path);
        message.append(" is not a file");
        return Err(message);
    }
    Ok(ProbeTarget { handle: object.handle, path: path.to_owned(), size: object.size })
}

/// A probe without a file to download.
pub fn probe_skipped(detail: String) -> (r: CancelProbeRow)
    ensures
        r@ == (CancelProbeRowView { outcome: "skipped"@, detail: detail@ }),
{
    CancelProbeRow { outcome: "skipped", detail }
}

/// A probe whose download would not start.
pub fn probe_not_started(target: &ProbeTarget, e: &Error) -> (r: CancelProbeRow)
    ensures
        r@ == (CancelProbeRowView {
            outcome: "errored"@,
            detail: "could not start download of '"@ + target@.path + "': "@
                + crate::mtp::error::error_text(e@),
        }),
{
    let mut detail = "could not start download of '".to_owned();
    detail.append(target.path.as_str());
    detail.append("': ");
    detail.append(e.describe().as_str());
    CancelProbeRow { outcome: "errored", detail }
}

/// What a cancelled download tells of the device: it survived, it wedged and had to be reset, or the cancel
/// failed in some other way.
pub open spec fn probe_verdict(
    target: ProbeTargetView,
    cancel: Result<(), ErrorView>,
) -> CancelProbeRowView {
    match cancel {
        Ok(_) => CancelProbeRowView {
            outcome: "healthy"@,
            detail: "cancelled '"@ + target.path + "' ("@ + text::decimal(target.size as nat)
                + " bytes); session survived"@,
        },
        Err(ErrorView::DeviceReset) => CancelProbeRowView {
            outcome: "wedged_recovered"@,
            detail: "cancel wedged the device on '"@ + target.path + "' ("@ + text::decimal(
                target.size as nat,
            )
                + " bytes); the library reset it to recover (#18). Reopen quietly to continue, and prefer download_windowed for interruptible reads"@,
        },
        Err(e) => CancelProbeRowView {
            outcome: "errored"@,
            detail: "cancel returned an error: "@ + crate::mtp::error::error_text(e),
        },
    }
}

/// Classify what a cancelled download did to the device.
pub fn probe_cancelled(target: &ProbeTarget, cancel: Result<(), Error>) -> (r: CancelProbeRow)
    ensures
        r@ == probe_verdict(target@, crate::mtp::error::outcome(cancel)),
{
    match cancel {
        Ok(_) => {
            let mut detail = "cancelled '".to_owned();
            detail.append(target.path.as_str());
            detail.append("' (");
            detail.append(text::write_decimal(target.size).as_str());
            detail.append(" bytes); session survived");
            CancelProbeRow { outcome: "healthy", detail }
        },
        Err(Error::DeviceReset) => {
            let mut detail = "cancel wedged the device on '".to_owned();
            detail.append(target.path.as_str());
            detail.append("' (");
            detail.append(text::write_decimal(target.size).as_str());
            detail.append(
                " bytes); the library reset it to recover (#18). Reopen quietly to continue, and prefer download_windowed for interruptible reads",
            );
            CancelProbeRow { outcome: "wedged_recovered", detail }
        },
        Err(e) => {
            let mut detail = "cancel returned an error: ".to_owned();
            detail.append(e.describe().as_str());
            CancelProbeRow { outcome: "errored", detail }
        },
    }
}

/// What the cancel probe does next.
#[derive(Debug)]
pub enum CancelAction {
    /// Look up the object at the path that the user named.
    ResolvePath(String),
    /// Search for a file to probe with.
    Search,
    /// Start to download the whole file.
    StartDownload(ProbeTarget),
    /// Read one chunk, so that there is a transfer in flight to cancel.
    ReadChunk(ProbeTarget),
    /// Cancel the download.
    Cancel(ProbeTarget),
    /// The probe is over.
    Done(CancelProbeRow),
}

/// A [`CancelAction`] with its parts as views.
pub enum CancelActionView {
    ResolvePath(Seq<char>),
    Search,
    StartDownload(ProbeTargetView),
    ReadChunk(ProbeTargetView),
    Cancel(ProbeTargetView),
    Done(CancelProbeRowView),
}

impl View for CancelAction {
    type V = CancelActionView;

    open spec fn view(&self) -> CancelActionView {
        match self {
            CancelAction::ResolvePath(path) => CancelActionView::ResolvePath(path@),
            CancelAction::Search => CancelActionView::Search,
            CancelAction::StartDownload(t) => CancelActionView::StartDownload(t@),
            CancelAction::ReadChunk(t) => CancelActionView::ReadChunk(t@),
            CancelAction::Cancel(t) => CancelActionView::Cancel(t@),
            CancelAction::Done(row) => CancelActionView::Done(row@),
        }
    }
}

/// How a step of the cancel probe went.
#[derive(Debug)]
pub enum CancelEvent {
    /// The object at the path, or why there is none.
    Resolved(Result<ObjectInfo, String>),
    /// The file that the search found, or why there is none.
    Found(Result<ProbeTarget, String>),
    Started(Result<(), Error>),
    /// A chunk was read, or the read failed; either is fine.
    ChunkRead,
    Cancelled(Result<(), Error>),
}

/// A [`CancelEvent`] with its parts as views.
pub enum CancelEventView {
    Resolved(Result<ObjectInfoView, Seq<char>>),
    Found(Result<ProbeTargetView, Seq<char>>),
    Started(Result<(), ErrorView>),
    ChunkRead,
    Cancelled(Result<(), ErrorView>),
}

impl View for CancelEvent {
    type V = CancelEventView;

    open spec fn view(&self) -> CancelEventView {
        match self {
            CancelEvent::Resolved(r) => CancelEventView::Resolved(
                match r {
                    Ok(object) => Ok(object@),
                    Err(detail) => Err(detail@),
                },
            ),
            CancelEvent::Found(r) => CancelEventView::Found(result_view(*r)),
            CancelEvent::Started(r) => CancelEventView::Started(crate::mtp::error::outcome(*r)),
            CancelEvent::ChunkRead => CancelEventView::ChunkRead,
            CancelEvent::Cancelled(r) => CancelEventView::Cancelled(crate::mtp::error::outcome(*r)),
        }
    }
}

/// The cancel-health probe: download a file, cancel it, and see whether the session survives.
#[derive(Debug)]
pub struct CancelProbe {
    pub action: CancelAction,
}

/// Whether an event answers an action.
pub open spec fn probe_answers(action: CancelActionView, event: CancelEventView) -> bool {
    match action {
        CancelActionView::ResolvePath(_) => event is Resolved,
        CancelActionView::Search => event is Found,
        CancelActionView::StartDownload(_) => event is Started,
        CancelActionView::ReadChunk(_) => event is ChunkRead,
        CancelActionView::Cancel(_) => event is Cancelled,
        CancelActionView::Done(_) => false,
    }
}

/// How a probe begins: a path that the user named is the file to probe with, and otherwise one is searched.
pub open spec fn probe_start(probe_path: Option<Seq<char>>) -> CancelActionView {
    match probe_path {
        Some(path) => CancelActionView::ResolvePath(path),
        None => CancelActionView::Search,
    }
}

/// What follows once it is settled which file to probe with: its download, or without a file the end.
pub open spec fn probe_target(target: Result<ProbeTargetView, Seq<char>>) -> CancelActionView {
    match target {
        Ok(target) => CancelActionView::StartDownload(target),
        Err(detail) => CancelActionView::Done(CancelProbeRowView { outcome: "skipped"@, detail }),
    }
}

/// The action after an event.
pub open spec fn probe_step(action: CancelActionView, event: CancelEventView) -> CancelActionView {
    match (action, event) {
        (CancelActionView::ResolvePath(path), CancelEventView::Resolved(resolved)) => {
            match resolved {
                Ok(object) => probe_target(named_target(path, object)),
                Err(detail) => probe_target(Err(detail)),
            }
        },
        (CancelActionView::Search, CancelEventView::Found(found)) => probe_target(found),
        (CancelActionView::StartDownload(target), CancelEventView::Started(started)) => {
            match started {
                Ok(_) => CancelActionView::ReadChunk(target),
                Err(e) => CancelActionView::Done(
                    CancelProbeRowView {
                        outcome: "errored"@,
                        detail: "could not start download of '"@ + target.path + "': "@
                            + crate::mtp::error::error_text(e),
                    },
                ),
            }
        },
        (CancelActionView::ReadChunk(target), CancelEventView::ChunkRead) => {
            CancelActionView::Cancel(target)
        },
        (CancelActionView::Cancel(target), CancelEventView::Cancelled(cancel)) => {
            CancelActionView::Done(probe_verdict(target, cancel))
        },
        (action, _) => action,
    }
}

impl CancelProbe {
    /// A probe that has not done anything yet, with the path that the user named, if any.
    pub fn new(probe_path: Option<String>) -> (r: Self)
        ensures
            r.action@ == (match probe_path {
                Some(path) => CancelActionView::ResolvePath(path@),
                None => CancelActionView::Search,
            }),
    {
        CancelProbe {
            action: match probe_path {
                Some(path) => CancelAction::ResolvePath(path),
                None => CancelAction::Search,
            },
        }
    }

    /// Go on with the file to probe with, or end without one.
    fn settle(target: Result<ProbeTarget, String>) -> (r: CancelAction)
        ensures
            r@ == probe_target(result_view(target)),
    {
        match target {
            Ok(target) => CancelAction::StartDownload(target),
            Err(detail) => CancelAction::Done(probe_skipped(detail)),
        }
    }

    /// Take how the action went, and settle the next one.
    pub fn step(&mut self, event: CancelEvent)
        requires
            probe_answers(old(self).action@, event@),
        ensures
            final(self).action@ == probe_step(old(self).action@, event@),
    {
        let mut action = CancelAction::Search;
        std::mem::swap(&mut action, &mut self.action);
        self.action = match action {
            CancelAction::ResolvePath(path) => match event {
                CancelEvent::Resolved(Ok(object)) => CancelProbe::settle(
                    explicit_target(path.as_str(), &object),
                ),
                CancelEvent::Resolved(Err(detail)) => CancelProbe::settle(Err(detail)),
                _ => CancelAction::ResolvePath(path),
            },
            CancelAction::Search => match event {
                CancelEvent::Found(found) => CancelProbe::settle(found),
                _ => CancelAction::Search,
            },
            CancelAction::StartDownload(target) => match event {
                CancelEvent::Started(Ok(_)) => CancelAction::ReadChunk(target),
                CancelEvent::Started(Err(e)) => CancelAction::Done(probe_not_started(&target, &e)),
                _ => CancelAction::StartDownload(target),
            },
            CancelAction::ReadChunk(target) => CancelAction::Cancel(target),
            CancelAction::Cancel(target) => match event {
                CancelEvent::Cancelled(cancel) => CancelAction::Done(probe_cancelled(&target, cancel)),
                _ => CancelAction::Cancel(target),
            },
            CancelAction::Done(row) => CancelAction::Done(row),
        };
    }

    /// What the probe did, once it is over. Before that there is nothing to say.
    pub fn finish(self) -> (r: Option<CancelProbeRow>)
        ensures
            match self.action@ {
                CancelActionView::Done(row) => r matches Some(x) && x@ == row,
                _ => r is None,
            },
    {
        match self.action {
            CancelAction::Done(row) => Some(row),
            _ => None,
        }
    }
}

/// The probe after events, one after another.
pub open spec fn probe_run(
    probe_path: Option<Seq<char>>,
    events: Seq<CancelEventView>,
) -> CancelActionView
    decreases events.len(),
{
    if events.len() == 0 {
        probe_start(probe_path)
    } else {
        probe_step(probe_run(probe_path, events.drop_last()), events.last())
    }
}

/// Whether events, one after another, each answer the action before them.
pub open spec fn is_probe_run(probe_path: Option<Seq<char>>, events: Seq<CancelEventView>) -> bool
    decreases events.len(),
{
    events.len() == 0 || (is_probe_run(probe_path, events.drop_last()) && probe_answers(
        probe_run(probe_path, events.drop_last()),
        events.last(),
    ))
}

/// The file that a probe works on, while it works on one.
pub open spec fn file_at_work(action: CancelActionView) -> Option<ProbeTargetView> {
    match action {
        CancelActionView::StartDownload(target) => Some(target),
        CancelActionView::ReadChunk(target) => Some(target),
        CancelActionView::Cancel(target) => Some(target),
        _ => None,
    }
}

/// A path that the user names is the file probed, and no other is searched for: the probe never comes to a
/// search, every file it works on is the object at that path, under that path, and without a file there it is
/// skipped.
pub proof fn law_a_named_path_is_the_file_probed(path: Seq<char>, events: Seq<CancelEventView>)
    requires
        is_probe_run(Some(path), events),
    ensures
        ({
            let now = probe_run(Some(path), events);
            let no_file = events.len() > 0 && (match events[0] {
                CancelEventView::Resolved(Ok(object)) => object.is_folder(),
                CancelEventView::Resolved(Err(_)) => true,
                _ => false,
            });
            &&& !(now is Search)
            &&& now matches CancelActionView::ResolvePath(asked) ==> asked == path && events.len()
                == 0
            &&& file_at_work(now) matches Some(target) ==> events.len() > 0 && (events[0] matches
                CancelEventView::Resolved(Ok(object)) && !object.is_folder() && target == (
            ProbeTargetView { handle: object.handle, path, size: object.size }))
            &&& no_file <==> (now is Done && now->Done_0.outcome == "skipped"@)
        }),
    decreases events.len(),
{
    lemma_outcome_words();
    if events.len() > 0 {
        let before = events.drop_last();
        law_a_named_path_is_the_file_probed(path, before);
        if before.len() > 0 {
            assert(before[0] == events[0]);
        }
    }
}

/// Without a named path the probe searches, and works on the file that the search found.
pub proof fn law_a_search_provides_the_file_probed(events: Seq<CancelEventView>)
    requires
        is_probe_run(None, events),
    ensures
        ({
            let now = probe_run(None, events);
            &&& !(now is ResolvePath)
            &&& now is Search <==> events.len() == 0
            &&& file_at_work(now) matches Some(target) ==> events.len() > 0 && events[0]
                == CancelEventView::Found(Ok(target))
        }),
    decreases events.len(),
{
    if events.len() > 0 {
        let before = events.drop_last();
        law_a_search_provides_the_file_probed(before);
        if before.len() > 0 {
            assert(before[0] == events[0]);
        }
    }
}

proof fn lemma_outcome_words()
    ensures
        "healthy"@ != "skipped"@,
        "healthy"@ != "errored"@,
        "healthy"@ != "wedged_recovered"@,
        "skipped"@ != "errored"@,
        "skipped"@ != "wedged_recovered"@,
        "errored"@ != "wedged_recovered"@,
{
    reveal_strlit("healthy");
    reveal_strlit("wedged_recovered");
    reveal_strlit("skipped");
    reveal_strlit("errored");
    assert("healthy"@.len() == 7 && "skipped"@.len() == 7 && "errored"@.len() == 7);
    assert("healthy"@[0] == 'h' && "skipped"@[0] == 's' && "errored"@[0] == 'e');
    assert("wedged_recovered"@.len() == 16);
}

/// The probe reports a wedge exactly when its cancel made the device reset, and health exactly when its
/// cancel succeeded; without a cancel it is skipped, for want of a file, or has failed. It reports nothing
/// else.
pub proof fn law_only_a_cancel_tells_health(
    probe_path: Option<Seq<char>>,
    events: Seq<CancelEventView>,
)
    requires
        is_probe_run(probe_path, events),
        probe_run(probe_path, events) is Done,
    ensures
        ({
            let outcome = probe_run(probe_path, events)->Done_0.outcome;
            &&& outcome == "healthy"@ <==> (events.last() matches CancelEventView::Cancelled(Ok(_)))
            &&& outcome == "wedged_recovered"@ <==> events.last() == CancelEventView::Cancelled(
                Err(ErrorView::DeviceReset),
            )
            &&& outcome == "skipped"@ <==> events.last() is Resolved || events.last() is Found
            &&& outcome == "healthy"@ || outcome == "wedged_recovered"@ || outcome == "errored"@
                || outcome == "skipped"@
            &&& events.last() is Cancelled ==> events.len() == 4
        }),
{
    lemma_outcome_words();
    lemma_probe_length(probe_path, events.drop_last());
}

/// How far a probe is tells how many answers it had.
proof fn lemma_probe_length(probe_path: Option<Seq<char>>, events: Seq<CancelEventView>)
    requires
        is_probe_run(probe_path, events),
    ensures
        probe_run(probe_path, events) is ResolvePath ==> events.len() == 0,
        probe_run(probe_path, events) is Search ==> events.len() == 0,
        probe_run(probe_path, events) is StartDownload ==> events.len() == 1,
        probe_run(probe_path, events) is ReadChunk ==> events.len() == 2,
        probe_run(probe_path, events) is Cancel ==> events.len() == 3,
    decreases events.len(),
{
    if events.len() > 0 {
        lemma_probe_length(probe_path, events.drop_last());
    }
}

} // verus!
