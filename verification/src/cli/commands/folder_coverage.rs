//! What a finished plan of a folder's download covers: everything below the folder, each object at the path
//! of the folder it lies in, and nothing else.

use vstd::prelude::*;

use crate::cli::commands::folder_plan;
use crate::cli::commands::folder_plan::{
    FolderPlanView, FolderWalkView, PendingFolderView, PlannedFileView, PlannedFolderView, SkippedRowView,
};
use crate::cli::error::CliErrorView;
use crate::mtp::error;
use crate::mtp::storage;
use crate::mtp::storage::{FolderContents, ObjectCollectionView, SkippedObjectView};
use crate::mtp::types::{ObjectHandle, ObjectInfoView};

verus! {

/// What a device lists for each folder, and what it will not describe there.
pub type DeviceContents = spec_fn(Option<ObjectHandle>) -> ObjectCollectionView;

/// The objects that a device lists for each folder.
pub open spec fn objects_in(contents: DeviceContents) -> FolderContents {
    |folder: Option<ObjectHandle>| contents(folder).objects
}

/// A folder in a folder, as one to create: at the path of the folder it lies in, with its name appended.
pub open spec fn planned_folder(place: PendingFolderView, o: ObjectInfoView) -> PlannedFolderView {
    PlannedFolderView {
        remote_path: folder_plan::remote_child(place.remote_folder, o.filename),
        local_path: place.local_folder.push(o.filename),
    }
}

/// A file in a folder, as one to download: at the path of the folder it lies in, with its name appended.
pub open spec fn planned_file(place: PendingFolderView, o: ObjectInfoView) -> PlannedFileView {
    PlannedFileView {
        handle: o.handle,
        remote_path: folder_plan::remote_child(place.remote_folder, o.filename),
        local_path: place.local_folder.push(o.filename),
    }
}

/// An object in a folder that the device would not describe, as a row of the report.
pub open spec fn skipped_row(place: PendingFolderView, s: SkippedObjectView) -> SkippedRowView {
    SkippedRowView {
        remote_folder: place.remote_folder,
        handle: s.handle.0,
        error: error::error_text(s.error),
    }
}

/// Whether a plan holds an object of a folder, at the path of the folder with its name appended.
pub open spec fn is_planned(plan: FolderPlanView, place: PendingFolderView, o: ObjectInfoView) -> bool {
    if o.is_folder() {
        plan.folders.contains(planned_folder(place, o))
    } else {
        plan.files.contains(planned_file(place, o))
    }
}

/// Whether these places lead from a start downwards, each a folder listed in the one before.
pub open spec fn is_route(
    contents: DeviceContents,
    start: PendingFolderView,
    route: Seq<PendingFolderView>,
) -> bool {
    &&& route.len() > 0
    &&& route[0] == start
    &&& forall|i: int|
        0 < i < route.len() ==> folder_plan::pending_folders(
            contents(route[i - 1].parent).objects,
            route[i - 1],
        ).contains(#[trigger] route[i])
}

/// Whether a place is the start or a folder that lies below it.
pub open spec fn lies_below(
    contents: DeviceContents,
    start: PendingFolderView,
    place: PendingFolderView,
) -> bool {
    exists|route: Seq<PendingFolderView>| #[trigger]
        is_route(contents, start, route) && route.last() == place
}

/// A walk from a folder on, with the device's answers to its listings, one after another.
pub struct PlanRun {
    pub root: Option<ObjectHandle>,
    pub remote_root: Seq<char>,
    pub answers: Seq<Result<ObjectCollectionView, error::ErrorView>>,
    pub windows: bool,
}

impl PlanRun {
    /// What the walk has come to.
    pub open spec fn outcome(self) -> Result<FolderWalkView, CliErrorView> {
        folder_plan::walk_of(self.root, self.remote_root, self.answers, self.windows)
    }

    /// Whether each answer was asked for.
    pub open spec fn was_asked_for(self) -> bool {
        folder_plan::each_was_asked_for(self.root, self.remote_root, self.answers, self.windows)
    }

    /// Where the walk starts.
    pub open spec fn start(self) -> PendingFolderView {
        PendingFolderView {
            parent: self.root,
            remote_folder: self.remote_root,
            local_folder: Seq::empty(),
        }
    }

    /// The walk before its last answer.
    pub open spec fn before(self) -> PlanRun {
        PlanRun { answers: self.answers.drop_last(), ..self }
    }

    /// The places that were listed, one for each answer.
    pub open spec fn places(self) -> Seq<PendingFolderView>
        decreases self.answers.len(),
    {
        if self.answers.len() == 0 {
            Seq::empty()
        } else {
            self.before().places().push(self.before().outcome()->Ok_0.to_visit.last())
        }
    }

    /// The objects of each listing.
    pub open spec fn listings(self) -> Seq<Seq<ObjectInfoView>> {
        self.answers.map_values(
            |a: Result<ObjectCollectionView, error::ErrorView>| a->Ok_0.objects,
        )
    }

    /// Whether each answer is what the device lists for the folder that was asked for.
    pub open spec fn is_answered_from(self, contents: DeviceContents) -> bool {
        forall|i: int|
            0 <= i < self.answers.len() ==> #[trigger] self.answers[i] == Ok::<
                ObjectCollectionView,
                error::ErrorView,
            >(contents(self.places()[i].parent))
    }
}

/// The last step of a walk that has not failed.
proof fn lemma_last_step(run: PlanRun)
    requires
        run.answers.len() > 0,
        run.was_asked_for(),
        run.outcome() is Ok,
    ensures
        run.before().was_asked_for(),
        run.before().outcome() is Ok,
        run.before().outcome()->Ok_0.to_visit.len() > 0,
        run.answers.last() is Ok,
        run.places() == run.before().places().push(run.before().outcome()->Ok_0.to_visit.last()),
        run.listings() == run.before().listings().push(run.answers.last()->Ok_0.objects),
        ({
            let walk = run.before().outcome()->Ok_0;
            run.outcome() == Ok::<FolderWalkView, CliErrorView>(
                folder_plan::walked(
                    FolderWalkView { to_visit: walk.to_visit.drop_last(), plan: walk.plan },
                    walk.to_visit.last(),
                    run.answers.last()->Ok_0,
                ),
            )
        }),
{
    assert(run.listings() =~= run.before().listings().push(run.answers.last()->Ok_0.objects));
}

proof fn lemma_places_len(run: PlanRun)
    ensures
        run.places().len() == run.answers.len(),
    decreases run.answers.len(),
{
    if run.answers.len() > 0 {
        lemma_places_len(run.before());
    }
}

proof fn lemma_answered_before(run: PlanRun, contents: DeviceContents)
    requires
        run.answers.len() > 0,
        run.is_answered_from(contents),
    ensures
        run.before().is_answered_from(contents),
{
    let before = run.before();
    lemma_places_len(before);
    assert forall|i: int| 0 <= i < before.answers.len() implies #[trigger] before.answers[i] == Ok::<
        ObjectCollectionView,
        error::ErrorView,
    >(contents(before.places()[i].parent)) by {
        assert(before.answers[i] == run.answers[i]);
        assert(before.places()[i] == run.places()[i]);
    }
}

/// The folder in a listing that a planned folder stands for.
proof fn lemma_folder_where(objects: Seq<ObjectInfoView>, place: PendingFolderView, k: int) -> (i: int)
    requires
        0 <= k < folder_plan::planned_folders(objects, place).len(),
    ensures
        0 <= i < objects.len(),
        objects[i].is_folder(),
        folder_plan::planned_folders(objects, place)[k] == planned_folder(place, objects[i]),
        folder_plan::planned_folders(objects, place).len() == storage::folders_of(objects).len(),
        storage::folders_of(objects)[k] == Some(objects[i].handle),
    decreases objects.len(),
{
    let fewer = objects.drop_last();
    lemma_folder_count(fewer, place);
    lemma_folder_count(objects, place);
    if k < folder_plan::planned_folders(fewer, place).len() {
        let i = lemma_folder_where(fewer, place, k);
        assert(fewer[i] == objects[i]);
        i
    } else {
        objects.len() - 1
    }
}

/// The folders of a listing are planned and queued one for one.
proof fn lemma_folder_count(objects: Seq<ObjectInfoView>, place: PendingFolderView)
    ensures
        folder_plan::planned_folders(objects, place).len() == storage::folders_of(objects).len(),
        folder_plan::pending_folders(objects, place).map_values(|p: PendingFolderView| p.parent)
            == storage::folders_of(objects),
    decreases objects.len(),
{
    let parents = folder_plan::pending_folders(objects, place).map_values(
        |p: PendingFolderView| p.parent,
    );
    if objects.len() > 0 {
        lemma_folder_count(objects.drop_last(), place);
    }
    assert(parents =~= storage::folders_of(objects)) by {
        if objects.len() > 0 {
            let fewer = folder_plan::pending_folders(objects.drop_last(), place).map_values(
                |p: PendingFolderView| p.parent,
            );
            if objects.last().is_folder() {
                assert(parents =~= fewer.push(Some(objects.last().handle)));
            } else {
                assert(parents =~= fewer);
            }
        }
    }
}

/// The file in a listing that a planned file stands for.
proof fn lemma_file_where(objects: Seq<ObjectInfoView>, place: PendingFolderView, k: int) -> (i: int)
    requires
        0 <= k < folder_plan::planned_files(objects, place).len(),
    ensures
        0 <= i < objects.len(),
        !objects[i].is_folder(),
        folder_plan::planned_files(objects, place)[k] == planned_file(place, objects[i]),
    decreases objects.len(),
{
    let fewer = objects.drop_last();
    if k < folder_plan::planned_files(fewer, place).len() {
        let i = lemma_file_where(fewer, place, k);
        assert(fewer[i] == objects[i]);
        i
    } else {
        objects.len() - 1
    }
}

/// Every object of a listing is planned, and every folder in it is queued.
proof fn lemma_listed_is_planned(objects: Seq<ObjectInfoView>, place: PendingFolderView, i: int)
    requires
        0 <= i < objects.len(),
    ensures
        objects[i].is_folder() ==> folder_plan::planned_folders(objects, place).contains(
            planned_folder(place, objects[i]),
        ),
        !objects[i].is_folder() ==> folder_plan::planned_files(objects, place).contains(
            planned_file(place, objects[i]),
        ),
    decreases objects.len(),
{
    let fewer = objects.drop_last();
    let folders = folder_plan::planned_folders(fewer, place);
    let files = folder_plan::planned_files(fewer, place);
    if i < fewer.len() {
        assert(fewer[i] == objects[i]);
        lemma_listed_is_planned(fewer, place, i);
        if objects[i].is_folder() {
            let k = choose|k: int|
                0 <= k < folders.len() && folders[k] == planned_folder(place, objects[i]);
            assert(folder_plan::planned_folders(objects, place)[k] == folders[k]);
        } else {
            let k = choose|k: int|
                0 <= k < files.len() && files[k] == planned_file(place, objects[i]);
            assert(folder_plan::planned_files(objects, place)[k] == files[k]);
        }
    } else if objects[i].is_folder() {
        assert(folder_plan::planned_folders(objects, place)[folders.len() as int] == planned_folder(
            place,
            objects[i],
        ));
    } else {
        assert(folder_plan::planned_files(objects, place)[files.len() as int] == planned_file(
            place,
            objects[i],
        ));
    }
}

/// What is in a sequence is in it with more behind it.
proof fn lemma_still_there<A>(a: Seq<A>, b: Seq<A>, x: A)
    requires
        a.contains(x) || b.contains(x),
    ensures
        (a + b).contains(x),
{
    if a.contains(x) {
        let k = choose|k: int| 0 <= k < a.len() && a[k] == x;
        assert((a + b)[k] == x);
    } else {
        let k = choose|k: int| 0 <= k < b.len() && b[k] == x;
        assert((a + b)[a.len() + k] == x);
    }
}

/// Whatever was listed is in the plan.
proof fn lemma_every_listing_is_planned(run: PlanRun, n: int)
    requires
        run.was_asked_for(),
        run.outcome() is Ok,
        0 <= n < run.answers.len(),
    ensures
        run.answers[n] is Ok,
        forall|i: int|
            0 <= i < run.listings()[n].len() ==> is_planned(
                run.outcome()->Ok_0.plan,
                run.places()[n],
                #[trigger] run.listings()[n][i],
            ),
        forall|i: int|
            0 <= i < run.answers[n]->Ok_0.skipped.len() ==> run.outcome()->Ok_0.plan.skipped.contains(
                skipped_row(run.places()[n], #[trigger] run.answers[n]->Ok_0.skipped[i]),
            ),
    decreases run.answers.len(),
{
    lemma_last_step(run);
    lemma_places_len(run.before());
    let before = run.before();
    let walk = before.outcome()->Ok_0;
    let place = walk.to_visit.last();
    let found = run.answers.last()->Ok_0;
    let old_plan = walk.plan;
    let plan = run.outcome()->Ok_0.plan;
    if n < before.answers.len() {
        lemma_every_listing_is_planned(before, n);
        assert(before.answers[n] == run.answers[n]);
        assert(before.places()[n] == run.places()[n]);
        assert(before.listings()[n] == run.listings()[n]);
    }
    let at = run.places()[n];
    assert forall|i: int| 0 <= i < run.listings()[n].len() implies is_planned(
        plan,
        at,
        #[trigger] run.listings()[n][i],
    ) by {
        let o = run.listings()[n][i];
        if n < before.answers.len() {
            assert(is_planned(old_plan, at, before.listings()[n][i]));
        } else {
            lemma_listed_is_planned(found.objects, place, i);
        }
        if o.is_folder() {
            lemma_still_there(
                old_plan.folders,
                folder_plan::planned_folders(found.objects, place),
                planned_folder(at, o),
            );
        } else {
            lemma_still_there(
                old_plan.files,
                folder_plan::planned_files(found.objects, place),
                planned_file(at, o),
            );
        }
    }
    assert forall|i: int| 0 <= i < run.answers[n]->Ok_0.skipped.len() implies plan.skipped.contains(
        skipped_row(at, #[trigger] run.answers[n]->Ok_0.skipped[i]),
    ) by {
        let rows = folder_plan::skipped_rows(found.skipped, place.remote_folder);
        let row = skipped_row(at, run.answers[n]->Ok_0.skipped[i]);
        if n < before.answers.len() {
            assert(old_plan.skipped.contains(
                skipped_row(at, before.answers[n]->Ok_0.skipped[i]),
            ));
        } else {
            assert(rows[i] == row);
        }
        lemma_still_there(old_plan.skipped, rows, row);
    }
}

/// Whether a planned folder stands for an object that was listed.
pub open spec fn folder_comes_from(run: PlanRun, k: int, n: int, i: int) -> bool {
    &&& 0 <= n < run.answers.len()
    &&& 0 <= i < run.listings()[n].len()
    &&& run.listings()[n][i].is_folder()
    &&& run.outcome()->Ok_0.plan.folders[k] == planned_folder(
        run.places()[n],
        run.listings()[n][i],
    )
    &&& storage::folders_of(storage::all_listed(run.listings()))[k] == Some(
        run.listings()[n][i].handle,
    )
}

/// Whether a planned folder stands for one that was listed, the one in the same place among the folders listed.
pub open spec fn folder_was_listed(run: PlanRun, k: int) -> bool {
    exists|n: int, i: int| #[trigger] folder_comes_from(run, k, n, i)
}

/// Where a planned folder was listed.
proof fn lemma_folder_origin(run: PlanRun, k: int) -> (at: (int, int))
    requires
        run.was_asked_for(),
        run.outcome() is Ok,
        0 <= k < run.outcome()->Ok_0.plan.folders.len(),
    ensures
        folder_comes_from(run, k, at.0, at.1),
        run.outcome()->Ok_0.plan.folders.len() == storage::folders_of(
            storage::all_listed(run.listings()),
        ).len(),
    decreases run.answers.len(),
{
    lemma_planned_folder_count(run);
    lemma_last_step(run);
    lemma_places_len(run.before());
    let before = run.before();
    lemma_planned_folder_count(before);
    let walk = before.outcome()->Ok_0;
    let objects = run.answers.last()->Ok_0.objects;
    assert(run.listings().drop_last() =~= before.listings());
    storage::lemma_folders_of_add(storage::all_listed(before.listings()), objects);
    if k < walk.plan.folders.len() {
        let at = lemma_folder_origin(before, k);
        assert(before.places()[at.0] == run.places()[at.0]);
        assert(before.listings()[at.0] == run.listings()[at.0]);
        at
    } else {
        let i = lemma_folder_where(objects, walk.to_visit.last(), k - walk.plan.folders.len());
        assert(run.listings()[before.answers.len() as int] == objects);
        (before.answers.len() as int, i)
    }
}

/// As many folders are planned as were listed.
proof fn lemma_planned_folder_count(run: PlanRun)
    requires
        run.was_asked_for(),
        run.outcome() is Ok,
    ensures
        run.outcome()->Ok_0.plan.folders.len() == storage::folders_of(
            storage::all_listed(run.listings()),
        ).len(),
    decreases run.answers.len(),
{
    if run.answers.len() > 0 {
        lemma_last_step(run);
        let before = run.before();
        lemma_planned_folder_count(before);
        let objects = run.answers.last()->Ok_0.objects;
        assert(run.listings().drop_last() =~= before.listings());
        storage::lemma_folders_of_add(storage::all_listed(before.listings()), objects);
        lemma_folder_count(objects, before.outcome()->Ok_0.to_visit.last());
    }
}

/// Where a planned file was listed.
proof fn lemma_file_origin(run: PlanRun, k: int) -> (at: (int, int))
    requires
        run.was_asked_for(),
        run.outcome() is Ok,
        0 <= k < run.outcome()->Ok_0.plan.files.len(),
    ensures
        0 <= at.0 < run.answers.len(),
        0 <= at.1 < run.listings()[at.0].len(),
        !run.listings()[at.0][at.1].is_folder(),
        run.outcome()->Ok_0.plan.files[k] == planned_file(
            run.places()[at.0],
            run.listings()[at.0][at.1],
        ),
    decreases run.answers.len(),
{
    lemma_last_step(run);
    lemma_places_len(run.before());
    let before = run.before();
    let walk = before.outcome()->Ok_0;
    let objects = run.answers.last()->Ok_0.objects;
    if k < walk.plan.files.len() {
        let at = lemma_file_origin(before, k);
        assert(before.places()[at.0] == run.places()[at.0]);
        assert(before.listings()[at.0] == run.listings()[at.0]);
        at
    } else {
        let i = lemma_file_where(objects, walk.to_visit.last(), k - walk.plan.files.len());
        assert(run.listings()[before.answers.len() as int] == objects);
        (before.answers.len() as int, i)
    }
}

/// Where a row of the report comes from.
proof fn lemma_skipped_origin(run: PlanRun, k: int) -> (at: (int, int))
    requires
        run.was_asked_for(),
        run.outcome() is Ok,
        0 <= k < run.outcome()->Ok_0.plan.skipped.len(),
    ensures
        0 <= at.0 < run.answers.len(),
        run.answers[at.0] is Ok,
        0 <= at.1 < run.answers[at.0]->Ok_0.skipped.len(),
        run.outcome()->Ok_0.plan.skipped[k] == skipped_row(
            run.places()[at.0],
            run.answers[at.0]->Ok_0.skipped[at.1],
        ),
    decreases run.answers.len(),
{
    lemma_last_step(run);
    lemma_places_len(run.before());
    let before = run.before();
    let walk = before.outcome()->Ok_0;
    if k < walk.plan.skipped.len() {
        let at = lemma_skipped_origin(before, k);
        assert(before.places()[at.0] == run.places()[at.0]);
        assert(before.answers[at.0] == run.answers[at.0]);
        at
    } else {
        (before.answers.len() as int, k - walk.plan.skipped.len())
    }
}

/// The folders named in the listings, as places to list.
spec fn all_pending(run: PlanRun) -> Seq<PendingFolderView>
    decreases run.answers.len(),
{
    if run.answers.len() == 0 {
        Seq::empty()
    } else {
        all_pending(run.before()) + folder_plan::pending_folders(
            run.listings().last(),
            run.places().last(),
        )
    }
}

/// The start and every folder named in a listing has been listed or still will be.
proof fn lemma_every_place_is_listed(run: PlanRun)
    requires
        run.was_asked_for(),
        run.outcome() is Ok,
    ensures
        (run.places() + run.outcome()->Ok_0.to_visit).to_multiset() == (seq![run.start()]
            + all_pending(run)).to_multiset(),
    decreases run.answers.len(),
{
    let walk = run.outcome()->Ok_0;
    if run.answers.len() == 0 {
        assert(run.places() + walk.to_visit =~= seq![run.start()] + all_pending(run));
    } else {
        lemma_last_step(run);
        let before = run.before();
        let old_walk = before.outcome()->Ok_0;
        lemma_every_place_is_listed(before);
        let rest = old_walk.to_visit.drop_last();
        let place = old_walk.to_visit.last();
        let more = folder_plan::pending_folders(run.listings().last(), place);
        assert(old_walk.to_visit =~= rest.push(place));
        storage::lemma_move_across(before.places(), rest, place);
        storage::lemma_add_same(
            run.places() + rest,
            seq![run.start()] + all_pending(before),
            more,
        );
        assert(run.places() + walk.to_visit =~= run.places() + rest + more);
        assert(seq![run.start()] + all_pending(run) =~= seq![run.start()] + all_pending(before)
            + more);
    }
}

/// A folder named in a listing is among the folders named.
proof fn lemma_named_is_pending(run: PlanRun, n: int, place: PendingFolderView)
    requires
        run.was_asked_for(),
        run.outcome() is Ok,
        0 <= n < run.answers.len(),
        folder_plan::pending_folders(run.listings()[n], run.places()[n]).contains(place),
    ensures
        all_pending(run).contains(place),
    decreases run.answers.len(),
{
    lemma_last_step(run);
    lemma_places_len(run.before());
    let before = run.before();
    if n < before.answers.len() {
        assert(before.places()[n] == run.places()[n]);
        assert(before.listings()[n] == run.listings()[n]);
        lemma_named_is_pending(before, n, place);
    }
    lemma_still_there(
        all_pending(before),
        folder_plan::pending_folders(run.listings().last(), run.places().last()),
        place,
    );
}

/// A finished walk has listed every place that lies below its start.
proof fn lemma_route_is_listed(
    run: PlanRun,
    contents: DeviceContents,
    route: Seq<PendingFolderView>,
)
    requires
        run.was_asked_for(),
        run.outcome() is Ok,
        run.outcome()->Ok_0.to_visit.len() == 0,
        run.is_answered_from(contents),
        is_route(contents, run.start(), route),
    ensures
        run.places().contains(route.last()),
    decreases route.len(),
{
    broadcast use vstd::seq_lib::group_to_multiset_ensures;

    let places = run.places();
    let all = seq![run.start()] + all_pending(run);
    lemma_every_place_is_listed(run);
    lemma_places_len(run);
    assert(places + run.outcome()->Ok_0.to_visit =~= places);
    if route.len() == 1 {
        assert(all[0] == route.last());
    } else {
        let shorter = route.drop_last();
        assert(is_route(contents, run.start(), shorter)) by {
            assert forall|i: int| 0 < i < shorter.len() implies folder_plan::pending_folders(
                contents(shorter[i - 1].parent).objects,
                shorter[i - 1],
            ).contains(#[trigger] shorter[i]) by {
                assert(shorter[i] == route[i] && shorter[i - 1] == route[i - 1]);
            }
        }
        lemma_route_is_listed(run, contents, shorter);
        let n = choose|n: int| 0 <= n < places.len() && places[n] == shorter.last();
        let last = route[route.len() - 1];
        assert(run.answers[n] == Ok::<ObjectCollectionView, error::ErrorView>(
            contents(places[n].parent),
        ));
        assert(run.listings()[n] == contents(places[n].parent).objects);
        assert(route[route.len() - 2] == places[n]);
        lemma_named_is_pending(run, n, last);
        lemma_still_there(seq![run.start()], all_pending(run), last);
    }
    assert(all.contains(route.last()));
    assert(places.to_multiset().contains(route.last()));
}

/// Every place that a walk has listed or still has to list is its start or lies below it.
proof fn lemma_places_lie_below(run: PlanRun, contents: DeviceContents)
    requires
        run.was_asked_for(),
        run.outcome() is Ok,
        run.is_answered_from(contents),
    ensures
        forall|n: int|
            0 <= n < run.answers.len() ==> lies_below(
                contents,
                run.start(),
                #[trigger] run.places()[n],
            ),
        forall|n: int|
            0 <= n < run.outcome()->Ok_0.to_visit.len() ==> lies_below(
                contents,
                run.start(),
                #[trigger] run.outcome()->Ok_0.to_visit[n],
            ),
    decreases run.answers.len(),
{
    let start = run.start();
    let walk = run.outcome()->Ok_0;
    lemma_places_len(run);
    if run.answers.len() == 0 {
        assert(is_route(contents, start, seq![start]));
        assert(seq![start].last() == start);
    } else {
        lemma_last_step(run);
        lemma_answered_before(run, contents);
        let before = run.before();
        lemma_places_lie_below(before, contents);
        lemma_places_len(before);
        let old_walk = before.outcome()->Ok_0;
        let place = old_walk.to_visit.last();
        assert(place == old_walk.to_visit[old_walk.to_visit.len() - 1]);
        assert forall|n: int| 0 <= n < run.answers.len() implies lies_below(
            contents,
            start,
            #[trigger] run.places()[n],
        ) by {
            if n < before.answers.len() {
                assert(run.places()[n] == before.places()[n]);
            }
        }
        let kept = old_walk.to_visit.drop_last();
        let last = run.answers.len() - 1;
        assert(run.answers[last] == Ok::<ObjectCollectionView, error::ErrorView>(
            contents(run.places()[last].parent),
        ));
        let objects = run.answers.last()->Ok_0.objects;
        assert(objects == contents(place.parent).objects);
        let more = folder_plan::pending_folders(objects, place);
        assert forall|n: int| 0 <= n < walk.to_visit.len() implies lies_below(
            contents,
            start,
            #[trigger] walk.to_visit[n],
        ) by {
            if n < kept.len() {
                assert(walk.to_visit[n] == old_walk.to_visit[n]);
            } else {
                let child = walk.to_visit[n];
                assert(more[n - kept.len()] == child);
                let route = choose|route: Seq<PendingFolderView>| #[trigger]
                    is_route(contents, start, route) && route.last() == place;
                let longer = route.push(child);
                assert(longer.last() == child);
                assert(is_route(contents, start, longer)) by {
                    assert forall|j: int| 0 < j < longer.len() implies folder_plan::pending_folders(
                        contents(longer[j - 1].parent).objects,
                        longer[j - 1],
                    ).contains(#[trigger] longer[j]) by {
                        if j < route.len() {
                            assert(longer[j] == route[j] && longer[j - 1] == route[j - 1]);
                        } else {
                            assert(longer[j - 1] == place);
                        }
                    }
                }
            }
        }
    }
}

/// Whether a folder in a plan is one that the device lists below the start, at the path of the folder it lies
/// in with its name appended.
pub open spec fn stands_for_a_folder(
    contents: DeviceContents,
    start: PendingFolderView,
    entry: PlannedFolderView,
) -> bool {
    exists|place: PendingFolderView, i: int|
        lies_below(contents, start, place) && 0 <= i < contents(place.parent).objects.len() && contents(
            place.parent,
        ).objects[i].is_folder() && entry == #[trigger] planned_folder(
            place,
            contents(place.parent).objects[i],
        )
}

/// Whether a file in a plan is one that the device lists below the start, at the path of the folder it lies
/// in with its name appended.
pub open spec fn stands_for_a_file(
    contents: DeviceContents,
    start: PendingFolderView,
    entry: PlannedFileView,
) -> bool {
    exists|place: PendingFolderView, i: int|
        lies_below(contents, start, place) && 0 <= i < contents(place.parent).objects.len()
            && !contents(place.parent).objects[i].is_folder() && entry == #[trigger] planned_file(
            place,
            contents(place.parent).objects[i],
        )
}

/// Whether a row of the report is about an object below the start that the device will not describe.
pub open spec fn stands_for_a_skip(
    contents: DeviceContents,
    start: PendingFolderView,
    row: SkippedRowView,
) -> bool {
    exists|place: PendingFolderView, i: int|
        lies_below(contents, start, place) && 0 <= i < contents(place.parent).skipped.len() && row
            == #[trigger] skipped_row(place, contents(place.parent).skipped[i])
}

/// A finished walk has planned everything: each object in the folder it started from, or in any folder below
/// that, is planned at the path of the folder it lies in with its name appended, and each object that the
/// device will not describe is reported with that folder.
pub proof fn law_everything_below_is_planned(run: PlanRun, contents: DeviceContents)
    requires
        run.was_asked_for(),
        run.is_answered_from(contents),
        run.outcome() is Ok,
        run.outcome()->Ok_0.to_visit.len() == 0,
    ensures
        forall|place: PendingFolderView, i: int|
            lies_below(contents, run.start(), place) && 0 <= i < contents(place.parent).objects.len()
                ==> #[trigger] is_planned(
                run.outcome()->Ok_0.plan,
                place,
                contents(place.parent).objects[i],
            ),
        forall|place: PendingFolderView, i: int|
            lies_below(contents, run.start(), place) && 0 <= i < contents(place.parent).skipped.len()
                ==> run.outcome()->Ok_0.plan.skipped.contains(
                #[trigger] skipped_row(place, contents(place.parent).skipped[i]),
            ),
{
    let plan = run.outcome()->Ok_0.plan;
    lemma_places_len(run);
    assert forall|place: PendingFolderView| #[trigger]
        lies_below(contents, run.start(), place) implies exists|n: int|
        0 <= n < run.answers.len() && #[trigger] run.places()[n] == place by {
        let route = choose|route: Seq<PendingFolderView>| #[trigger]
            is_route(contents, run.start(), route) && route.last() == place;
        lemma_route_is_listed(run, contents, route);
        let n = choose|n: int| 0 <= n < run.places().len() && run.places()[n] == place;
        assert(run.places()[n] == place);
    }
    assert forall|place: PendingFolderView, i: int|
        lies_below(contents, run.start(), place) && 0 <= i < contents(
            place.parent,
        ).objects.len() implies #[trigger] is_planned(
        plan,
        place,
        contents(place.parent).objects[i],
    ) by {
        let n = choose|n: int| 0 <= n < run.answers.len() && #[trigger] run.places()[n] == place;
        lemma_every_listing_is_planned(run, n);
        assert(run.answers[n] == Ok::<ObjectCollectionView, error::ErrorView>(
            contents(place.parent),
        ));
        assert(is_planned(plan, place, run.listings()[n][i]));
    }
    assert forall|place: PendingFolderView, i: int|
        lies_below(contents, run.start(), place) && 0 <= i < contents(
            place.parent,
        ).skipped.len() implies plan.skipped.contains(
        #[trigger] skipped_row(place, contents(place.parent).skipped[i]),
    ) by {
        let n = choose|n: int| 0 <= n < run.answers.len() && #[trigger] run.places()[n] == place;
        lemma_every_listing_is_planned(run, n);
        assert(run.answers[n] == Ok::<ObjectCollectionView, error::ErrorView>(
            contents(place.parent),
        ));
        assert(plan.skipped.contains(skipped_row(place, run.answers[n]->Ok_0.skipped[i])));
    }
}

/// A walk plans nothing else: at every step each folder and each file in the plan, and each row of the report,
/// stands for an object in the folder the walk started from or in one below it.
pub proof fn law_nothing_else_is_planned(run: PlanRun, contents: DeviceContents)
    requires
        run.was_asked_for(),
        run.is_answered_from(contents),
        run.outcome() is Ok,
    ensures
        forall|k: int|
            0 <= k < run.outcome()->Ok_0.plan.folders.len() ==> stands_for_a_folder(
                contents,
                run.start(),
                #[trigger] run.outcome()->Ok_0.plan.folders[k],
            ),
        forall|k: int|
            0 <= k < run.outcome()->Ok_0.plan.files.len() ==> stands_for_a_file(
                contents,
                run.start(),
                #[trigger] run.outcome()->Ok_0.plan.files[k],
            ),
        forall|k: int|
            0 <= k < run.outcome()->Ok_0.plan.skipped.len() ==> stands_for_a_skip(
                contents,
                run.start(),
                #[trigger] run.outcome()->Ok_0.plan.skipped[k],
            ),
{
    let plan = run.outcome()->Ok_0.plan;
    let start = run.start();
    lemma_places_len(run);
    lemma_places_lie_below(run, contents);
    assert forall|n: int| 0 <= n < run.answers.len() implies #[trigger] run.listings()[n] == contents(
        run.places()[n].parent,
    ).objects by {
        assert(run.answers[n] == Ok::<ObjectCollectionView, error::ErrorView>(
            contents(run.places()[n].parent),
        ));
    }
    assert forall|k: int| 0 <= k < plan.folders.len() implies stands_for_a_folder(
        contents,
        start,
        #[trigger] plan.folders[k],
    ) by {
        let at = lemma_folder_origin(run, k);
        let place = run.places()[at.0];
        assert(lies_below(contents, start, place));
        assert(run.listings()[at.0] == contents(place.parent).objects);
        assert(plan.folders[k] == planned_folder(place, contents(place.parent).objects[at.1]));
    }
    assert forall|k: int| 0 <= k < plan.files.len() implies stands_for_a_file(
        contents,
        start,
        #[trigger] plan.files[k],
    ) by {
        let at = lemma_file_origin(run, k);
        let place = run.places()[at.0];
        assert(lies_below(contents, start, place));
        assert(run.listings()[at.0] == contents(place.parent).objects);
        assert(plan.files[k] == planned_file(place, contents(place.parent).objects[at.1]));
    }
    assert forall|k: int| 0 <= k < plan.skipped.len() implies stands_for_a_skip(
        contents,
        start,
        #[trigger] plan.skipped[k],
    ) by {
        let at = lemma_skipped_origin(run, k);
        let place = run.places()[at.0];
        assert(lies_below(contents, start, place));
        assert(run.answers[at.0] == Ok::<ObjectCollectionView, error::ErrorView>(
            contents(place.parent),
        ));
        assert(plan.skipped[k] == skipped_row(place, contents(place.parent).skipped[at.1]));
    }
}

/// The walk that plans lists the same folders, in the same order, as the walk that collects.
proof fn lemma_same_walk(run: PlanRun)
    requires
        run.was_asked_for(),
        run.outcome() is Ok,
    ensures
        storage::is_walk_run(run.root, run.listings()),
        storage::walk_run(run.root, run.listings()).to_visit == run.outcome()->Ok_0.to_visit.map_values(
            |p: PendingFolderView| p.parent,
        ),
        storage::walked(run.root, run.listings()) == run.places().map_values(
            |p: PendingFolderView| p.parent,
        ),
    decreases run.answers.len(),
{
    let parent = |p: PendingFolderView| p.parent;
    let walk = run.outcome()->Ok_0;
    if run.answers.len() == 0 {
        assert(walk.to_visit.map_values(parent) =~= seq![run.root]);
        assert(run.places().map_values(parent) =~= Seq::empty());
    } else {
        lemma_last_step(run);
        let before = run.before();
        lemma_same_walk(before);
        let old_walk = before.outcome()->Ok_0;
        let objects = run.answers.last()->Ok_0.objects;
        let place = old_walk.to_visit.last();
        assert(run.listings().drop_last() =~= before.listings());
        assert(run.listings().last() == objects);
        lemma_folder_count(objects, place);
        let same = storage::walk_run(run.root, before.listings());
        assert(same.to_visit.last() == place.parent);
        let more = folder_plan::pending_folders(objects, place);
        assert(walk.to_visit.map_values(parent) =~= same.to_visit.drop_last() + more.map_values(
            parent,
        ));
        assert(run.places().map_values(parent) =~= before.places().map_values(parent).push(
            place.parent,
        ));
    }
}

/// Files of a listing whose objects have distinct handles have distinct handles.
proof fn lemma_files_are_distinct(objects: Seq<ObjectInfoView>, place: PendingFolderView)
    requires
        forall|i: int, j: int|
            0 <= i < objects.len() && 0 <= j < objects.len() && (#[trigger] objects[i]).handle == (
            #[trigger] objects[j]).handle ==> i == j,
    ensures
        forall|a: int, b: int|
            0 <= a < b < folder_plan::planned_files(objects, place).len() ==> (
            #[trigger] folder_plan::planned_files(objects, place)[a]).handle != (
            #[trigger] folder_plan::planned_files(objects, place)[b]).handle,
    decreases objects.len(),
{
    if objects.len() > 0 {
        let fewer = objects.drop_last();
        assert forall|i: int, j: int|
            0 <= i < fewer.len() && 0 <= j < fewer.len() && (#[trigger] fewer[i]).handle == (
            #[trigger] fewer[j]).handle implies i == j by {
            assert(fewer[i] == objects[i] && fewer[j] == objects[j]);
        }
        lemma_files_are_distinct(fewer, place);
        let before = folder_plan::planned_files(fewer, place);
        let files = folder_plan::planned_files(objects, place);
        assert forall|a: int, b: int| 0 <= a < b < files.len() implies (#[trigger] files[a]).handle != (
        #[trigger] files[b]).handle by {
            assert(files[a] == before[a]);
            if b < before.len() {
                assert(files[b] == before[b]);
            } else {
                let i = lemma_file_where(fewer, place, a);
                assert(fewer[i] == objects[i]);
                assert(files[b].handle == objects[objects.len() - 1].handle);
            }
        }
    }
}

/// In a tree each object is planned once: no folder is listed twice, no two planned files share a handle, and
/// the planned folders stand, in order, for folders of which no two share a handle.
pub proof fn law_in_a_tree_each_object_is_planned_once(run: PlanRun, contents: DeviceContents)
    requires
        storage::is_tree(objects_in(contents), run.root),
        run.was_asked_for(),
        run.is_answered_from(contents),
        run.outcome() is Ok,
    ensures
        ({
            let plan = run.outcome()->Ok_0.plan;
            let folders = storage::folders_of(storage::all_listed(run.listings()));
            &&& forall|a: int, b: int|
                0 <= a < b < run.places().len() ==> (#[trigger] run.places()[a]).parent != (
                #[trigger] run.places()[b]).parent
            &&& forall|a: int, b: int|
                0 <= a < b < plan.files.len() ==> (#[trigger] plan.files[a]).handle != (
                #[trigger] plan.files[b]).handle
            &&& folders.no_duplicates()
            &&& folders.len() == plan.folders.len()
            &&& forall|k: int|
                0 <= k < folders.len() ==> #[trigger] folder_was_listed(run, k)
        }),
    decreases run.answers.len(),
{
    let plan = run.outcome()->Ok_0.plan;
    let places = run.places();
    let listings = run.listings();
    let folders = storage::folders_of(storage::all_listed(listings));
    let seen = storage::walked(run.root, listings);
    let tree = objects_in(contents);
    lemma_places_len(run);
    lemma_same_walk(run);
    lemma_planned_folder_count(run);
    assert(seen.len() == places.len());
    assert forall|n: int| 0 <= n < listings.len() implies #[trigger] listings[n] == tree(seen[n]) by {
        assert(run.answers[n] == Ok::<ObjectCollectionView, error::ErrorView>(
            contents(places[n].parent),
        ));
        assert(seen[n] == places[n].parent);
    }
    storage::law_a_walk_finds_each_object_once(tree, run.root, listings);
    storage::law_a_folder_comes_before_its_contents(run.root, listings);
    storage::lemma_walk_stays_below(tree, run.root, listings);
    assert forall|a: int, b: int| 0 <= a < b < places.len() implies (#[trigger] places[a]).parent != (
    #[trigger] places[b]).parent by {
        assert(seen[a] == places[a].parent && seen[b] == places[b].parent);
    }
    let found = storage::all_listed(listings);
    assert forall|i: int, j: int|
        0 <= i < found.len() && 0 <= j < found.len() && (#[trigger] found[i]).handle == (
        #[trigger] found[j]).handle implies i == j by {}
    storage::lemma_folders_are_distinct(found);
    assert forall|k: int| 0 <= k < folders.len() implies #[trigger] folder_was_listed(run, k) by {
        let at = lemma_folder_origin(run, k);
        assert(folder_comes_from(run, k, at.0, at.1));
    }
    if run.answers.len() > 0 {
        lemma_last_step(run);
        lemma_answered_before(run, contents);
        let before = run.before();
        law_in_a_tree_each_object_is_planned_once(before, contents);
        let walk = before.outcome()->Ok_0;
        let last = before.answers.len() as int;
        let objects = run.answers.last()->Ok_0.objects;
        let place = walk.to_visit.last();
        assert(listings[last] == objects && places[last] == place);
        assert(objects == tree(seen[last]));
        assert(storage::is_below(tree, run.root, seen[last]));
        assert forall|i: int, j: int|
            0 <= i < objects.len() && 0 <= j < objects.len() && (#[trigger] objects[i]).handle == (
            #[trigger] objects[j]).handle implies i == j by {
            assert(tree(seen[last])[i].handle == tree(seen[last])[j].handle);
        }
        lemma_files_are_distinct(objects, place);
        let old_files = walk.plan.files;
        let more = folder_plan::planned_files(objects, place);
        assert forall|a: int, b: int| 0 <= a < b < plan.files.len() implies (
        #[trigger] plan.files[a]).handle != (#[trigger] plan.files[b]).handle by {
            if b < old_files.len() {
                assert(plan.files[a] == old_files[a] && plan.files[b] == old_files[b]);
            } else {
                assert(plan.files[b] == more[b - old_files.len()]);
                if a < old_files.len() {
                    let at = lemma_file_origin(before, a);
                    let j = lemma_file_where(objects, place, b - old_files.len());
                    lemma_places_len(before);
                    assert(before.listings()[at.0] == listings[at.0]);
                    assert(plan.files[a] == old_files[a]);
                    assert(plan.files[a].handle == tree(seen[at.0])[at.1].handle);
                    assert(plan.files[b].handle == tree(seen[last])[j].handle);
                    assert(storage::is_below(tree, run.root, seen[at.0]));
                    assert(seen[at.0] != seen[last]);
                } else {
                    assert(plan.files[a] == more[a - old_files.len()]);
                }
            }
        }
    }
}

} // verus!
