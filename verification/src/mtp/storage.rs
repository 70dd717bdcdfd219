//! Storage operations: listings and what they amount to, recursive walks, and windowed downloads.

use vstd::prelude::*;

use crate::mtp::backend::usb;
use crate::mtp::backend::{BackendListingErrorView, ByteRange, ListedObject, ListingErrorDisposition};
use crate::mtp::error::{Error, ErrorView};
use crate::mtp::types::{ObjectHandle, ObjectInfo, ObjectInfoView, StorageId, StorageInfo};
use crate::search;

verus! {

/// A per-handle metadata failure that was safe to skip while reading the other objects.
#[derive(Debug)]
pub struct SkippedObject {
    /// The object handle whose metadata request failed.
    pub handle: ObjectHandle,
    /// The error reported for that handle.
    pub error: Error,
}

/// A [`SkippedObject`] with its error as a view.
pub struct SkippedObjectView {
    pub handle: ObjectHandle,
    pub error: ErrorView,
}

impl View for SkippedObject {
    type V = SkippedObjectView;

    open spec fn view(&self) -> SkippedObjectView {
        SkippedObjectView { handle: self.handle, error: self.error@ }
    }
}

/// One item of a listing.
#[derive(Debug)]
pub enum ListingItem {
    /// An object whose metadata the device returned.
    Object(ObjectInfo),
    /// A handle the device refused, safely enough that the rest of the listing continues.
    Skipped(SkippedObject),
}

/// A [`ListingItem`] with its parts as views.
pub enum ListingItemView {
    Object(ObjectInfoView),
    Skipped(SkippedObjectView),
}

impl View for ListingItem {
    type V = ListingItemView;

    open spec fn view(&self) -> ListingItemView {
        match self {
            ListingItem::Object(info) => ListingItemView::Object(info@),
            ListingItem::Skipped(skipped) => ListingItemView::Skipped(skipped@),
        }
    }
}

impl ListingItem {
    /// The object, or `None` if this item was skipped.
    pub fn object(self) -> (r: Option<ObjectInfo>)
        ensures
            r == (match self {
                ListingItem::Object(info) => Some(info),
                ListingItem::Skipped(_) => None,
            }),
    {
        match self {
            ListingItem::Object(info) => Some(info),
            ListingItem::Skipped(_) => None,
        }
    }
}

/// What a backend yields for one object, as a view.
pub type Listed = Result<ObjectInfoView, BackendListingErrorView>;

/// What a backend yields for several objects, as views.
pub open spec fn listed_views(items: Seq<ListedObject>) -> Seq<Listed> {
    items.map_values(|item: ListedObject| crate::mtp::backend::listed_view(item))
}

/// Whether an item ends its listing.
pub open spec fn is_fatal(item: Listed) -> bool {
    item is Err && item->Err_0.disposition is Fatal
}

/// What a caller of a streaming listing sees of an item.
pub open spec fn classified(item: Listed) -> Result<ListingItemView, ErrorView> {
    match item {
        Ok(info) => Ok(ListingItemView::Object(info)),
        Err(e) => if e.disposition is SkipObject {
            Ok(ListingItemView::Skipped(SkippedObjectView { handle: e.handle, error: e.source }))
        } else {
            Err(e.source)
        },
    }
}

/// A listing item as a caller sees it, with views.
pub open spec fn next_view(item: Result<ListingItem, Error>) -> Result<ListingItemView, ErrorView> {
    match item {
        Ok(item) => Ok(item@),
        Err(e) => Err(e@),
    }
}

/// The progress of a listing in which items arrive one at a time.
#[derive(Debug)]
pub struct ObjectListing {
    /// How many handles the device reported, before any filtering.
    pub total: usize,
    /// How many items have been yielded so far.
    pub fetched: usize,
}

impl ObjectListing {
    /// A listing of `total` handles, none of them fetched.
    pub fn new(total: usize) -> (r: Self)
        ensures
            r.total == total,
            r.fetched == 0,
    {
        ObjectListing { total, fetched: 0 }
    }

    /// Total number of object handles returned by the device. Objects outside the folder are counted
    /// here and never yielded.
    pub fn total(&self) -> (r: usize)
        ensures
            r == self.total,
    {
        self.total
    }

    /// Number of items yielded so far.
    pub fn fetched(&self) -> (r: usize)
        ensures
            r == self.fetched,
    {
        self.fetched
    }

    /// Take the next item of the backend, `None` at the end, and say what the caller sees.
    ///
    /// An error means that the listing is over. A skipped object means that this one is unreadable
    /// and the listing goes on.
    pub fn next(&mut self, item: Option<ListedObject>) -> (r: Option<Result<ListingItem, Error>>)
        requires
            old(self).fetched < usize::MAX,
        ensures
            *final(self) == listing_step(*old(self), listed_item_view(item)),
            final(self).fetched == old(self).fetched + (if r matches Some(Ok(_)) {
                1int
            } else {
                0int
            }),
            match item {
                Some(listed) => r is Some && next_view(r->0) == classified(
                    crate::mtp::backend::listed_view(listed),
                ),
                None => r is None,
            },
    {
        match item {
            None => None,
            Some(Ok(info)) => {
                self.fetched = self.fetched + 1;
                Some(Ok(ListingItem::Object(info)))
            },
            Some(Err(e)) => match e.disposition {
                ListingErrorDisposition::SkipObject => {
                    self.fetched = self.fetched + 1;
                    Some(Ok(ListingItem::Skipped(SkippedObject { handle: e.handle, error: e.source })))
                },
                ListingErrorDisposition::Fatal => Some(Err(e.source)),
            },
        }
    }
}

/// What a backend yields next, as a view; `None` at the end.
pub open spec fn listed_item_view(item: Option<ListedObject>) -> Option<Listed> {
    match item {
        Some(item) => Some(crate::mtp::backend::listed_view(item)),
        None => None,
    }
}

/// A listing after its backend yielded something, or ended.
pub open spec fn listing_step(listing: ObjectListing, item: Option<Listed>) -> ObjectListing {
    match item {
        Some(item) => if classified(item) is Ok {
            ObjectListing { fetched: (listing.fetched + 1) as usize, ..listing }
        } else {
            listing
        },
        None => listing,
    }
}

/// A listing of `total` handles after its backend yielded these, one after another.
pub open spec fn listing_run(total: usize, items: Seq<Option<Listed>>) -> ObjectListing
    decreases items.len(),
{
    if items.len() == 0 {
        ObjectListing { total, fetched: 0 }
    } else {
        listing_step(listing_run(total, items.drop_last()), items.last())
    }
}

/// What the caller of a listing has got, objects and skipped handles alike.
pub open spec fn yielded(items: Seq<Option<Listed>>) -> Seq<ListingItemView>
    decreases items.len(),
{
    if items.len() == 0 {
        Seq::empty()
    } else {
        let before = yielded(items.drop_last());
        match items.last() {
            Some(item) => match classified(item) {
                Ok(seen) => before.push(seen),
                Err(_) => before,
            },
            None => before,
        }
    }
}

/// However often a listing was asked for its next item, the number of items fetched is that of the items
/// yielded, and the total stays what the device reported.
pub proof fn law_fetched_counts_what_was_yielded(total: usize, items: Seq<Option<Listed>>)
    requires
        yielded(items).len() <= usize::MAX,
    ensures
        listing_run(total, items).fetched == yielded(items).len(),
        listing_run(total, items).total == total,
    decreases items.len(),
{
    if items.len() > 0 {
        law_fetched_counts_what_was_yielded(total, items.drop_last());
    }
}

/// A completed tolerant read of a folder: what was readable, and what wasn't.
#[derive(Debug)]
pub struct ObjectCollection {
    /// Every object whose metadata was read.
    pub objects: Vec<ObjectInfo>,
    /// Per-handle failures that were safe to skip.
    pub skipped: Vec<SkippedObject>,
}

/// An [`ObjectCollection`] with its parts as views.
pub struct ObjectCollectionView {
    pub objects: Seq<ObjectInfoView>,
    pub skipped: Seq<SkippedObjectView>,
}

/// Objects as views.
pub open spec fn object_views(objects: Seq<ObjectInfo>) -> Seq<ObjectInfoView> {
    objects.map_values(|o: ObjectInfo| o@)
}

/// Skipped objects as views.
pub open spec fn skipped_views(skipped: Seq<SkippedObject>) -> Seq<SkippedObjectView> {
    skipped.map_values(|s: SkippedObject| s@)
}

impl View for ObjectCollection {
    type V = ObjectCollectionView;

    open spec fn view(&self) -> ObjectCollectionView {
        ObjectCollectionView {
            objects: object_views(self.objects@),
            skipped: skipped_views(self.skipped@),
        }
    }
}

/// The objects among the items of a listing, in order.
pub open spec fn objects_of(items: Seq<Listed>) -> Seq<ObjectInfoView>
    decreases items.len(),
{
    if items.len() == 0 {
        Seq::empty()
    } else {
        match items.last() {
            Ok(info) => objects_of(items.drop_last()).push(info),
            Err(_) => objects_of(items.drop_last()),
        }
    }
}

/// The skipped handles among the items of a listing, in order.
pub open spec fn skipped_of(items: Seq<Listed>) -> Seq<SkippedObjectView>
    decreases items.len(),
{
    if items.len() == 0 {
        Seq::empty()
    } else {
        match items.last() {
            Ok(_) => skipped_of(items.drop_last()),
            Err(e) => skipped_of(items.drop_last()).push(
                SkippedObjectView { handle: e.handle, error: e.source },
            ),
        }
    }
}

/// What a folder read amounts to, once every item is in and none of them was fatal: a folder whose
/// every handle failed is a failure, not an empty folder.
pub open spec fn collected(collection: ObjectCollectionView) -> Result<ObjectCollectionView, ErrorView> {
    if collection.objects.len() == 0 && collection.skipped.len() > 0 {
        Err(collection.skipped[0].error)
    } else {
        Ok(collection)
    }
}

impl ObjectCollection {
    /// A read that has taken no items yet.
    pub fn new() -> (r: Self)
        ensures
            r@.objects == Seq::<ObjectInfoView>::empty(),
            r@.skipped == Seq::<SkippedObjectView>::empty(),
            r.holds(Seq::empty()),
    {
        let r = ObjectCollection { objects: Vec::new(), skipped: Vec::new() };
        assert(r@.objects =~= Seq::<ObjectInfoView>::empty());
        assert(r@.skipped =~= Seq::<SkippedObjectView>::empty());
        r
    }

    /// Whether this read holds exactly what these items come to.
    pub open spec fn holds(&self, items: Seq<Listed>) -> bool {
        self@.objects == objects_of(items) && self@.skipped == skipped_of(items)
    }

    /// Take one item of a listing. A fatal one is handed back, and ends the read.
    pub fn take(&mut self, item: ListedObject) -> (r: Result<(), Error>)
        ensures
            ({
                let seen = crate::mtp::backend::listed_view(item);
                if is_fatal(seen) {
                    &&& crate::mtp::error::outcome(r) == Err::<(), ErrorView>(seen->Err_0.source)
                    &&& final(self)@ == old(self)@
                } else {
                    &&& r is Ok
                    &&& forall|items: Seq<Listed>| #[trigger]
                        old(self).holds(items) ==> final(self).holds(items.push(seen))
                }
            }),
    {
        let ghost seen = crate::mtp::backend::listed_view(item);
        let ghost before = *self;
        match item {
            Ok(info) => {
                self.objects.push(info);
                proof {
                    assert(self@.objects =~= before@.objects.push(info@));
                    assert forall|items: Seq<Listed>| #[trigger]
                        before.holds(items) implies self.holds(items.push(seen)) by {
                        assert(items.push(seen).drop_last() =~= items);
                    }
                }
                Ok(())
            },
            Err(e) => match e.disposition {
                ListingErrorDisposition::SkipObject => {
                    let skipped = SkippedObject { handle: e.handle, error: e.source };
                    let ghost entry = skipped@;
                    self.skipped.push(skipped);
                    proof {
                        assert(self@.skipped =~= before@.skipped.push(entry));
                        assert forall|items: Seq<Listed>| #[trigger]
                            before.holds(items) implies self.holds(items.push(seen)) by {
                            assert(items.push(seen).drop_last() =~= items);
                        }
                    }
                    Ok(())
                },
                ListingErrorDisposition::Fatal => Err(e.source),
            },
        }
    }

    /// Finish the read.
    ///
    /// Tolerating one bad object is the point. Reporting a device that answered nothing as an empty
    /// folder is not: that reads as "everything was deleted" to anything that syncs. So where every
    /// handle was skipped, the first failure is reported.
    pub fn finish(self) -> (r: Result<ObjectCollection, Error>)
        ensures
            match r {
                Ok(collection) => collected(self@) == Ok::<ObjectCollectionView, ErrorView>(
                    collection@,
                ),
                Err(e) => collected(self@) == Err::<ObjectCollectionView, ErrorView>(e@),
            },
    {
        if self.objects.is_empty() && !self.skipped.is_empty() {
            let mut skipped = self.skipped;
            let first = skipped.swap_remove(0);
            return Err(first.error);
        }
        Ok(self)
    }
}

/// Read a folder to the end from the items a backend yields for it: the objects and the skipped
/// handles, or the first fatal error.
pub fn collect_objects(items: Vec<ListedObject>) -> (r: Result<ObjectCollection, Error>)
    ensures
        ({
            let seen = listed_views(items@);
            match r {
                Ok(collection) => collect_outcome(seen) == Ok::<ObjectCollectionView, ErrorView>(
                    collection@,
                ),
                Err(e) => collect_outcome(seen) == Err::<ObjectCollectionView, ErrorView>(e@),
            }
        }),
{
    let ghost seen = listed_views(items@);
    let mut collection = ObjectCollection::new();
    let ghost mut done: int = 0;
    assert(seen.take(0) =~= Seq::empty());
    for item in it: items.into_iter()
        invariant
            seen == listed_views(items@),
            seen.len() == it.seq().len(),
            forall|i: int|
                0 <= i < seen.len() ==> seen[i] == crate::mtp::backend::listed_view(
                    #[trigger] it.seq()[i],
                ),
            done == it.index(),
            collection.holds(seen.take(done)),
            forall|i: int| 0 <= i < done ==> !is_fatal(#[trigger] seen[i]),
    {
        assert(seen.take(done).push(seen[done]) =~= seen.take(done + 1));
        match collection.take(item) {
            Ok(_) => {},
            Err(e) => {
                proof {
                    search::lemma_first_where_at(seen, |item: Listed| is_fatal(item), done);
                }
                return Err(e);
            },
        }
        proof {
            done = done + 1;
        }
    }
    proof {
        assert(seen.take(done) =~= seen);
        lemma_no_fatal(seen);
    }
    collection.finish()
}

/// The position of the first fatal item, if there is one.
pub open spec fn first_fatal(items: Seq<Listed>) -> Option<int> {
    search::first_where(items, |item: Listed| is_fatal(item))
}

/// What the items of a listing come to: the first fatal error, or else everything read.
pub open spec fn collect_outcome(items: Seq<Listed>) -> Result<ObjectCollectionView, ErrorView> {
    match first_fatal(items) {
        Some(i) => Err(items[i]->Err_0.source),
        None => collected(
            ObjectCollectionView { objects: objects_of(items), skipped: skipped_of(items) },
        ),
    }
}

proof fn lemma_no_fatal(items: Seq<Listed>)
    requires
        forall|i: int| 0 <= i < items.len() ==> !is_fatal(#[trigger] items[i]),
    ensures
        first_fatal(items) is None,
{
    search::lemma_first_where_none(items, |item: Listed| is_fatal(item));
}

/// How many answers described an object that lies outside the folder.
pub open spec fn outside_count(filter: usb::ParentFilter, answers: Seq<usb::InfoAnswer>) -> nat
    decreases answers.len(),
{
    if answers.len() == 0 {
        0
    } else {
        outside_count(filter, answers.drop_last()) + (match answers.last() {
            Ok(info) => if filter.admits(info.parent) {
                0nat
            } else {
                1nat
            },
            Err(_) => 0nat,
        })
    }
}

/// Every handle the device listed is accounted for: it was read, it was skipped, or its object lies
/// outside the folder.
pub proof fn law_every_handle_is_accounted_for(
    filter: usb::ParentFilter,
    handles: Seq<crate::ptp::PtpHandle>,
    answers: Seq<usb::InfoAnswer>,
)
    requires
        handles.len() == answers.len(),
    ensures
        ({
            let items = usb::listed_items(filter, handles, answers);
            objects_of(items).len() + skipped_of(items).len() + outside_count(filter, answers)
                == handles.len()
        }),
    decreases handles.len(),
{
    if handles.len() > 0 {
        law_every_handle_is_accounted_for(filter, handles.drop_last(), answers.drop_last());
        let before = usb::listed_items(filter, handles.drop_last(), answers.drop_last());
        match usb::listed_item(filter, handles.last(), answers.last()) {
            Some(item) => {
                assert(before.push(item).drop_last() =~= before);
            },
            None => {},
        }
    }
}

/// A folder whose every handle the device refused is never reported as an empty folder: the read
/// fails, with the device's first answer.
pub proof fn law_unanswered_folder_is_not_empty(
    filter: usb::ParentFilter,
    handles: Seq<crate::ptp::PtpHandle>,
    answers: Seq<usb::InfoAnswer>,
)
    requires
        handles.len() == answers.len(),
        handles.len() > 0,
        forall|i: int|
            0 <= i < answers.len() ==> (#[trigger] answers[i]) is Err && usb::concerns_one_object(
                answers[i]->Err_0,
            ),
    ensures
        collect_outcome(usb::listed_items(filter, handles, answers)) == Err::<
            ObjectCollectionView,
            ErrorView,
        >(crate::mtp::error::error_of_ptp(answers[0]->Err_0)),
{
    lemma_all_refused(filter, handles, answers);
    lemma_no_fatal(usb::listed_items(filter, handles, answers));
}

proof fn lemma_all_refused(
    filter: usb::ParentFilter,
    handles: Seq<crate::ptp::PtpHandle>,
    answers: Seq<usb::InfoAnswer>,
)
    requires
        handles.len() == answers.len(),
        forall|i: int|
            0 <= i < answers.len() ==> (#[trigger] answers[i]) is Err && usb::concerns_one_object(
                answers[i]->Err_0,
            ),
    ensures
        ({
            let items = usb::listed_items(filter, handles, answers);
            &&& items.len() == handles.len()
            &&& objects_of(items).len() == 0
            &&& skipped_of(items).len() == handles.len()
            &&& handles.len() > 0 ==> skipped_of(items)[0].error == crate::mtp::error::error_of_ptp(
                answers[0]->Err_0,
            )
            &&& forall|i: int| 0 <= i < items.len() ==> !is_fatal(#[trigger] items[i])
        }),
    decreases handles.len(),
{
    if handles.len() > 0 {
        let fewer = answers.drop_last();
        assert forall|i: int| 0 <= i < fewer.len() implies (#[trigger] fewer[i]) is Err
            && usb::concerns_one_object(fewer[i]->Err_0) by {
            assert(fewer[i] == answers[i]);
        }
        lemma_all_refused(filter, handles.drop_last(), fewer);
        let before = usb::listed_items(filter, handles.drop_last(), fewer);
        assert(answers.last() == answers[answers.len() - 1]);
        let item = usb::listed_item(filter, handles.last(), answers.last())->0;
        assert(before.push(item).drop_last() =~= before);
    }
}

/// What a listing yields for the first handles comes first in what it yields for all.
proof fn lemma_listed_prefix(
    filter: usb::ParentFilter,
    handles: Seq<crate::ptp::PtpHandle>,
    answers: Seq<usb::InfoAnswer>,
    n: int,
)
    requires
        handles.len() == answers.len(),
        0 <= n <= handles.len(),
    ensures
        ({
            let first = usb::listed_items(filter, handles.take(n), answers.take(n));
            let items = usb::listed_items(filter, handles, answers);
            &&& first.len() <= items.len()
            &&& items.take(first.len() as int) == first
        }),
    decreases handles.len(),
{
    let items = usb::listed_items(filter, handles, answers);
    if n == handles.len() {
        assert(handles.take(n) =~= handles);
        assert(answers.take(n) =~= answers);
        assert(items.take(items.len() as int) =~= items);
    } else {
        lemma_listed_prefix(filter, handles.drop_last(), answers.drop_last(), n);
        assert(handles.drop_last().take(n) =~= handles.take(n));
        assert(answers.drop_last().take(n) =~= answers.take(n));
        let first = usb::listed_items(filter, handles.take(n), answers.take(n));
        let before = usb::listed_items(filter, handles.drop_last(), answers.drop_last());
        assert(items.take(first.len() as int) =~= before.take(first.len() as int));
    }
}

/// Whether an answer leaves the rest of its listing usable.
pub open spec fn leaves_listing_usable(answer: usb::InfoAnswer) -> bool {
    match answer {
        Ok(_) => true,
        Err(e) => usb::concerns_one_object(e),
    }
}

/// A listing of which every answer leaves the rest usable holds nothing fatal.
proof fn lemma_usable_listing(
    filter: usb::ParentFilter,
    handles: Seq<crate::ptp::PtpHandle>,
    answers: Seq<usb::InfoAnswer>,
)
    requires
        handles.len() == answers.len(),
        forall|i: int| 0 <= i < answers.len() ==> leaves_listing_usable(#[trigger] answers[i]),
    ensures
        ({
            let items = usb::listed_items(filter, handles, answers);
            forall|i: int| 0 <= i < items.len() ==> !is_fatal(#[trigger] items[i])
        }),
    decreases handles.len(),
{
    if handles.len() > 0 {
        let fewer = answers.drop_last();
        assert forall|i: int| 0 <= i < fewer.len() implies leaves_listing_usable(
            #[trigger] fewer[i],
        ) by {
            assert(fewer[i] == answers[i]);
        }
        lemma_usable_listing(filter, handles.drop_last(), fewer);
        assert(leaves_listing_usable(answers[answers.len() - 1]));
        let before = usb::listed_items(filter, handles.drop_last(), fewer);
        let items = usb::listed_items(filter, handles, answers);
        assert forall|i: int| 0 <= i < items.len() implies !is_fatal(#[trigger] items[i]) by {
            if i < before.len() {
                assert(items[i] == before[i]);
            }
        }
    }
}

/// What is among the objects or the skipped handles of some items is so among more.
proof fn lemma_found_stays(items: Seq<Listed>, n: int)
    requires
        0 <= n <= items.len(),
    ensures
        forall|o: ObjectInfoView|
            objects_of(items.take(n)).contains(o) ==> #[trigger] objects_of(items).contains(o),
        forall|s: SkippedObjectView|
            skipped_of(items.take(n)).contains(s) ==> #[trigger] skipped_of(items).contains(s),
    decreases items.len(),
{
    if n == items.len() {
        assert(items.take(n) =~= items);
    } else {
        lemma_found_stays(items.drop_last(), n);
        assert(items.drop_last().take(n) =~= items.take(n));
        let before = items.drop_last();
        assert forall|o: ObjectInfoView| objects_of(
            items.take(n),
        ).contains(o) implies #[trigger] objects_of(items).contains(o) by {
            let k = choose|k: int|
                0 <= k < objects_of(before).len() && objects_of(before)[k] == o;
            assert(objects_of(before).contains(o));
            assert(objects_of(items)[k] == o);
        }
        assert forall|s: SkippedObjectView| skipped_of(
            items.take(n),
        ).contains(s) implies #[trigger] skipped_of(items).contains(s) by {
            let k = choose|k: int|
                0 <= k < skipped_of(before).len() && skipped_of(before)[k] == s;
            assert(skipped_of(before).contains(s));
            assert(skipped_of(items)[k] == s);
        }
    }
}

/// An object the device will not describe hides none of its siblings: every answer that describes an
/// object of the folder is among the objects read, every one that refuses to is on record under its
/// handle, and nothing ends the listing early.
pub proof fn law_valid_siblings_survive(
    filter: usb::ParentFilter,
    handles: Seq<crate::ptp::PtpHandle>,
    answers: Seq<usb::InfoAnswer>,
    i: int,
)
    requires
        handles.len() == answers.len(),
        forall|j: int| 0 <= j < answers.len() ==> leaves_listing_usable(#[trigger] answers[j]),
        0 <= i < answers.len(),
    ensures
        ({
            let items = usb::listed_items(filter, handles, answers);
            &&& first_fatal(items) is None
            &&& match answers[i] {
                Ok(info) => filter.admits(info.parent) ==> objects_of(items).contains(
                    crate::mtp::types::neutral_object(info, handles[i]),
                ),
                Err(e) => skipped_of(items).contains(
                    SkippedObjectView {
                        handle: crate::mtp::types::neutral_handle(handles[i]),
                        error: crate::mtp::error::error_of_ptp(e),
                    },
                ),
            }
        }),
{
    let items = usb::listed_items(filter, handles, answers);
    lemma_usable_listing(filter, handles, answers);
    lemma_no_fatal(items);
    let h = handles.take(i + 1);
    let a = answers.take(i + 1);
    lemma_listed_prefix(filter, handles, answers, i + 1);
    let some = usb::listed_items(filter, h, a);
    assert(h.last() == handles[i]);
    assert(a.last() == answers[i]);
    let before = usb::listed_items(filter, h.drop_last(), a.drop_last());
    match usb::listed_item(filter, handles[i], answers[i]) {
        Some(item) => {
            assert(some == before.push(item));
            assert(some.drop_last() =~= before);
            match item {
                Ok(info) => {
                    assert(objects_of(some)[objects_of(before).len() as int] == info);
                },
                Err(e) => {
                    assert(skipped_of(some)[skipped_of(before).len() as int]
                        == (SkippedObjectView { handle: e.handle, error: e.source }));
                },
            }
        },
        None => {},
    }
    lemma_found_stays(items, some.len() as int);
}

/// Every other failure ends the read: whatever the device answers after it, the read fails with it.
pub proof fn law_other_failures_are_fatal(
    filter: usb::ParentFilter,
    handles: Seq<crate::ptp::PtpHandle>,
    answers: Seq<usb::InfoAnswer>,
    i: int,
)
    requires
        handles.len() == answers.len(),
        0 <= i < answers.len(),
        forall|j: int| 0 <= j < i ==> leaves_listing_usable(#[trigger] answers[j]),
        !leaves_listing_usable(answers[i]),
    ensures
        collect_outcome(usb::listed_items(filter, handles, answers)) == Err::<
            ObjectCollectionView,
            ErrorView,
        >(crate::mtp::error::error_of_ptp(answers[i]->Err_0)),
{
    let items = usb::listed_items(filter, handles, answers);
    lemma_listed_prefix(filter, handles, answers, i);
    lemma_listed_prefix(filter, handles, answers, i + 1);
    let first = usb::listed_items(filter, handles.take(i), answers.take(i));
    let h = handles.take(i + 1);
    let a = answers.take(i + 1);
    let some = usb::listed_items(filter, h, a);
    assert(h.drop_last() =~= handles.take(i));
    assert(a.drop_last() =~= answers.take(i));
    assert(h.last() == handles[i]);
    assert(a.last() == answers[i]);
    let item = usb::listed_item(filter, handles[i], answers[i])->0;
    assert(some == first.push(item));
    assert forall|j: int| 0 <= j < answers.take(i).len() implies leaves_listing_usable(
        #[trigger] answers.take(i)[j],
    ) by {
        assert(answers.take(i)[j] == answers[j]);
    }
    lemma_usable_listing(filter, handles.take(i), answers.take(i));
    let at = first.len() as int;
    let p = |item: Listed| is_fatal(item);
    assert(items[at] == items.take(some.len() as int)[at]);
    assert(p(items[at]));
    assert forall|j: int| 0 <= j < at implies !p(#[trigger] items[j]) by {
        assert(items[j] == items.take(at)[j]);
    }
    search::lemma_first_where_at(items, p, at);
}

/// A read that comes back with no objects came back with no skipped handles either, so an empty
/// result always means an empty folder.
pub proof fn law_empty_means_empty(items: Seq<Listed>)
    ensures
        collect_outcome(items) matches Ok(c) ==> (c.objects.len() == 0 ==> c.skipped.len() == 0),
{
}

/// The objects among the items of a streaming listing, as its caller sees them.
pub open spec fn streamed_objects(items: Seq<Listed>) -> Seq<ObjectInfoView>
    decreases items.len(),
{
    if items.len() == 0 {
        Seq::empty()
    } else {
        match classified(items.last()) {
            Ok(ListingItemView::Object(info)) => streamed_objects(items.drop_last()).push(info),
            _ => streamed_objects(items.drop_last()),
        }
    }
}

/// Streaming a folder and collecting it agree on the objects.
pub proof fn law_streaming_and_collecting_agree(items: Seq<Listed>)
    ensures
        streamed_objects(items) == objects_of(items),
        collect_outcome(items) matches Ok(c) ==> c.objects == streamed_objects(items),
    decreases items.len(),
{
    if items.len() > 0 {
        law_streaming_and_collecting_agree(items.drop_last());
    }
}

/// The folders among objects, as places to list.
pub open spec fn folders_of(objects: Seq<ObjectInfoView>) -> Seq<Option<ObjectHandle>>
    decreases objects.len(),
{
    if objects.len() == 0 {
        Seq::empty()
    } else if objects.last().is_folder() {
        folders_of(objects.drop_last()).push(Some(objects.last().handle))
    } else {
        folders_of(objects.drop_last())
    }
}

pub(crate) proof fn lemma_folders_of_add(a: Seq<ObjectInfoView>, b: Seq<ObjectInfoView>)
    ensures
        folders_of(a + b) == folders_of(a) + folders_of(b),
    decreases b.len(),
{
    if b.len() == 0 {
        assert(a + b =~= a);
        assert(folders_of(a) + folders_of(b) =~= folders_of(a));
    } else {
        lemma_folders_of_add(a, b.drop_last());
        assert((a + b).drop_last() =~= a + b.drop_last());
        assert((a + b).last() == b.last());
        assert(folders_of(a + b) =~= folders_of(a) + folders_of(b));
    }
}

/// A walk over a folder and everything below it, listing one folder at a time.
#[derive(Debug)]
pub struct RecursiveWalk {
    /// Folders still to be listed; the last one comes next.
    pub to_visit: Vec<Option<ObjectHandle>>,
    /// Everything found so far.
    pub found: Vec<ObjectInfo>,
}

/// A [`RecursiveWalk`] with its objects as views.
pub struct RecursiveWalkView {
    pub to_visit: Seq<Option<ObjectHandle>>,
    pub found: Seq<ObjectInfoView>,
}

impl View for RecursiveWalk {
    type V = RecursiveWalkView;

    open spec fn view(&self) -> RecursiveWalkView {
        RecursiveWalkView { to_visit: self.to_visit@, found: object_views(self.found@) }
    }
}

/// A walk from a folder on, as it starts.
pub open spec fn fresh_walk(parent: Option<ObjectHandle>) -> RecursiveWalkView {
    RecursiveWalkView { to_visit: seq![parent], found: Seq::empty() }
}

/// A walk after its next folder listed these objects.
pub open spec fn walk_step(w: RecursiveWalkView, objects: Seq<ObjectInfoView>) -> RecursiveWalkView {
    RecursiveWalkView {
        to_visit: w.to_visit.drop_last() + folders_of(objects),
        found: w.found + objects,
    }
}

impl RecursiveWalk {
    /// A walk from `parent` on, `None` for the storage root.
    pub fn new(parent: Option<ObjectHandle>) -> (r: Self)
        ensures
            r@ == fresh_walk(parent),
    {
        let r = RecursiveWalk { to_visit: vec![parent], found: Vec::new() };
        proof {
            assert(r@.to_visit =~= seq![parent]);
            assert(r@.found =~= Seq::<ObjectInfoView>::empty());
        }
        r
    }

    /// The next folder to list, or `None` when the walk is over.
    pub fn next(&self) -> (r: Option<Option<ObjectHandle>>)
        ensures
            r == (if self@.to_visit.len() > 0 {
                Some(self@.to_visit.last())
            } else {
                None
            }),
    {
        if self.to_visit.len() == 0 {
            return None;
        }
        Some(self.to_visit[self.to_visit.len() - 1])
    }

    /// Take the listing of the next folder. A folder that will not list ends the walk: its error is the
    /// walk's result.
    pub fn take(&mut self, listing: Result<Vec<ObjectInfo>, Error>) -> (r: Result<(), Error>)
        requires
            old(self)@.to_visit.len() > 0,
        ensures
            match listing {
                Ok(objects) => r is Ok && final(self)@ == walk_step(
                    old(self)@,
                    object_views(objects@),
                ),
                Err(e) => r == Err::<(), Error>(e) && final(self)@ == old(self)@,
            },
    {
        let objects = match listing {
            Ok(objects) => objects,
            Err(e) => {
                return Err(e);
            },
        };
        let ghost before = self@;
        let ghost listed = objects@;
        let ghost mut done: int = 0;
        self.to_visit.pop();
        assert(object_views(listed.take(0)) =~= Seq::<ObjectInfoView>::empty());
        assert(self@.to_visit =~= before.to_visit.drop_last() + folders_of(
            object_views(listed.take(0)),
        ));
        assert(self@.found =~= before.found + object_views(listed.take(0)));
        for obj in it: objects.into_iter()
            invariant
                it.seq() == listed,
                done == it.index(),
                self@ == walk_step(before, object_views(listed.take(done))),
        {
            let ghost view = obj@;
            let ghost now = self@;
            proof {
                assert(object_views(listed.take(done + 1)) =~= object_views(listed.take(done)).push(
                    view,
                ));
                assert(object_views(listed.take(done + 1)).drop_last() =~= object_views(
                    listed.take(done),
                ));
            }
            if obj.is_folder() {
                self.to_visit.push(Some(obj.handle));
            }
            self.found.push(obj);
            proof {
                done = done + 1;
                assert(self@.found =~= now.found.push(view));
                assert(self@.found =~= before.found + object_views(listed.take(done)));
                assert(self@.to_visit =~= before.to_visit.drop_last() + folders_of(
                    object_views(listed.take(done)),
                ));
            }
        }
        assert(listed.take(done) =~= listed);
        Ok(())
    }

    /// Everything the walk found.
    pub fn finish(self) -> (r: Vec<ObjectInfo>)
        ensures
            object_views(r@) == self@.found,
    {
        self.found
    }
}

/// A walk from a folder on, after these listings, one after another.
pub open spec fn walk_run(
    root: Option<ObjectHandle>,
    listings: Seq<Seq<ObjectInfoView>>,
) -> RecursiveWalkView
    decreases listings.len(),
{
    if listings.len() == 0 {
        fresh_walk(root)
    } else {
        walk_step(walk_run(root, listings.drop_last()), listings.last())
    }
}

/// Whether each of these listings was asked for.
pub open spec fn is_walk_run(
    root: Option<ObjectHandle>,
    listings: Seq<Seq<ObjectInfoView>>,
) -> bool
    decreases listings.len(),
{
    listings.len() == 0 || (is_walk_run(root, listings.drop_last()) && walk_run(
        root,
        listings.drop_last(),
    ).to_visit.len() > 0)
}

/// The folders that were listed, one for each listing.
pub open spec fn walked(
    root: Option<ObjectHandle>,
    listings: Seq<Seq<ObjectInfoView>>,
) -> Seq<Option<ObjectHandle>>
    decreases listings.len(),
{
    if listings.len() == 0 {
        Seq::empty()
    } else {
        let before = listings.drop_last();
        walked(root, before).push(walk_run(root, before).to_visit.last())
    }
}

/// Every folder found, and the root, has been listed or still will be, once for each time it was found.
/// So once nothing is left to visit, each of them has been listed.
pub proof fn law_every_folder_is_listed(
    root: Option<ObjectHandle>,
    listings: Seq<Seq<ObjectInfoView>>,
)
    requires
        is_walk_run(root, listings),
    ensures
        ({
            let w = walk_run(root, listings);
            &&& (walked(root, listings) + w.to_visit).to_multiset() == (seq![root] + folders_of(
                w.found,
            )).to_multiset()
            &&& w.to_visit.len() == 0 ==> walked(root, listings).to_multiset() == (seq![root]
                + folders_of(w.found)).to_multiset()
        }),
    decreases listings.len(),
{
    let w = walk_run(root, listings);
    if listings.len() == 0 {
        assert(walked(root, listings) + w.to_visit =~= seq![root] + folders_of(w.found));
    } else {
        let fewer = listings.drop_last();
        let before = walk_run(root, fewer);
        law_every_folder_is_listed(root, fewer);
        let rest = before.to_visit.drop_last();
        let folder = before.to_visit.last();
        let more = folders_of(listings.last());
        assert(before.to_visit =~= rest.push(folder));
        lemma_move_across(walked(root, fewer), rest, folder);
        lemma_folders_of_add(before.found, listings.last());
        lemma_add_same(
            walked(root, listings) + rest,
            seq![root] + folders_of(before.found),
            more,
        );
        assert(walked(root, listings) + w.to_visit =~= walked(root, listings) + rest + more);
        assert(seq![root] + folders_of(w.found) =~= seq![root] + folders_of(before.found) + more);
    }
    if w.to_visit.len() == 0 {
        assert(walked(root, listings) + w.to_visit =~= walked(root, listings));
    }
}

/// The objects of some listings, one listing after another.
pub open spec fn all_listed(listings: Seq<Seq<ObjectInfoView>>) -> Seq<ObjectInfoView>
    decreases listings.len(),
{
    if listings.len() == 0 {
        Seq::empty()
    } else {
        all_listed(listings.drop_last()) + listings.last()
    }
}

/// A folder comes before what it contains: the walk finds what was listed, in the order in which it was
/// listed; the root is listed first, and any other folder only once an earlier listing has named it.
pub proof fn law_a_folder_comes_before_its_contents(
    root: Option<ObjectHandle>,
    listings: Seq<Seq<ObjectInfoView>>,
)
    requires
        is_walk_run(root, listings),
    ensures
        walk_run(root, listings).found == all_listed(listings),
        walked(root, listings).len() == listings.len(),
        listings.len() > 0 ==> walked(root, listings)[0] == root,
        forall|i: int|
            0 < i < listings.len() ==> folders_of(all_listed(listings.take(i))).contains(
                #[trigger] walked(root, listings)[i],
            ),
        listings.len() > 0 ==> forall|i: int|
            0 <= i < walk_run(root, listings).to_visit.len() ==> folders_of(
                all_listed(listings),
            ).contains(#[trigger] walk_run(root, listings).to_visit[i]),
    decreases listings.len(),
{
    if listings.len() > 0 {
        let fewer = listings.drop_last();
        let before = walk_run(root, fewer);
        let w = walk_run(root, listings);
        law_a_folder_comes_before_its_contents(root, fewer);
        lemma_folders_of_add(all_listed(fewer), listings.last());
        let old_folders = folders_of(all_listed(fewer));
        let more = folders_of(listings.last());
        assert forall|i: int| 0 < i < listings.len() implies folders_of(
            all_listed(listings.take(i)),
        ).contains(#[trigger] walked(root, listings)[i]) by {
            if i < fewer.len() {
                assert(fewer.take(i) =~= listings.take(i));
                assert(walked(root, listings)[i] == walked(root, fewer)[i]);
            } else {
                assert(listings.take(i) =~= fewer);
                let at = before.to_visit.len() - 1;
                assert(walked(root, listings)[i] == before.to_visit[at]);
            }
        }
        assert forall|i: int| 0 <= i < w.to_visit.len() implies folders_of(
            all_listed(listings),
        ).contains(#[trigger] w.to_visit[i]) by {
            let kept = before.to_visit.drop_last();
            if i < kept.len() {
                assert(w.to_visit[i] == before.to_visit[i]);
                assert(fewer.len() > 0);
                let k = choose|k: int|
                    0 <= k < old_folders.len() && old_folders[k] == before.to_visit[i];
                assert((old_folders + more)[k] == w.to_visit[i]);
            } else {
                assert((old_folders + more)[old_folders.len() + (i - kept.len())]
                    == w.to_visit[i]);
            }
        }
    }
}

/// What a device lists for each folder.
pub type FolderContents = spec_fn(Option<ObjectHandle>) -> Seq<ObjectInfoView>;

/// Whether these folders lead from the root downwards, each named in the listing of the one before.
pub open spec fn is_path(
    contents: FolderContents,
    root: Option<ObjectHandle>,
    path: Seq<Option<ObjectHandle>>,
) -> bool {
    &&& path.len() > 0
    &&& path[0] == root
    &&& forall|i: int|
        0 < i < path.len() ==> folders_of(contents(path[i - 1])).contains(#[trigger] path[i])
}

/// Whether a folder is the root or lies below it.
pub open spec fn is_below(
    contents: FolderContents,
    root: Option<ObjectHandle>,
    folder: Option<ObjectHandle>,
) -> bool {
    exists|path: Seq<Option<ObjectHandle>>| #[trigger]
        is_path(contents, root, path) && path.last() == folder
}

/// Whether what lies below the root is a tree: every object is listed in one folder, once, and the root is
/// listed nowhere.
pub open spec fn is_tree(contents: FolderContents, root: Option<ObjectHandle>) -> bool {
    &&& forall|f: Option<ObjectHandle>, i: int, g: Option<ObjectHandle>, j: int|
        is_below(contents, root, f) && is_below(contents, root, g) && 0 <= i < contents(f).len()
            && 0 <= j < contents(g).len() && (#[trigger] contents(f)[i]).handle == (
        #[trigger] contents(g)[j]).handle ==> f == g && i == j
    &&& forall|f: Option<ObjectHandle>, i: int|
        is_below(contents, root, f) && 0 <= i < contents(f).len() ==> Some(
            (#[trigger] contents(f)[i]).handle,
        ) != root
}

/// Whether each listing is what the device lists for the folder that was asked for.
pub open spec fn answered_from(
    contents: FolderContents,
    root: Option<ObjectHandle>,
    listings: Seq<Seq<ObjectInfoView>>,
) -> bool {
    forall|i: int|
        0 <= i < listings.len() ==> #[trigger] listings[i] == contents(walked(root, listings)[i])
}

proof fn lemma_folder_is_listed(objects: Seq<ObjectInfoView>, folder: Option<ObjectHandle>)
    ensures
        folders_of(objects).contains(folder) <==> exists|i: int|
            0 <= i < objects.len() && (#[trigger] objects[i]).is_folder() && Some(objects[i].handle)
                == folder,
    decreases objects.len(),
{
    if objects.len() > 0 {
        let fewer = objects.drop_last();
        lemma_folder_is_listed(fewer, folder);
        let before = folders_of(fewer);
        let all = folders_of(objects);
        if all.contains(folder) {
            let k = choose|k: int| 0 <= k < all.len() && all[k] == folder;
            if k < before.len() {
                assert(before[k] == folder);
                let i = choose|i: int|
                    0 <= i < fewer.len() && (#[trigger] fewer[i]).is_folder() && Some(fewer[i].handle)
                        == folder;
                assert(objects[i] == fewer[i]);
            } else {
                assert(objects[objects.len() - 1].is_folder());
            }
        }
        if exists|i: int|
            0 <= i < objects.len() && (#[trigger] objects[i]).is_folder() && Some(objects[i].handle)
                == folder {
            let i = choose|i: int|
                0 <= i < objects.len() && (#[trigger] objects[i]).is_folder() && Some(
                    objects[i].handle,
                ) == folder;
            if i < fewer.len() {
                assert(fewer[i] == objects[i]);
                let k = choose|k: int| 0 <= k < before.len() && before[k] == folder;
                assert(all[k] == folder);
            } else {
                assert(all[before.len() as int] == folder);
            }
        }
    }
}

pub(crate) proof fn lemma_folders_are_distinct(objects: Seq<ObjectInfoView>)
    requires
        forall|i: int, j: int|
            0 <= i < objects.len() && 0 <= j < objects.len() && (#[trigger] objects[i]).handle == (
            #[trigger] objects[j]).handle ==> i == j,
    ensures
        folders_of(objects).no_duplicates(),
    decreases objects.len(),
{
    if objects.len() > 0 {
        let fewer = objects.drop_last();
        assert forall|i: int, j: int|
            0 <= i < fewer.len() && 0 <= j < fewer.len() && (#[trigger] fewer[i]).handle == (
            #[trigger] fewer[j]).handle implies i == j by {
            assert(fewer[i] == objects[i] && fewer[j] == objects[j]);
        }
        lemma_folders_are_distinct(fewer);
        let last = objects[objects.len() - 1];
        lemma_folder_is_listed(fewer, Some(last.handle));
        if folders_of(fewer).contains(Some(last.handle)) {
            let i = choose|i: int|
                0 <= i < fewer.len() && (#[trigger] fewer[i]).is_folder() && Some(fewer[i].handle)
                    == Some(last.handle);
            assert(objects[i].handle == last.handle);
        }
    }
}

/// Every folder that a walk has listed or still has to list is the root or lies below it.
pub(crate) proof fn lemma_walk_stays_below(
    contents: FolderContents,
    root: Option<ObjectHandle>,
    listings: Seq<Seq<ObjectInfoView>>,
)
    requires
        is_walk_run(root, listings),
        answered_from(contents, root, listings),
    ensures
        walked(root, listings).len() == listings.len(),
        forall|i: int|
            0 <= i < listings.len() ==> is_below(contents, root, #[trigger] walked(root, listings)[i]),
        forall|i: int|
            0 <= i < walk_run(root, listings).to_visit.len() ==> is_below(
                contents,
                root,
                #[trigger] walk_run(root, listings).to_visit[i],
            ),
    decreases listings.len(),
{
    let w = walk_run(root, listings);
    if listings.len() == 0 {
        assert(is_path(contents, root, seq![root]));
        assert(seq![root].last() == root);
    } else {
        let fewer = listings.drop_last();
        let before = walk_run(root, fewer);
        lemma_answered_before(contents, root, listings);
        lemma_walk_stays_below(contents, root, fewer);
        let folder = before.to_visit.last();
        assert(folder == before.to_visit[before.to_visit.len() - 1]);
        let seen = walked(root, listings);
        assert forall|i: int| 0 <= i < listings.len() implies is_below(
            contents,
            root,
            #[trigger] seen[i],
        ) by {
            if i < fewer.len() {
                assert(seen[i] == walked(root, fewer)[i]);
            }
        }
        let kept = before.to_visit.drop_last();
        assert(listings[listings.len() - 1] == contents(folder));
        assert forall|i: int| 0 <= i < w.to_visit.len() implies is_below(
            contents,
            root,
            #[trigger] w.to_visit[i],
        ) by {
            if i < kept.len() {
                assert(w.to_visit[i] == before.to_visit[i]);
            } else {
                let child = w.to_visit[i];
                assert(folders_of(listings.last())[i - kept.len()] == child);
                let path = choose|path: Seq<Option<ObjectHandle>>| #[trigger]
                    is_path(contents, root, path) && path.last() == folder;
                let longer = path.push(child);
                assert(longer.last() == child);
                assert(is_path(contents, root, longer)) by {
                    assert forall|j: int| 0 < j < longer.len() implies folders_of(
                        contents(longer[j - 1]),
                    ).contains(#[trigger] longer[j]) by {
                        if j < path.len() {
                            assert(longer[j] == path[j] && longer[j - 1] == path[j - 1]);
                        } else {
                            assert(longer[j - 1] == folder);
                        }
                    }
                }
            }
        }
    }
}

proof fn lemma_answered_before(
    contents: FolderContents,
    root: Option<ObjectHandle>,
    listings: Seq<Seq<ObjectInfoView>>,
)
    requires
        listings.len() > 0,
        is_walk_run(root, listings),
        answered_from(contents, root, listings),
    ensures
        is_walk_run(root, listings.drop_last()),
        answered_from(contents, root, listings.drop_last()),
{
    let fewer = listings.drop_last();
    law_a_folder_comes_before_its_contents(root, fewer);
    assert forall|i: int| 0 <= i < fewer.len() implies #[trigger] fewer[i] == contents(
        walked(root, fewer)[i],
    ) by {
        assert(fewer[i] == listings[i]);
        assert(walked(root, listings)[i] == walked(root, fewer)[i]);
    }
}

/// Where an object that was found was listed.
proof fn lemma_found_where(listings: Seq<Seq<ObjectInfoView>>, k: int) -> (at: (int, int))
    requires
        0 <= k < all_listed(listings).len(),
    ensures
        0 <= at.0 < listings.len(),
        0 <= at.1 < listings[at.0].len(),
        all_listed(listings)[k] == listings[at.0][at.1],
    decreases listings.len(),
{
    let fewer = listings.drop_last();
    let before = all_listed(fewer);
    if k < before.len() {
        let at = lemma_found_where(fewer, k);
        assert(fewer[at.0] == listings[at.0]);
        at
    } else {
        (listings.len() - 1, k - before.len())
    }
}

/// What was listed was found.
proof fn lemma_listed_is_found(listings: Seq<Seq<ObjectInfoView>>, i: int, j: int)
    requires
        0 <= i < listings.len(),
        0 <= j < listings[i].len(),
    ensures
        all_listed(listings).contains(listings[i][j]),
    decreases listings.len(),
{
    let fewer = listings.drop_last();
    let before = all_listed(fewer);
    if i < fewer.len() {
        assert(fewer[i] == listings[i]);
        lemma_listed_is_found(fewer, i, j);
        let k = choose|k: int| 0 <= k < before.len() && before[k] == listings[i][j];
        assert(all_listed(listings)[k] == listings[i][j]);
    } else {
        assert(all_listed(listings)[before.len() + j] == listings[i][j]);
    }
}

/// In a tree no folder is listed twice, nor asked for twice.
proof fn lemma_no_folder_twice(
    contents: FolderContents,
    root: Option<ObjectHandle>,
    listings: Seq<Seq<ObjectInfoView>>,
)
    requires
        is_tree(contents, root),
        is_walk_run(root, listings),
        answered_from(contents, root, listings),
    ensures
        (walked(root, listings) + walk_run(root, listings).to_visit).no_duplicates(),
    decreases listings.len(),
{
    if listings.len() > 0 {
        let fewer = listings.drop_last();
        let before = walk_run(root, fewer);
        let w = walk_run(root, listings);
        lemma_answered_before(contents, root, listings);
        lemma_no_folder_twice(contents, root, fewer);
        lemma_walk_stays_below(contents, root, listings);
        law_a_folder_comes_before_its_contents(root, fewer);
        law_a_folder_comes_before_its_contents(root, listings);
        let folder = before.to_visit.last();
        let kept = before.to_visit.drop_last();
        let more = folders_of(listings.last());
        let n = fewer.len() as int;
        let old_seen = walked(root, fewer);
        let old_all = old_seen + before.to_visit;
        let seen = walked(root, listings);
        assert(listings[n] == contents(seen[n]));
        assert(seen[n] == folder);
        lemma_folders_are_distinct(listings.last());
        // A folder in the new listing is not the root, and no earlier listing names it.
        assert forall|a: int, b: int| 0 <= a < old_all.len() && 0 <= b < more.len() implies old_all[a]
            != more[b] by {
            let child = more[b];
            assert(more.contains(child));
            lemma_folder_is_listed(listings.last(), child);
            let y = choose|y: int|
                0 <= y < listings.last().len() && (#[trigger] listings.last()[y]).is_folder() && Some(
                    listings.last()[y].handle,
                ) == child;
            assert(contents(folder)[y].handle == child->0);
            if old_all[a] == child {
                if fewer.len() > 0 && a > 0 {
                    let named = folders_of(all_listed(fewer));
                    assert(named.contains(child)) by {
                        if a < old_seen.len() {
                            assert(old_seen[a] == child);
                            assert(folders_of(all_listed(fewer.take(a))).contains(child));
                            lemma_named_stays(fewer, a, child);
                        } else {
                            assert(before.to_visit[a - old_seen.len()] == child);
                        }
                    }
                    lemma_folder_is_listed(all_listed(fewer), child);
                    let k = choose|k: int|
                        0 <= k < all_listed(fewer).len() && (#[trigger] all_listed(
                            fewer,
                        )[k]).is_folder() && Some(all_listed(fewer)[k].handle) == child;
                    let at = lemma_found_where(fewer, k);
                    assert(listings[at.0] == fewer[at.0]);
                    assert(seen[at.0] == old_seen[at.0]);
                    assert(contents(seen[at.0])[at.1].handle == child->0);
                    assert(seen[at.0] == folder);
                    assert(old_all[at.0] == folder);
                    assert(old_all[old_all.len() - 1] == folder);
                } else {
                    assert(old_all[a] == root);
                }
            }
        }
        let now = seen + w.to_visit;
        assert(now =~= old_seen.push(folder) + kept + more);
        assert forall|a: int, b: int| 0 <= a < now.len() && 0 <= b < now.len() && a != b implies now[a]
            != now[b] by {
            let cut = old_all.len() as int;
            let pa = lemma_moved_place(old_seen, kept, folder, a);
            let pb = lemma_moved_place(old_seen, kept, folder, b);
            assert(old_all =~= old_seen + kept.push(folder));
            if a < cut && b < cut {
                assert(now[a] == old_all[pa] && now[b] == old_all[pb]);
            } else if a < cut {
                assert(now[a] == old_all[pa] && now[b] == more[b - cut]);
            } else if b < cut {
                assert(now[b] == old_all[pb] && now[a] == more[a - cut]);
            } else {
                assert(now[a] == more[a - cut] && now[b] == more[b - cut]);
            }
        }
    }
}

/// Where an entry stood before the last one was moved across.
proof fn lemma_moved_place(
    seen: Seq<Option<ObjectHandle>>,
    kept: Seq<Option<ObjectHandle>>,
    folder: Option<ObjectHandle>,
    a: int,
) -> (place: int)
    requires
        0 <= a,
    ensures
        place == (if a < seen.len() {
            a
        } else if a == seen.len() {
            (seen.len() + kept.len()) as int
        } else {
            a - 1
        }),
        a < seen.len() + kept.len() + 1 ==> 0 <= place < seen.len() + kept.len() + 1 && (seen.push(
            folder,
        ) + kept)[a] == (seen + kept.push(folder))[place],
{
    if a < seen.len() {
        a
    } else if a == seen.len() {
        (seen.len() + kept.len()) as int
    } else {
        a - 1
    }
}

/// A folder that the first listings name is named by all.
proof fn lemma_named_stays(listings: Seq<Seq<ObjectInfoView>>, n: int, folder: Option<ObjectHandle>)
    requires
        0 <= n <= listings.len(),
        folders_of(all_listed(listings.take(n))).contains(folder),
    ensures
        folders_of(all_listed(listings)).contains(folder),
    decreases listings.len(),
{
    if n == listings.len() {
        assert(listings.take(n) =~= listings);
    } else {
        let fewer = listings.drop_last();
        assert(fewer.take(n) =~= listings.take(n));
        lemma_named_stays(fewer, n, folder);
        lemma_folders_of_add(all_listed(fewer), listings.last());
        let named = folders_of(all_listed(fewer));
        let k = choose|k: int| 0 <= k < named.len() && named[k] == folder;
        assert(folders_of(all_listed(listings))[k] == folder);
    }
}

/// A finished walk has found everything: each object that is listed in the root or in any folder below it,
/// folders included, and nothing else.
pub proof fn law_a_finished_walk_found_everything(
    contents: FolderContents,
    root: Option<ObjectHandle>,
    listings: Seq<Seq<ObjectInfoView>>,
)
    requires
        is_walk_run(root, listings),
        answered_from(contents, root, listings),
        walk_run(root, listings).to_visit.len() == 0,
    ensures
        forall|folder: Option<ObjectHandle>, i: int|
            is_below(contents, root, folder) && 0 <= i < contents(folder).len() ==> walk_run(
                root,
                listings,
            ).found.contains(#[trigger] contents(folder)[i]),
        forall|k: int|
            0 <= k < walk_run(root, listings).found.len() ==> exists|
                folder: Option<ObjectHandle>,
                i: int,
            |
                is_below(contents, root, folder) && 0 <= i < contents(folder).len() && #[trigger] contents(
                    folder,
                )[i] == #[trigger] walk_run(root, listings).found[k],
{
    let found = walk_run(root, listings).found;
    let seen = walked(root, listings);
    law_a_folder_comes_before_its_contents(root, listings);
    lemma_walk_stays_below(contents, root, listings);
    assert forall|folder: Option<ObjectHandle>, i: int|
        is_below(contents, root, folder) && 0 <= i < contents(folder).len() implies found.contains(
        #[trigger] contents(folder)[i],
    ) by {
        let path = choose|path: Seq<Option<ObjectHandle>>| #[trigger]
            is_path(contents, root, path) && path.last() == folder;
        lemma_path_is_walked(contents, root, listings, path);
        let n = choose|n: int| 0 <= n < seen.len() && seen[n] == folder;
        assert(listings[n] == contents(folder));
        lemma_listed_is_found(listings, n, i);
    }
    assert forall|k: int| 0 <= k < found.len() implies exists|folder: Option<ObjectHandle>, i: int|
        is_below(contents, root, folder) && 0 <= i < contents(folder).len() && #[trigger] contents(
            folder,
        )[i] == #[trigger] found[k] by {
        let at = lemma_found_where(listings, k);
        assert(listings[at.0] == contents(seen[at.0]));
        assert(is_below(contents, root, seen[at.0]));
        assert(contents(seen[at.0])[at.1] == found[k]);
    }
}

proof fn lemma_path_is_walked(
    contents: FolderContents,
    root: Option<ObjectHandle>,
    listings: Seq<Seq<ObjectInfoView>>,
    path: Seq<Option<ObjectHandle>>,
)
    requires
        is_walk_run(root, listings),
        answered_from(contents, root, listings),
        walk_run(root, listings).to_visit.len() == 0,
        is_path(contents, root, path),
    ensures
        walked(root, listings).contains(path.last()),
    decreases path.len(),
{
    broadcast use vstd::seq_lib::group_to_multiset_ensures;

    let seen = walked(root, listings);
    let found = walk_run(root, listings).found;
    let places = seq![root] + folders_of(found);
    law_every_folder_is_listed(root, listings);
    law_a_folder_comes_before_its_contents(root, listings);
    if path.len() == 1 {
        assert(places[0] == path.last());
    } else {
        let shorter = path.drop_last();
        assert(is_path(contents, root, shorter)) by {
            assert forall|i: int| 0 < i < shorter.len() implies folders_of(
                contents(shorter[i - 1]),
            ).contains(#[trigger] shorter[i]) by {
                assert(shorter[i] == path[i] && shorter[i - 1] == path[i - 1]);
            }
        }
        lemma_path_is_walked(contents, root, listings, shorter);
        let n = choose|n: int| 0 <= n < seen.len() && seen[n] == shorter.last();
        let child = path[path.len() - 1];
        assert(listings[n] == contents(shorter.last()));
        assert(folders_of(listings[n]).contains(child));
        lemma_folder_is_listed(listings[n], child);
        let j = choose|j: int|
            0 <= j < listings[n].len() && (#[trigger] listings[n][j]).is_folder() && Some(
                listings[n][j].handle,
            ) == child;
        lemma_listed_is_found(listings, n, j);
        let k = choose|k: int| 0 <= k < found.len() && found[k] == listings[n][j];
        assert(found[k].is_folder());
        lemma_folder_is_listed(found, child);
        let m = choose|m: int| 0 <= m < folders_of(found).len() && folders_of(found)[m] == child;
        assert(places[m + 1] == child);
    }
    assert(places.contains(path.last()));
    assert(seen.to_multiset().contains(path.last()));
}

/// In a tree a walk finds each object exactly once: no two of the objects found share a handle, and no folder
/// is listed twice.
pub proof fn law_a_walk_finds_each_object_once(
    contents: FolderContents,
    root: Option<ObjectHandle>,
    listings: Seq<Seq<ObjectInfoView>>,
)
    requires
        is_tree(contents, root),
        is_walk_run(root, listings),
        answered_from(contents, root, listings),
    ensures
        walked(root, listings).no_duplicates(),
        forall|a: int, b: int|
            0 <= a < b < walk_run(root, listings).found.len() ==> (#[trigger] walk_run(
                root,
                listings,
            ).found[a]).handle != (#[trigger] walk_run(root, listings).found[b]).handle,
    decreases listings.len(),
{
    let found = walk_run(root, listings).found;
    let seen = walked(root, listings);
    lemma_no_folder_twice(contents, root, listings);
    lemma_walk_stays_below(contents, root, listings);
    law_a_folder_comes_before_its_contents(root, listings);
    let all = seen + walk_run(root, listings).to_visit;
    assert forall|i: int, j: int| 0 <= i < seen.len() && 0 <= j < seen.len() && i != j implies seen[i]
        != seen[j] by {
        assert(all[i] == seen[i] && all[j] == seen[j]);
    }
    if listings.len() > 0 {
        let fewer = listings.drop_last();
        let n = fewer.len() as int;
        lemma_answered_before(contents, root, listings);
        law_a_walk_finds_each_object_once(contents, root, fewer);
        law_a_folder_comes_before_its_contents(root, fewer);
        let before = walk_run(root, fewer).found;
        assert(listings[n] == contents(seen[n]));
        assert forall|a: int, b: int| 0 <= a < b < found.len() implies (#[trigger] found[a]).handle != (
        #[trigger] found[b]).handle by {
            if b < before.len() {
                assert(found[a] == before[a] && found[b] == before[b]);
            } else {
                let y = b - before.len();
                assert(found[b] == contents(seen[n])[y]);
                if a < before.len() {
                    let at = lemma_found_where(fewer, a);
                    assert(fewer[at.0] == listings[at.0]);
                    assert(found[a] == contents(seen[at.0])[at.1]);
                    assert(seen[at.0] != seen[n]);
                } else {
                    assert(found[a] == contents(seen[n])[a - before.len()]);
                }
            }
        }
    }
}

pub(crate) proof fn lemma_move_across<A>(visited: Seq<A>, rest: Seq<A>, x: A)
    ensures
        (visited + rest.push(x)).to_multiset() == (visited.push(x) + rest).to_multiset(),
{
    broadcast use vstd::seq_lib::group_to_multiset_ensures;

    vstd::seq_lib::lemma_multiset_commutative(visited, rest.push(x));
    vstd::seq_lib::lemma_multiset_commutative(visited.push(x), rest);
    assert((visited + rest.push(x)).to_multiset() =~= (visited.push(x) + rest).to_multiset());
}

pub(crate) proof fn lemma_add_same<A>(a: Seq<A>, b: Seq<A>, more: Seq<A>)
    requires
        a.to_multiset() == b.to_multiset(),
    ensures
        (a + more).to_multiset() == (b + more).to_multiset(),
{
    vstd::seq_lib::lemma_multiset_commutative(a, more);
    vstd::seq_lib::lemma_multiset_commutative(b, more);
}

/// The suggested number of bytes per window: 8 MiB.
pub const DEFAULT_DOWNLOAD_WINDOW: u32 = 8388608;

/// A large file read as a sequence of bounded windows. Nothing is held between two windows, so that
/// the device stays free for other work.
#[derive(Debug, PartialEq, Eq, Structural)]
pub struct WindowedDownload {
    /// The object being read.
    pub handle: ObjectHandle,
    /// Its full size.
    pub size: u64,
    /// The first byte not yet read.
    pub offset: u64,
    /// The end of the range being read.
    pub end: u64,
    /// The most bytes a window asks for.
    pub window: u32,
}

/// A window asks for at least one byte.
pub open spec fn clamped_window(window_size: u32) -> u32 {
    if window_size == 0 {
        1
    } else {
        window_size
    }
}

/// Where a range of an object of `size` bytes ends. A bounded range is clamped to the object.
pub open spec fn range_end(range: ByteRange, size: u64) -> u64 {
    match range {
        ByteRange::Range { offset, len } => if offset + len < size {
            (offset + len) as u64
        } else {
            size
        },
        _ => size,
    }
}

/// How a windowed download of an object of `size` bytes begins, or why it does not.
pub open spec fn windowed_start(handle: ObjectHandle, range: ByteRange, window_size: u32, size: u64) -> Result<
    WindowedDownload,
    ErrorView,
> {
    let offset = crate::mtp::backend::range_start(range);
    if offset > size {
        Err(
            ErrorView::InvalidData {
                message: usb::past_end_text("windowed download offset "@, offset, size),
            },
        )
    } else {
        Ok(
            WindowedDownload {
                handle,
                size,
                offset,
                end: range_end(range, size),
                window: clamped_window(window_size),
            },
        )
    }
}

/// What is said of a device that hands out no bytes before the end.
pub open spec fn stalled_text(offset: u64, size: u64) -> Seq<char> {
    "windowed download stalled: the device returned no data at offset "@ + crate::text::decimal(
        offset as nat,
    ) + " of "@ + crate::text::decimal(size as nat)
}

impl WindowedDownload {
    /// Begin at the start of `range` in an object of `size` bytes, to read on to the end of the range.
    /// A window size of 0 counts as 1.
    pub fn start(handle: ObjectHandle, range: ByteRange, window_size: u32, size: u64) -> (r: Result<
        WindowedDownload,
        Error,
    >)
        ensures
            crate::mtp::error::outcome(r) == windowed_start(handle, range, window_size, size),
    {
        let offset: u64 = range.offset();
        if offset > size {
            return Err(
                Error::InvalidData {
                    message: usb::write_past_end("windowed download offset ", offset, size),
                },
            );
        }
        let window: u32 = if window_size == 0 {
            1
        } else {
            window_size
        };
        let end: u64 = match range {
            ByteRange::Range { offset: from, len } => if len < size - from {
                from + len
            } else {
                size
            },
            _ => size,
        };
        Ok(WindowedDownload { handle, size, offset, end, window })
    }

    /// The full size of the object.
    pub fn size(&self) -> (r: u64)
        ensures
            r == self.size,
    {
        self.size
    }

    /// The first byte not yet read.
    pub fn offset(&self) -> (r: u64)
        ensures
            r == self.offset,
    {
        self.offset
    }

    /// How many bytes to read next, or `None` at the end of the range: no read is issued there.
    pub fn next_len(&self) -> (r: Option<u32>)
        ensures
            match r {
                Some(len) => self.offset < self.end && len == asked_len(*self),
                None => self.offset >= self.end,
            },
    {
        if self.offset >= self.end {
            return None;
        }
        let remaining: u64 = self.end - self.offset;
        if remaining < self.window as u64 {
            Some(remaining as u32)
        } else {
            Some(self.window)
        }
    }

    /// Take note of a window of `len` bytes. A short window is legal, and the download goes on from
    /// the bytes that came; an empty one before the end of the range is a stalled device.
    pub fn advance(&mut self, len: u64) -> (r: Result<(), Error>)
        requires
            old(self).offset < old(self).end,
            old(self).offset + len <= u64::MAX,
        ensures
            *final(self) == advanced(*old(self), len as nat),
            crate::mtp::error::outcome(r) == (if len == 0 {
                Err(ErrorView::InvalidData { message: stalled_text(old(self).offset, old(self).size) })
            } else {
                Ok(())
            }),
    {
        if len == 0 {
            let mut message = "windowed download stalled: the device returned no data at offset ".to_owned();
            message.append(crate::text::write_decimal(self.offset).as_str());
            message.append(" of ");
            message.append(crate::text::write_decimal(self.size).as_str());
            return Err(Error::InvalidData { message });
        }
        self.offset = self.offset + len;
        Ok(())
    }
}

/// How many bytes the next window asks for: a whole window, or what is left of the range.
pub open spec fn asked_len(download: WindowedDownload) -> int {
    if download.end - download.offset < download.window {
        download.end - download.offset
    } else {
        download.window as int
    }
}

/// A download after a window of `len` bytes.
pub open spec fn advanced(download: WindowedDownload, len: nat) -> WindowedDownload {
    WindowedDownload { offset: (download.offset + len) as u64, ..download }
}

/// A download after windows of these lengths.
pub open spec fn windowed_run(download: WindowedDownload, lens: Seq<nat>) -> WindowedDownload
    decreases lens.len(),
{
    if lens.len() == 0 {
        download
    } else {
        advanced(windowed_run(download, lens.drop_last()), lens.last())
    }
}

/// Whether windows of these lengths can come one after another: each was asked for, and none is empty or
/// longer than it was asked for.
pub open spec fn is_windowed_run(download: WindowedDownload, lens: Seq<nat>) -> bool
    decreases lens.len(),
{
    lens.len() == 0 || {
        let before = windowed_run(download, lens.drop_last());
        &&& is_windowed_run(download, lens.drop_last())
        &&& before.offset < before.end
        &&& 0 < lens.last() <= asked_len(before)
    }
}

/// The sum of some window lengths.
pub open spec fn total_len(lens: Seq<nat>) -> nat
    decreases lens.len(),
{
    if lens.len() == 0 {
        0
    } else {
        total_len(lens.drop_last()) + lens.last()
    }
}

/// What windows of these lengths hold, one after the other, when the first one starts at `start`.
pub open spec fn windows(content: Seq<u8>, start: int, lens: Seq<nat>) -> Seq<u8>
    decreases lens.len(),
{
    if lens.len() == 0 {
        Seq::empty()
    } else {
        let at = start + total_len(lens.drop_last());
        windows(content, start, lens.drop_last()) + content.subrange(at, at + lens.last())
    }
}

/// Windows of whatever lengths reassemble to the file: from where the download started to where it
/// has got, no byte is missing, repeated or out of place.
pub proof fn law_windows_reassemble(content: Seq<u8>, start: int, lens: Seq<nat>)
    requires
        0 <= start,
        start + total_len(lens) <= content.len(),
    ensures
        windows(content, start, lens) == content.subrange(start, start + total_len(lens)),
    decreases lens.len(),
{
    if lens.len() > 0 {
        let at = start + total_len(lens.drop_last());
        law_windows_reassemble(content, start, lens.drop_last());
        assert(content.subrange(start, at) + content.subrange(at, at + lens.last())
            =~= content.subrange(start, at + lens.last()));
    } else {
        assert(content.subrange(start, start) =~= Seq::<u8>::empty());
    }
}

/// The bytes of a range of an object: the part of the range that lies within the object.
pub open spec fn range_bytes(content: Seq<u8>, range: ByteRange) -> Seq<u8> {
    match range {
        ByteRange::Full => content,
        ByteRange::From(offset) => content.skip(offset as int),
        ByteRange::Range { offset, len } => content.subrange(
            offset as int,
            if offset + len < content.len() {
                offset + len
            } else {
                content.len() as int
            },
        ),
    }
}

/// A windowed download never leaves its range, and holds every byte of the range up to where it has got.
proof fn lemma_windows_stay_inside(download: WindowedDownload, lens: Seq<nat>)
    requires
        download.offset <= download.end,
        is_windowed_run(download, lens),
    ensures
        ({
            let now = windowed_run(download, lens);
            &&& now.offset == download.offset + total_len(lens)
            &&& now.offset <= now.end
            &&& now == (WindowedDownload { offset: now.offset, ..download })
        }),
    decreases lens.len(),
{
    if lens.len() > 0 {
        lemma_windows_stay_inside(download, lens.drop_last());
    }
}

/// A download that asks for no more windows holds exactly the bytes of its range: from the starting offset
/// to the end of the range, clamped to the object, and no more.
pub proof fn law_complete_download_is_the_range(
    handle: ObjectHandle,
    range: ByteRange,
    window_size: u32,
    content: Seq<u8>,
    lens: Seq<nat>,
)
    requires
        content.len() <= u64::MAX,
        crate::mtp::backend::range_start(range) <= content.len(),
        ({
            let started = windowed_start(handle, range, window_size, content.len() as u64)->Ok_0;
            let now = windowed_run(started, lens);
            &&& is_windowed_run(started, lens)
            &&& now.offset >= now.end
        }),
    ensures
        ({
            let started = windowed_start(handle, range, window_size, content.len() as u64)->Ok_0;
            let start = started.offset as int;
            &&& windows(content, start, lens) == content.subrange(start, started.end as int)
            &&& windows(content, start, lens) == range_bytes(content, range)
        }),
{
    let started = windowed_start(handle, range, window_size, content.len() as u64)->Ok_0;
    lemma_windows_stay_inside(started, lens);
    law_windows_reassemble(content, started.offset as int, lens);
    assert(content.subrange(0, content.len() as int) =~= content);
}

/// A download that still asks for a window has not read its whole range, and one window of at least one
/// byte brings it nearer to the end: the number of windows is at most the number of bytes.
pub proof fn law_a_windowed_download_ends(download: WindowedDownload, lens: Seq<nat>)
    requires
        download.offset <= download.end,
        is_windowed_run(download, lens),
    ensures
        lens.len() <= download.end - download.offset,
{
    lemma_windows_stay_inside(download, lens);
    lemma_each_window_counts(download, lens);
}

proof fn lemma_each_window_counts(download: WindowedDownload, lens: Seq<nat>)
    requires
        is_windowed_run(download, lens),
    ensures
        lens.len() <= total_len(lens),
    decreases lens.len(),
{
    if lens.len() > 0 {
        lemma_each_window_counts(download, lens.drop_last());
    }
}

/// A storage of an open device: its ID and what the device last said of it.
#[derive(Debug)]
pub struct Storage {
    pub id: StorageId,
    pub info: StorageInfo,
}

/// A storage after a fresh answer from the device.
pub open spec fn refreshed(storage: Storage, answer: Result<StorageInfo, Error>) -> Storage {
    match answer {
        Ok(info) => Storage { info, ..storage },
        Err(_) => storage,
    }
}

impl Storage {
    /// A storage under its ID.
    pub fn new(id: StorageId, info: StorageInfo) -> (r: Self)
        ensures
            r.id == id,
            r.info == info,
    {
        Storage { id, info }
    }

    /// The storage ID.
    pub fn id(&self) -> (r: StorageId)
        ensures
            r == self.id,
    {
        self.id
    }

    /// What the device last said of this storage.
    pub fn info(&self) -> (r: &StorageInfo)
        ensures
            *r == self.info,
    {
        &self.info
    }

    /// Take a fresh answer from the device; a failed one leaves the storage as it was.
    pub fn refresh(&mut self, answer: Result<StorageInfo, Error>) -> (r: Result<(), Error>)
        ensures
            final(self).id == old(self).id,
            *final(self) == refreshed(*old(self), answer),
            match answer {
                Ok(info) => r is Ok && final(self).info == info,
                Err(e) => r == Err::<(), Error>(e) && final(self).info == old(self).info,
            },
    {
        match answer {
            Ok(info) => {
                self.info = info;
                Ok(())
            },
            Err(e) => Err(e),
        }
    }

    /// Where a move or a copy goes: to the storage that was named, or else to this one.
    pub fn destination(&self, new_storage: Option<StorageId>) -> (r: StorageId)
        ensures
            r == (match new_storage {
                Some(id) => id,
                None => self.id,
            }),
    {
        match new_storage {
            Some(id) => id,
            None => self.id,
        }
    }
}

} // verus!
