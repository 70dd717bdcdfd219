//! The object tree of a virtual device: giving an object a new handle, and catching up with what has
//! changed on disk.

use vstd::prelude::*;

use crate::ptp::PtpHandle;
use crate::search;
use crate::text;
use crate::transport::virtual_device::state;
use crate::transport::virtual_device::state::{build_event, DiskEntry, DiskEntryView, RescanSummary,
    TrackedObject, TrackedObjectView, VirtualDeviceState, VirtualDeviceStateView,
    EVENT_OBJECT_ADDED, EVENT_OBJECT_REMOVED, EVENT_STORAGE_INFO_CHANGED};

verus! {

/// The state after the object at position `i` got the next handle: its children name the new handle
/// as their parent, and nothing else has changed.
pub open spec fn rekeyed(state: VirtualDeviceStateView, i: int) -> VirtualDeviceStateView {
    let old_handle = state.objects[i].handle;
    let new_handle = state.next_handle as u32;
    VirtualDeviceStateView {
        objects: Seq::new(
            state.objects.len(),
            |j: int|
                TrackedObjectView {
                    handle: if j == i {
                        new_handle
                    } else {
                        state.objects[j].handle
                    },
                    parent: if state.objects[j].parent == old_handle {
                        new_handle
                    } else {
                        state.objects[j].parent
                    },
                    ..state.objects[j]
                },
        ),
        next_handle: state.next_handle + 1,
        ..state
    }
}

/// A re-keyed object has left its old handle behind: no object answers to it any more, the new handle
/// was nobody's, and every object is still where it was.
pub proof fn law_rekey_invalidates_the_old_handle(state: VirtualDeviceStateView, i: int)
    requires
        state.wf(),
        state.next_handle <= u32::MAX,
        0 <= i < state.objects.len(),
    ensures
        ({
            let after = rekeyed(state, i);
            &&& after.wf()
            &&& after.objects[i].handle == state.next_handle
            &&& after.objects.len() == state.objects.len()
            &&& forall|j: int|
                0 <= j < after.objects.len() ==> (#[trigger] after.objects[j]).handle
                    != state.objects[i].handle
            &&& forall|j: int|
                0 <= j < state.objects.len() ==> (#[trigger] state.objects[j]).handle
                    != after.objects[i].handle
            &&& forall|j: int|
                0 <= j < state.objects.len() ==> (#[trigger] after.objects[j]).rel_path
                    == state.objects[j].rel_path && after.objects[j].storage
                    == state.objects[j].storage
        }),
{
    let after = rekeyed(state, i);
    assert forall|a: int, b: int| 0 <= a < b < after.objects.len() implies (
    #[trigger] after.objects[a]).handle != (#[trigger] after.objects[b]).handle by {
        assert(state.objects[a].handle != state.objects[b].handle);
    }
    assert forall|a: int, b: int| 0 <= a < b < after.objects.len() implies !state::lies_at(
        #[trigger] after.objects[b],
        (#[trigger] after.objects[a]).storage,
        after.objects[a].rel_path,
    ) by {
        assert(!state::lies_at(
            state.objects[b],
            state.objects[a].storage,
            state.objects[a].rel_path,
        ));
    }
    assert forall|j: int| 0 <= j < after.objects.len() implies (#[trigger] after.objects[j]).handle
        != state.objects[i].handle by {
        assert(state.objects[j].handle < state.next_handle);
        if j < i {
            assert(state.objects[j].handle != state.objects[i].handle);
        } else if j > i {
            assert(state.objects[i].handle != state.objects[j].handle);
        }
    }
}

impl VirtualDeviceState {
    /// Where the first object at a path stands among the tracked ones.
    fn find_path(&self, rel_path: &str) -> (r: Option<usize>)
        ensures
            search::first_where(self@.objects, |o: TrackedObjectView| o.rel_path == rel_path@) == (
            match r {
                Some(i) => Some(i as int),
                None => None,
            }),
            r matches Some(i) ==> i < self.objects@.len(),
    {
        let ghost p = |o: TrackedObjectView| o.rel_path == rel_path@;
        let mut i: usize = 0;
        while i < self.objects.len()
            invariant
                i <= self.objects@.len(),
                p == (|o: TrackedObjectView| o.rel_path == rel_path@),
                forall|j: int| 0 <= j < i ==> !p(#[trigger] self@.objects[j]),
            decreases self.objects.len() - i,
        {
            if text::same(self.objects[i].rel_path.as_str(), rel_path) {
                proof {
                    assert(p(self@.objects[i as int]));
                    search::lemma_first_where_at(self@.objects, p, i as int);
                }
                return Some(i);
            }
            assert(!p(self@.objects[i as int]));
            i = i + 1;
        }
        proof {
            search::lemma_first_where_none(self@.objects, p);
        }
        None
    }

    /// Give the object at a path a new handle, leaving it and its contents in place. The old handle is
    /// dead from then on. Returns the old and the new handle, or `None` if no tracked object has that
    /// path. No event is queued: the device has moved on before the host could notice.
    pub fn rekey_object(&mut self, rel_path: &str) -> (r: Option<(PtpHandle, PtpHandle)>)
        requires
            old(self).next_handle < u32::MAX,
        ensures
            match search::first_where(
                old(self)@.objects,
                |o: TrackedObjectView| o.rel_path == rel_path@,
            ) {
                Some(i) => {
                    &&& 0 <= i < old(self)@.objects.len()
                    &&& r == Some(
                        (
                            PtpHandle(old(self)@.objects[i].handle),
                            PtpHandle(old(self)@.next_handle as u32),
                        ),
                    )
                    &&& final(self)@ == rekeyed(old(self)@, i)
                },
                None => r is None && final(self)@ == old(self)@,
            },
            old(self)@.wf() ==> final(self)@.wf(),
    {
        let ghost before = self@;
        let at: usize = match self.find_path(rel_path) {
            Some(at) => at,
            None => {
                return None;
            },
        };
        let old_handle: u32 = self.objects[at].handle;
        let new_handle: u32 = self.next_handle;
        self.next_handle = new_handle + 1;
        let ghost target = rekeyed(before, at as int);
        let mut j: usize = 0;
        while j < self.objects.len()
            invariant
                j <= self.objects@.len(),
                self.objects@.len() == before.objects.len(),
                at < before.objects.len(),
                target == rekeyed(before, at as int),
                old_handle == before.objects[at as int].handle,
                new_handle == before.next_handle,
                self@ == (VirtualDeviceStateView {
                    objects: self@.objects,
                    next_handle: before.next_handle + 1,
                    ..before
                }),
                forall|k: int| 0 <= k < j ==> #[trigger] self@.objects[k] == target.objects[k],
                forall|k: int|
                    j <= k < before.objects.len() ==> #[trigger] self@.objects[k]
                        == before.objects[k],
            decreases self.objects.len() - j,
        {
            let ghost now = self@;
            assert(now.objects[j as int] == before.objects[j as int]);
            if j == at {
                self.objects[j].handle = new_handle;
            }
            assert(forall|k: int|
                0 <= k < before.objects.len() && k != j ==> #[trigger] self@.objects[k]
                    == now.objects[k]);
            let ghost halfway = self@;
            assert(halfway.objects[j as int] == (TrackedObjectView {
                handle: target.objects[j as int].handle,
                ..before.objects[j as int]
            }));
            if self.objects[j].parent == old_handle {
                self.objects[j].parent = new_handle;
            }
            assert(forall|k: int|
                0 <= k < before.objects.len() && k != j ==> #[trigger] self@.objects[k]
                    == halfway.objects[k]);
            assert(self@.objects[j as int] == target.objects[j as int]);
            j = j + 1;
        }
        proof {
            assert(self@.objects =~= target.objects);
            if before.wf() {
                law_rekey_invalidates_the_old_handle(before, at as int);
            }
        }
        Some((PtpHandle(old_handle), PtpHandle(new_handle)))
    }
}

/// Whether an object survives a rescan of a storage: it lies elsewhere, or it is still on disk.
pub open spec fn survives(o: TrackedObjectView, storage: u32, entries: Seq<DiskEntryView>) -> bool {
    o.storage != storage || state::on_disk(entries, o.rel_path)
}

/// The objects that survive a rescan of a storage.
pub open spec fn kept(objects: Seq<TrackedObjectView>, storage: u32, entries: Seq<DiskEntryView>) -> Seq<
    TrackedObjectView,
> {
    objects.filter(|o: TrackedObjectView| survives(o, storage, entries))
}

/// The objects that are no longer on disk.
pub open spec fn gone(objects: Seq<TrackedObjectView>, storage: u32, entries: Seq<DiskEntryView>) -> Seq<
    TrackedObjectView,
> {
    objects.filter(|o: TrackedObjectView| !survives(o, storage, entries))
}

/// The handle of the object at a path, 0 for the root and for a path that is not tracked.
pub open spec fn handle_at(objects: Seq<TrackedObjectView>, storage: u32, rel_path: Seq<char>) -> u32 {
    if rel_path.len() == 0 {
        0
    } else {
        match search::first_where(
            objects,
            |o: TrackedObjectView| state::lies_at(o, storage, rel_path),
        ) {
            Some(i) => objects[i].handle,
            None => 0,
        }
    }
}

/// The objects after every entry on disk that was not tracked has been given a handle, from
/// `next_handle` on.
pub open spec fn grown(
    objects: Seq<TrackedObjectView>,
    next_handle: int,
    storage: u32,
    entries: Seq<DiskEntryView>,
) -> Seq<TrackedObjectView>
    decreases entries.len(),
{
    if entries.len() == 0 {
        objects
    } else {
        let before = grown(objects, next_handle, storage, entries.drop_last());
        let entry = entries.last();
        if state::tracks(before, storage, entry.rel_path) {
            before
        } else {
            before.push(
                TrackedObjectView {
                    handle: (next_handle + before.len() - objects.len()) as u32,
                    storage,
                    parent: handle_at(before, storage, entry.parent),
                    rel_path: entry.rel_path,
                },
            )
        }
    }
}

/// The events of objects, all with one code.
pub open spec fn object_events(objects: Seq<TrackedObjectView>, code: u16) -> Seq<Seq<u8>> {
    objects.map_values(|o: TrackedObjectView| state::event_bytes(code, o.handle))
}

/// The state after a rescan of a storage that found these entries on disk.
pub open spec fn rescanned(
    before: VirtualDeviceStateView,
    storage: u32,
    entries: Seq<DiskEntryView>,
) -> VirtualDeviceStateView {
    let stay = kept(before.objects, storage, entries);
    let removed = gone(before.objects, storage, entries);
    let after = grown(stay, before.next_handle, storage, entries);
    let added = after.skip(stay.len() as int);
    let notice = if removed.len() + added.len() > 0 {
        seq![state::event_bytes(EVENT_STORAGE_INFO_CHANGED, storage)]
    } else {
        Seq::empty()
    };
    VirtualDeviceStateView {
        objects: after,
        next_handle: before.next_handle + added.len(),
        events: before.events + object_events(removed, EVENT_OBJECT_REMOVED) + object_events(
            added,
            EVENT_OBJECT_ADDED,
        ) + notice,
        ..before
    }
}

/// Adding entries only appends, at most one object per entry.
proof fn lemma_grown_len(
    objects: Seq<TrackedObjectView>,
    next_handle: int,
    storage: u32,
    entries: Seq<DiskEntryView>,
)
    ensures
        ({
            let after = grown(objects, next_handle, storage, entries);
            &&& objects.len() <= after.len() <= objects.len() + entries.len()
            &&& after.take(objects.len() as int) == objects
        }),
    decreases entries.len(),
{
    if entries.len() == 0 {
        assert(objects.take(objects.len() as int) =~= objects);
    } else {
        lemma_grown_len(objects, next_handle, storage, entries.drop_last());
        let before = grown(objects, next_handle, storage, entries.drop_last());
        let after = grown(objects, next_handle, storage, entries);
        assert(after.take(objects.len() as int) =~= before.take(objects.len() as int));
    }
}

/// The first entries add no more objects than all of them.
proof fn lemma_grown_prefix(
    objects: Seq<TrackedObjectView>,
    next_handle: int,
    storage: u32,
    entries: Seq<DiskEntryView>,
    k: int,
)
    requires
        0 <= k <= entries.len(),
    ensures
        grown(objects, next_handle, storage, entries.take(k)).len() <= grown(
            objects,
            next_handle,
            storage,
            entries,
        ).len(),
    decreases entries.len() - k,
{
    if k < entries.len() {
        lemma_grown_prefix(objects, next_handle, storage, entries, k + 1);
        assert(entries.take(k + 1).drop_last() =~= entries.take(k));
    } else {
        assert(entries.take(k) =~= entries);
    }
}

/// Whether an entry on disk has this path.
fn is_on_disk(entries: &Vec<DiskEntry>, rel_path: &str) -> (r: bool)
    ensures
        r == state::on_disk(state::disk_views(entries@), rel_path@),
{
    let ghost views = state::disk_views(entries@);
    let mut i: usize = 0;
    while i < entries.len()
        invariant
            i <= entries@.len(),
            views == state::disk_views(entries@),
            forall|j: int| 0 <= j < i ==> (#[trigger] views[j]).rel_path != rel_path@,
        decreases entries.len() - i,
    {
        if text::same(entries[i].rel_path.as_str(), rel_path) {
            assert(views[i as int].rel_path == rel_path@);
            return true;
        }
        i = i + 1;
    }
    false
}

impl VirtualDeviceState {
    /// Where the object on a storage at a path stands among the tracked ones.
    fn find_on_storage(&self, storage: u32, rel_path: &str) -> (r: Option<usize>)
        ensures
            search::first_where(
                self@.objects,
                |o: TrackedObjectView| state::lies_at(o, storage, rel_path@),
            ) == (match r {
                Some(i) => Some(i as int),
                None => None,
            }),
            r matches Some(i) ==> i < self.objects@.len(),
            r is Some == state::tracks(self@.objects, storage, rel_path@),
    {
        let ghost p = |o: TrackedObjectView| state::lies_at(o, storage, rel_path@);
        let mut i: usize = 0;
        while i < self.objects.len()
            invariant
                i <= self.objects@.len(),
                p == (|o: TrackedObjectView| state::lies_at(o, storage, rel_path@)),
                forall|j: int| 0 <= j < i ==> !p(#[trigger] self@.objects[j]),
            decreases self.objects.len() - i,
        {
            if self.objects[i].storage == storage && text::same(
                self.objects[i].rel_path.as_str(),
                rel_path,
            ) {
                proof {
                    assert(p(self@.objects[i as int]));
                    search::lemma_first_where_at(self@.objects, p, i as int);
                    assert(state::lies_at(self@.objects[i as int], storage, rel_path@));
                }
                return Some(i);
            }
            assert(!p(self@.objects[i as int]));
            i = i + 1;
        }
        proof {
            search::lemma_first_where_none(self@.objects, p);
            assert forall|j: int| 0 <= j < self@.objects.len() implies !state::lies_at(
                #[trigger] self@.objects[j],
                storage,
                rel_path@,
            ) by {
                assert(!p(self@.objects[j]));
            }
        }
        None
    }

    /// The handle of the object at a path, 0 for the root and for a path that is not tracked.
    fn find_handle_at(&self, storage: u32, rel_path: &str) -> (r: u32)
        ensures
            r == handle_at(self@.objects, storage, rel_path@),
    {
        if rel_path.is_empty() {
            return 0;
        }
        match self.find_on_storage(storage, rel_path) {
            Some(i) => self.objects[i].handle,
            None => 0,
        }
    }

    /// Drop the objects of a storage that are no longer on disk, and report each as removed.
    fn drop_gone(&mut self, storage: u32, entries: &Vec<DiskEntry>) -> (removed: usize)
        ensures
            ({
                let seen = state::disk_views(entries@);
                let lost = gone(old(self)@.objects, storage, seen);
                &&& removed == lost.len()
                &&& final(self)@ == (VirtualDeviceStateView {
                    objects: kept(old(self)@.objects, storage, seen),
                    events: old(self)@.events + object_events(lost, EVENT_OBJECT_REMOVED),
                    ..old(self)@
                })
            }),
    {
        let ghost before = self@;
        let ghost seen = state::disk_views(entries@);
        let ghost stay = |o: TrackedObjectView| survives(o, storage, seen);
        let ghost leave = |o: TrackedObjectView| !survives(o, storage, seen);
        let mut objects: Vec<TrackedObject> = Vec::new();
        std::mem::swap(&mut objects, &mut self.objects);
        let count: usize = objects.len();
        let ghost all = objects@;
        let ghost views = before.objects;
        assert(views =~= state::tracked_views(all));
        let mut removed: usize = 0;
        let ghost mut done: int = 0;
        proof {
            assert(views.take(0) =~= Seq::empty());
            assert(views.take(0).filter(stay) =~= Seq::empty()) by {
                reveal(Seq::filter);
            }
            assert(views.take(0).filter(leave) =~= Seq::empty()) by {
                reveal(Seq::filter);
            }
            assert(self@.objects =~= Seq::empty());
            assert(self@.events =~= before.events + object_events(
                views.take(0).filter(leave),
                EVENT_OBJECT_REMOVED,
            ));
        }
        for object in it: objects.into_iter()
            invariant
                it.seq() == all,
                all.len() == count,
                done == it.index(),
                views == state::tracked_views(all),
                seen == state::disk_views(entries@),
                stay == (|o: TrackedObjectView| survives(o, storage, seen)),
                leave == (|o: TrackedObjectView| !survives(o, storage, seen)),
                removed == views.take(done).filter(leave).len(),
                removed <= done,
                self@ == (VirtualDeviceStateView {
                    objects: views.take(done).filter(stay),
                    events: before.events + object_events(
                        views.take(done).filter(leave),
                        EVENT_OBJECT_REMOVED,
                    ),
                    ..before
                }),
        {
            let ghost view = object@;
            let ghost now = self@;
            proof {
                assert(views[done] == view);
                assert(views.take(done + 1).drop_last() =~= views.take(done));
                assert(views.take(done + 1).last() == view);
                reveal(Seq::filter);
            }
            if object.storage != storage || is_on_disk(entries, object.rel_path.as_str()) {
                assert(stay(view) && !leave(view));
                self.objects.push(object);
                assert(self@.objects =~= now.objects.push(view));
            } else {
                assert(!stay(view) && leave(view));
                let event = build_event(EVENT_OBJECT_REMOVED, object.handle);
                let ghost notice = event@;
                self.event_queue.push_back(event);
                removed = removed + 1;
                proof {
                    let lost = views.take(done).filter(leave);
                    assert(self@.events =~= now.events.push(notice));
                    assert(object_events(lost.push(view), EVENT_OBJECT_REMOVED) =~= object_events(
                        lost,
                        EVENT_OBJECT_REMOVED,
                    ).push(notice));
                    assert(self@.events =~= before.events + object_events(
                        lost.push(view),
                        EVENT_OBJECT_REMOVED,
                    ));
                }
            }
            proof {
                done = done + 1;
            }
        }
        assert(views.take(done) =~= views);
        removed
    }

    /// Give every entry on disk that is not tracked a handle, and report each as added.
    fn add_found(&mut self, storage: u32, entries: &Vec<DiskEntry>) -> (added: usize)
        requires
            old(self)@.next_handle + grown(
                old(self)@.objects,
                old(self)@.next_handle,
                storage,
                state::disk_views(entries@),
            ).len() - old(self)@.objects.len() <= u32::MAX,
        ensures
            ({
                let seen = state::disk_views(entries@);
                let after = grown(old(self)@.objects, old(self)@.next_handle, storage, seen);
                let fresh = after.skip(old(self)@.objects.len() as int);
                &&& added == fresh.len()
                &&& added <= entries@.len()
                &&& final(self)@ == (VirtualDeviceStateView {
                    objects: after,
                    next_handle: old(self)@.next_handle + fresh.len(),
                    events: old(self)@.events + object_events(fresh, EVENT_OBJECT_ADDED),
                    ..old(self)@
                })
            }),
    {
        let ghost before = self@;
        let ghost seen = state::disk_views(entries@);
        let ghost from = before.objects.len() as int;
        let mut added: usize = 0;
        let mut i: usize = 0;
        proof {
            assert(seen.take(0) =~= Seq::empty());
            assert(before.objects.skip(from) =~= Seq::empty());
            assert(self@.events =~= before.events + object_events(
                before.objects.skip(from),
                EVENT_OBJECT_ADDED,
            ));
        }
        while i < entries.len()
            invariant
                i <= entries@.len(),
                seen == state::disk_views(entries@),
                from == before.objects.len(),
                before.next_handle + grown(before.objects, before.next_handle, storage, seen).len() - from
                    <= u32::MAX,
                ({
                    let after = grown(
                        before.objects,
                        before.next_handle,
                        storage,
                        seen.take(i as int),
                    );
                    let fresh = after.skip(from);
                    &&& from <= after.len()
                    &&& added == fresh.len()
                    &&& added <= i
                    &&& self@ == (VirtualDeviceStateView {
                        objects: after,
                        next_handle: before.next_handle + fresh.len(),
                        events: before.events + object_events(fresh, EVENT_OBJECT_ADDED),
                        ..before
                    })
                }),
            decreases entries.len() - i,
        {
            let ghost now = self@;
            let ghost after = grown(before.objects, before.next_handle, storage, seen.take(i as int));
            let entry = &entries[i];
            proof {
                assert(seen.take(i + 1).drop_last() =~= seen.take(i as int));
                assert(seen.take(i + 1).last() == entry@);
                lemma_grown_prefix(before.objects, before.next_handle, storage, seen, i + 1);
            }
            if self.find_on_storage(storage, entry.rel_path.as_str()).is_none() {
                let parent: u32 = self.find_handle_at(storage, entry.parent.as_str());
                let handle: u32 = self.next_handle;
                let object = TrackedObject {
                    handle,
                    storage,
                    parent,
                    rel_path: entry.rel_path.clone(),
                };
                let ghost view = object@;
                self.objects.push(object);
                self.next_handle = handle + 1;
                let event = build_event(EVENT_OBJECT_ADDED, handle);
                let ghost notice = event@;
                self.event_queue.push_back(event);
                added = added + 1;
                proof {
                    assert(self@.objects =~= now.objects.push(view));
                    let longer = grown(
                        before.objects,
                        before.next_handle,
                        storage,
                        seen.take(i + 1),
                    );
                    assert(longer == after.push(view));
                    assert(longer.skip(from) =~= after.skip(from).push(view));
                    assert(self@.events =~= now.events.push(notice));
                    assert(object_events(longer.skip(from), EVENT_OBJECT_ADDED) =~= object_events(
                        after.skip(from),
                        EVENT_OBJECT_ADDED,
                    ).push(notice));
                    assert(self@.events =~= before.events + object_events(
                        longer.skip(from),
                        EVENT_OBJECT_ADDED,
                    ));
                }
            }
            i = i + 1;
        }
        assert(seen.take(i as int) =~= seen);
        added
    }

    /// Catch up with what has changed on disk: objects that are gone are dropped, entries that are new
    /// get handles, and the host hears of each, and of the storage's free space if anything changed.
    /// `entries` are everything on disk on this storage, folders before what they hold.
    pub fn rescan_storage(&mut self, storage: u32, entries: &Vec<DiskEntry>) -> (r: RescanSummary)
        requires
            rescanned(old(self)@, storage, state::disk_views(entries@)).next_handle <= u32::MAX,
        ensures
            ({
                let seen = state::disk_views(entries@);
                let stay = kept(old(self)@.objects, storage, seen);
                &&& final(self)@ == rescanned(old(self)@, storage, seen)
                &&& r.removed == gone(old(self)@.objects, storage, seen).len()
                &&& r.added == final(self)@.objects.len() - stay.len()
            }),
    {
        let ghost before = self@;
        let ghost seen = state::disk_views(entries@);
        proof {
            lemma_grown_len(
                kept(before.objects, storage, seen),
                before.next_handle,
                storage,
                seen,
            );
        }
        let removed: usize = self.drop_gone(storage, entries);
        let added: usize = self.add_found(storage, entries);
        let ghost now = self@;
        if removed > 0 || added > 0 {
            self.event_queue.push_back(build_event(EVENT_STORAGE_INFO_CHANGED, storage));
            assert(self@.events =~= now.events.push(
                state::event_bytes(EVENT_STORAGE_INFO_CHANGED, storage),
            ));
        }
        proof {
            assert(self@.events =~= rescanned(before, storage, seen).events);
        }
        RescanSummary { added, removed }
    }
}

/// What lies on a storage after entries were added: what lay there before, and the entries.
proof fn lemma_grown_tracks(
    objects: Seq<TrackedObjectView>,
    next_handle: int,
    storage: u32,
    entries: Seq<DiskEntryView>,
    rel_path: Seq<char>,
)
    ensures
        state::tracks(grown(objects, next_handle, storage, entries), storage, rel_path) <==> (
        state::tracks(objects, storage, rel_path) || state::on_disk(entries, rel_path)),
    decreases entries.len(),
{
    if entries.len() > 0 {
        let fewer = entries.drop_last();
        let before = grown(objects, next_handle, storage, fewer);
        let after = grown(objects, next_handle, storage, entries);
        lemma_grown_tracks(objects, next_handle, storage, fewer, rel_path);
        assert(state::on_disk(entries, rel_path) <==> state::on_disk(fewer, rel_path)
            || entries.last().rel_path == rel_path) by {
            if state::on_disk(fewer, rel_path) {
                let i = choose|i: int|
                    0 <= i < fewer.len() && (#[trigger] fewer[i]).rel_path == rel_path;
                assert(entries[i].rel_path == rel_path);
            }
            if state::on_disk(entries, rel_path) {
                let i = choose|i: int|
                    0 <= i < entries.len() && (#[trigger] entries[i]).rel_path == rel_path;
                if i < fewer.len() {
                    assert(fewer[i].rel_path == rel_path);
                }
            }
            assert(entries[entries.len() - 1] == entries.last());
        }
        if !state::tracks(before, storage, entries.last().rel_path) {
            lemma_tracks_push(before, after.last(), storage, rel_path);
            assert(after == before.push(after.last()));
        }
    }
}

proof fn lemma_tracks_push(
    objects: Seq<TrackedObjectView>,
    object: TrackedObjectView,
    storage: u32,
    rel_path: Seq<char>,
)
    ensures
        state::tracks(objects.push(object), storage, rel_path) <==> (state::tracks(
            objects,
            storage,
            rel_path,
        ) || state::lies_at(object, storage, rel_path)),
{
    let longer = objects.push(object);
    if state::tracks(objects, storage, rel_path) {
        let i = choose|i: int|
            0 <= i < objects.len() && state::lies_at(#[trigger] objects[i], storage, rel_path);
        assert(state::lies_at(longer[i], storage, rel_path));
    }
    if state::tracks(longer, storage, rel_path) {
        let i = choose|i: int|
            0 <= i < longer.len() && state::lies_at(#[trigger] longer[i], storage, rel_path);
        if i < objects.len() {
            assert(state::lies_at(objects[i], storage, rel_path));
        }
    }
    assert(longer[objects.len() as int] == object);
}

/// What survives a rescan on the storage is on disk.
proof fn lemma_kept_is_on_disk(
    objects: Seq<TrackedObjectView>,
    storage: u32,
    entries: Seq<DiskEntryView>,
    rel_path: Seq<char>,
)
    ensures
        state::tracks(kept(objects, storage, entries), storage, rel_path) ==> state::on_disk(
            entries,
            rel_path,
        ),
{
    let stay = kept(objects, storage, entries);
    let p = |o: TrackedObjectView| survives(o, storage, entries);
    if state::tracks(stay, storage, rel_path) {
        let i = choose|i: int|
            0 <= i < stay.len() && state::lies_at(#[trigger] stay[i], storage, rel_path);
        objects.lemma_filter_pred(p, i);
        assert(p(stay[i]));
    }
}

/// After a rescan the object tree matches the disk: on that storage exactly the paths on disk are
/// tracked.
pub proof fn law_rescan_matches_the_disk(
    before: VirtualDeviceStateView,
    storage: u32,
    entries: Seq<DiskEntryView>,
    rel_path: Seq<char>,
)
    ensures
        state::tracks(rescanned(before, storage, entries).objects, storage, rel_path)
            <==> state::on_disk(entries, rel_path),
{
    let stay = kept(before.objects, storage, entries);
    lemma_kept_is_on_disk(before.objects, storage, entries, rel_path);
    lemma_grown_tracks(stay, before.next_handle, storage, entries, rel_path);
}

/// A rescan leaves alone what it finds in place: every object on another storage or still on disk is
/// tracked afterwards with the handle it had.
pub proof fn law_rescan_keeps_handles(
    before: VirtualDeviceStateView,
    storage: u32,
    entries: Seq<DiskEntryView>,
    i: int,
)
    requires
        0 <= i < before.objects.len(),
        survives(before.objects[i], storage, entries),
    ensures
        rescanned(before, storage, entries).objects.contains(before.objects[i]),
{
    let p = |o: TrackedObjectView| survives(o, storage, entries);
    let stay = kept(before.objects, storage, entries);
    before.objects.lemma_filter_contains(p, i);
    assert(stay.contains(before.objects[i]));
    let at = choose|k: int| 0 <= k < stay.len() && stay[k] == before.objects[i];
    lemma_grown_len(stay, before.next_handle, storage, entries);
    let after = grown(stay, before.next_handle, storage, entries);
    assert(after[at] == after.take(stay.len() as int)[at]);
}

pub(crate) proof fn lemma_filter_all(s: Seq<TrackedObjectView>, p: spec_fn(TrackedObjectView) -> bool)
    requires
        forall|i: int| 0 <= i < s.len() ==> p(#[trigger] s[i]),
    ensures
        s.filter(p) == s,
    decreases s.len(),
{
    reveal(Seq::filter);
    if s.len() > 0 {
        let rest = s.drop_last();
        assert forall|i: int| 0 <= i < rest.len() implies p(#[trigger] rest[i]) by {
            assert(rest[i] == s[i]);
        }
        lemma_filter_all(rest, p);
        assert(p(s[s.len() - 1]));
        assert(rest.push(s.last()) =~= s);
    }
}

pub(crate) proof fn lemma_filter_nothing(s: Seq<TrackedObjectView>, p: spec_fn(TrackedObjectView) -> bool)
    requires
        forall|i: int| 0 <= i < s.len() ==> !p(#[trigger] s[i]),
    ensures
        s.filter(p).len() == 0,
    decreases s.len(),
{
    reveal(Seq::filter);
    if s.len() > 0 {
        let rest = s.drop_last();
        assert forall|i: int| 0 <= i < rest.len() implies !p(#[trigger] rest[i]) by {
            assert(rest[i] == s[i]);
        }
        lemma_filter_nothing(rest, p);
        assert(!p(s[s.len() - 1]));
    }
}

pub(crate) proof fn lemma_nothing_to_add(
    objects: Seq<TrackedObjectView>,
    next_handle: int,
    storage: u32,
    entries: Seq<DiskEntryView>,
)
    requires
        forall|i: int|
            0 <= i < entries.len() ==> state::tracks(
                objects,
                storage,
                (#[trigger] entries[i]).rel_path,
            ),
    ensures
        grown(objects, next_handle, storage, entries) == objects,
    decreases entries.len(),
{
    if entries.len() > 0 {
        let fewer = entries.drop_last();
        assert forall|i: int| 0 <= i < fewer.len() implies state::tracks(
            objects,
            storage,
            (#[trigger] fewer[i]).rel_path,
        ) by {
            assert(fewer[i] == entries[i]);
        }
        lemma_nothing_to_add(objects, next_handle, storage, fewer);
        assert(state::tracks(objects, storage, entries[entries.len() - 1].rel_path));
    }
}

/// A rescan of a storage on which exactly what is on disk is tracked has no effect.
proof fn lemma_nothing_to_rescan(
    now: VirtualDeviceStateView,
    storage: u32,
    entries: Seq<DiskEntryView>,
)
    requires
        forall|rel_path: Seq<char>| #[trigger]
            state::tracks(now.objects, storage, rel_path) <==> state::on_disk(entries, rel_path),
    ensures
        rescanned(now, storage, entries) == now,
        gone(now.objects, storage, entries).len() == 0,
        kept(now.objects, storage, entries) == now.objects,
{
    let stay = |o: TrackedObjectView| survives(o, storage, entries);
    let leave = |o: TrackedObjectView| !survives(o, storage, entries);
    assert forall|i: int| 0 <= i < now.objects.len() implies stay(#[trigger] now.objects[i]) by {
        let o = now.objects[i];
        if o.storage == storage {
            assert(state::lies_at(o, storage, o.rel_path));
            assert(state::tracks(now.objects, storage, o.rel_path));
        }
    }
    lemma_filter_all(now.objects, stay);
    lemma_filter_nothing(now.objects, leave);
    assert forall|i: int| 0 <= i < entries.len() implies state::tracks(
        now.objects,
        storage,
        (#[trigger] entries[i]).rel_path,
    ) by {
        assert(state::on_disk(entries, entries[i].rel_path));
    }
    lemma_nothing_to_add(now.objects, now.next_handle, storage, entries);
    let none = gone(now.objects, storage, entries);
    assert(none =~= Seq::empty());
    assert(object_events(none, EVENT_OBJECT_REMOVED) =~= Seq::empty());
    let fresh = now.objects.skip(now.objects.len() as int);
    assert(fresh =~= Seq::empty());
    assert(object_events(fresh, EVENT_OBJECT_ADDED) =~= Seq::empty());
    assert(rescanned(now, storage, entries).events =~= now.events);
}

/// A rescan of a storage that finds nothing changed changes nothing and reports nothing: the second of two
/// rescans of the same disk is without effect.
pub proof fn law_rescan_settles(
    before: VirtualDeviceStateView,
    storage: u32,
    entries: Seq<DiskEntryView>,
)
    ensures
        ({
            let once = rescanned(before, storage, entries);
            &&& rescanned(once, storage, entries) == once
            &&& gone(once.objects, storage, entries).len() == 0
            &&& kept(once.objects, storage, entries) == once.objects
        }),
{
    let once = rescanned(before, storage, entries);
    assert forall|rel_path: Seq<char>| #[trigger]
        state::tracks(once.objects, storage, rel_path) <==> state::on_disk(entries, rel_path) by {
        law_rescan_matches_the_disk(before, storage, entries, rel_path);
    }
    lemma_nothing_to_rescan(once, storage, entries);
}

/// Whether handles and places are unique.
spec fn distinct(objects: Seq<TrackedObjectView>) -> bool {
    forall|i: int, j: int|
        0 <= i < j < objects.len() ==> (#[trigger] objects[i]).handle != (
        #[trigger] objects[j]).handle && !state::lies_at(
            objects[j],
            objects[i].storage,
            objects[i].rel_path,
        )
}

proof fn lemma_filter_distinct(s: Seq<TrackedObjectView>, p: spec_fn(TrackedObjectView) -> bool)
    requires
        distinct(s),
    ensures
        distinct(s.filter(p)),
        forall|i: int| 0 <= i < s.filter(p).len() ==> s.contains(#[trigger] s.filter(p)[i]),
    decreases s.len(),
{
    reveal(Seq::filter);
    if s.len() > 0 {
        let rest = s.drop_last();
        assert forall|i: int, j: int| 0 <= i < j < rest.len() implies (#[trigger] rest[i]).handle != (
        #[trigger] rest[j]).handle && !state::lies_at(
            rest[j],
            rest[i].storage,
            rest[i].rel_path,
        ) by {
            assert(rest[i] == s[i] && rest[j] == s[j]);
        }
        lemma_filter_distinct(rest, p);
        let out = s.filter(p);
        let sub = rest.filter(p);
        assert forall|i: int| 0 <= i < sub.len() implies s.contains(#[trigger] sub[i]) by {
            assert(rest.contains(sub[i]));
            let k = choose|k: int| 0 <= k < rest.len() && rest[k] == sub[i];
            assert(s[k] == sub[i]);
        }
        assert forall|i: int| 0 <= i < out.len() implies s.contains(#[trigger] out[i]) by {
            if i < sub.len() {
                assert(out[i] == sub[i]);
            } else {
                assert(s[s.len() - 1] == out[i]);
            }
        }
        if p(s.last()) {
            assert forall|i: int, j: int| 0 <= i < j < out.len() implies (#[trigger] out[i]).handle
                != (#[trigger] out[j]).handle && !state::lies_at(
                out[j],
                out[i].storage,
                out[i].rel_path,
            ) by {
                assert(out[i] == sub[i]);
                if j < sub.len() {
                    assert(out[j] == sub[j]);
                } else {
                    assert(rest.contains(sub[i]));
                    let k = choose|k: int| 0 <= k < rest.len() && rest[k] == sub[i];
                    assert(s[k] == sub[i]);
                    assert(s[s.len() - 1] == out[j]);
                }
            }
        }
    }
}

proof fn lemma_grown_distinct(
    objects: Seq<TrackedObjectView>,
    next_handle: int,
    storage: u32,
    entries: Seq<DiskEntryView>,
)
    requires
        distinct(objects),
        1 <= next_handle,
        next_handle + entries.len() <= u32::MAX,
        forall|i: int| 0 <= i < objects.len() ==> 0 < (#[trigger] objects[i]).handle < next_handle,
    ensures
        ({
            let after = grown(objects, next_handle, storage, entries);
            &&& distinct(after)
            &&& objects.len() <= after.len() <= objects.len() + entries.len()
            &&& forall|i: int|
                0 <= i < after.len() ==> 0 < (#[trigger] after[i]).handle < next_handle
                    + after.len() - objects.len()
        }),
    decreases entries.len(),
{
    if entries.len() > 0 {
        let before = grown(objects, next_handle, storage, entries.drop_last());
        let after = grown(objects, next_handle, storage, entries);
        lemma_grown_distinct(objects, next_handle, storage, entries.drop_last());
        if !state::tracks(before, storage, entries.last().rel_path) {
            let added = after.last();
            assert(after == before.push(added));
            assert forall|i: int, j: int| 0 <= i < j < after.len() implies (#[trigger] after[i]).handle
                != (#[trigger] after[j]).handle && !state::lies_at(
                after[j],
                after[i].storage,
                after[i].rel_path,
            ) by {
                assert(after[i] == before[i]);
                if j < before.len() {
                    assert(after[j] == before[j]);
                } else {
                    assert(!state::lies_at(before[i], storage, entries.last().rel_path));
                }
            }
        }
    }
}

/// A rescan keeps the tree sound: handles stay unique and below the next one, and no path is tracked
/// twice.
pub proof fn law_rescan_keeps_the_tree_sound(
    before: VirtualDeviceStateView,
    storage: u32,
    entries: Seq<DiskEntryView>,
)
    requires
        before.wf(),
        before.next_handle + entries.len() <= u32::MAX,
    ensures
        rescanned(before, storage, entries).wf(),
{
    let p = |o: TrackedObjectView| survives(o, storage, entries);
    let stay = kept(before.objects, storage, entries);
    lemma_filter_distinct(before.objects, p);
    assert forall|i: int| 0 <= i < stay.len() implies 0 < (#[trigger] stay[i]).handle
        < before.next_handle by {
        assert(before.objects.contains(stay[i]));
        let k = choose|k: int| 0 <= k < before.objects.len() && before.objects[k] == stay[i];
        assert(0 < before.objects[k].handle < before.next_handle);
    }
    lemma_grown_distinct(stay, before.next_handle, storage, entries);
    let after = rescanned(before, storage, entries);
    assert forall|i: int, j: int| 0 <= i < j < after.objects.len() implies !state::lies_at(
        #[trigger] after.objects[j],
        (#[trigger] after.objects[i]).storage,
        after.objects[i].rel_path,
    ) by {
        assert(after.objects[i].handle != after.objects[j].handle);
    }
}

/// Everything on disk on one storage.
#[derive(Debug)]
pub struct StorageListing {
    pub storage: u32,
    /// Folders before what they hold.
    pub entries: Vec<DiskEntry>,
}

/// A [`StorageListing`] with its entries as views.
pub struct StorageListingView {
    pub storage: u32,
    pub entries: Seq<DiskEntryView>,
}

impl View for StorageListing {
    type V = StorageListingView;

    open spec fn view(&self) -> StorageListingView {
        StorageListingView { storage: self.storage, entries: state::disk_views(self.entries@) }
    }
}

/// Storage listings as views.
pub open spec fn listing_views(disk: Seq<StorageListing>) -> Seq<StorageListingView> {
    disk.map_values(|l: StorageListing| l@)
}

/// The state after a rescan of several storages, one after the other.
pub open spec fn rescanned_all(
    before: VirtualDeviceStateView,
    disk: Seq<StorageListingView>,
) -> VirtualDeviceStateView
    decreases disk.len(),
{
    if disk.len() == 0 {
        before
    } else {
        rescanned(
            rescanned_all(before, disk.drop_last()),
            disk.last().storage,
            disk.last().entries,
        )
    }
}

/// How many objects a rescan of several storages finds gone.
pub open spec fn removed_count(before: VirtualDeviceStateView, disk: Seq<StorageListingView>) -> nat
    decreases disk.len(),
{
    if disk.len() == 0 {
        0
    } else {
        removed_count(before, disk.drop_last()) + gone(
            rescanned_all(before, disk.drop_last()).objects,
            disk.last().storage,
            disk.last().entries,
        ).len()
    }
}

/// How many entries a rescan of several storages finds new.
pub open spec fn added_count(before: VirtualDeviceStateView, disk: Seq<StorageListingView>) -> int
    decreases disk.len(),
{
    if disk.len() == 0 {
        0
    } else {
        added_count(before, disk.drop_last()) + rescanned_all(before, disk).objects.len() - kept(
            rescanned_all(before, disk.drop_last()).objects,
            disk.last().storage,
            disk.last().entries,
        ).len()
    }
}

proof fn lemma_gone_len(
    objects: Seq<TrackedObjectView>,
    storage: u32,
    entries: Seq<DiskEntryView>,
)
    ensures
        gone(objects, storage, entries).len() + kept(objects, storage, entries).len()
            == objects.len(),
    decreases objects.len(),
{
    reveal(Seq::filter);
    if objects.len() > 0 {
        lemma_gone_len(objects.drop_last(), storage, entries);
    }
}

/// The first storages add no more than all of them.
proof fn lemma_added_prefix(before: VirtualDeviceStateView, disk: Seq<StorageListingView>, k: int)
    requires
        0 <= k <= disk.len(),
    ensures
        0 <= added_count(before, disk.take(k)) <= added_count(before, disk),
    decreases disk.len() - k,
{
    if k < disk.len() {
        lemma_added_prefix(before, disk, k + 1);
        assert(disk.take(k + 1).drop_last() =~= disk.take(k));
        lemma_rescan_counts(before, disk.take(k));
        lemma_rescan_counts(before, disk.take(k + 1));
    } else {
        assert(disk.take(k) =~= disk);
        lemma_rescan_counts(before, disk);
    }
}

/// What a rescan of several storages adds and removes accounts for every object and every handle.
proof fn lemma_rescan_counts(before: VirtualDeviceStateView, disk: Seq<StorageListingView>)
    ensures
        0 <= added_count(before, disk),
        disk.len() > 0 ==> added_count(before, disk.drop_last()) <= added_count(before, disk),
        rescanned_all(before, disk).next_handle == before.next_handle + added_count(before, disk),
        rescanned_all(before, disk).objects.len() + removed_count(before, disk)
            == before.objects.len() + added_count(before, disk),
    decreases disk.len(),
{
    if disk.len() > 0 {
        let almost = rescanned_all(before, disk.drop_last());
        lemma_rescan_counts(before, disk.drop_last());
        lemma_gone_len(almost.objects, disk.last().storage, disk.last().entries);
        lemma_grown_len(
            kept(almost.objects, disk.last().storage, disk.last().entries),
            almost.next_handle,
            disk.last().storage,
            disk.last().entries,
        );
    }
}

/// Whether a device has a handle for every object that a rescan adds, and can count what it tracks.
pub open spec fn has_room(device: VirtualDeviceStateView, disk: Seq<StorageListingView>) -> bool {
    &&& device.next_handle + added_count(device, disk) <= u32::MAX
    &&& device.objects.len() + added_count(device, disk) <= usize::MAX
}

impl VirtualDeviceState {
    /// Catch up with what has changed on disk, storage by storage. Returns how much was added and
    /// removed in all.
    pub fn rescan_backing_dirs(&mut self, disk: &Vec<StorageListing>) -> (r: RescanSummary)
        requires
            has_room(old(self)@, listing_views(disk@)),
        ensures
            final(self)@ == rescanned_all(old(self)@, listing_views(disk@)),
            r.removed == removed_count(old(self)@, listing_views(disk@)),
            r.added == added_count(old(self)@, listing_views(disk@)),
    {
        let ghost before = self@;
        let ghost views = listing_views(disk@);
        let mut added: usize = 0;
        let mut removed: usize = 0;
        let mut i: usize = 0;
        assert(views.take(0) =~= Seq::empty());
        while i < disk.len()
            invariant
                i <= disk@.len(),
                views == listing_views(disk@),
                has_room(before, views),
                self@ == rescanned_all(before, views.take(i as int)),
                removed == removed_count(before, views.take(i as int)),
                added == added_count(before, views.take(i as int)),
            decreases disk.len() - i,
        {
            let listing = &disk[i];
            let ghost now = self@;
            proof {
                assert(views.take(i + 1).drop_last() =~= views.take(i as int));
                assert(views.take(i + 1).last() == listing@);
                lemma_added_prefix(before, views, i + 1);
                lemma_rescan_counts(before, views.take(i + 1));
            }
            let summary = self.rescan_storage(listing.storage, &listing.entries);
            removed = removed + summary.removed;
            added = added + summary.added;
            i = i + 1;
        }
        assert(views.take(i as int) =~= views);
        RescanSummary { added, removed }
    }
}

/// A rescan of one storage leaves what is tracked on the others as it was.
proof fn lemma_rescan_elsewhere(
    before: VirtualDeviceStateView,
    storage: u32,
    entries: Seq<DiskEntryView>,
    other: u32,
    rel_path: Seq<char>,
)
    requires
        other != storage,
    ensures
        state::tracks(rescanned(before, storage, entries).objects, other, rel_path)
            <==> state::tracks(before.objects, other, rel_path),
{
    let p = |o: TrackedObjectView| survives(o, storage, entries);
    let stay = kept(before.objects, storage, entries);
    if state::tracks(before.objects, other, rel_path) {
        let i = choose|i: int|
            0 <= i < before.objects.len() && state::lies_at(
                #[trigger] before.objects[i],
                other,
                rel_path,
            );
        law_rescan_keeps_handles(before, storage, entries, i);
        let after = rescanned(before, storage, entries).objects;
        let k = choose|k: int| 0 <= k < after.len() && after[k] == before.objects[i];
        assert(state::lies_at(after[k], other, rel_path));
    }
    lemma_grown_elsewhere(stay, before.next_handle, storage, entries, other, rel_path);
    if state::tracks(stay, other, rel_path) {
        let i = choose|i: int|
            0 <= i < stay.len() && state::lies_at(#[trigger] stay[i], other, rel_path);
        before.objects.lemma_filter_contains_rev(p, stay[i]);
        let k = choose|k: int| 0 <= k < before.objects.len() && before.objects[k] == stay[i];
        assert(state::lies_at(before.objects[k], other, rel_path));
    }
}

proof fn lemma_grown_elsewhere(
    objects: Seq<TrackedObjectView>,
    next_handle: int,
    storage: u32,
    entries: Seq<DiskEntryView>,
    other: u32,
    rel_path: Seq<char>,
)
    requires
        other != storage,
    ensures
        state::tracks(grown(objects, next_handle, storage, entries), other, rel_path)
            ==> state::tracks(objects, other, rel_path),
    decreases entries.len(),
{
    if entries.len() > 0 {
        let before = grown(objects, next_handle, storage, entries.drop_last());
        let after = grown(objects, next_handle, storage, entries);
        lemma_grown_elsewhere(objects, next_handle, storage, entries.drop_last(), other, rel_path);
        if !state::tracks(before, storage, entries.last().rel_path) {
            assert(after == before.push(after.last()));
            lemma_tracks_push(before, after.last(), other, rel_path);
        }
    }
}

/// Whether no storage is listed twice.
pub open spec fn lists_each_storage_once(disk: Seq<StorageListingView>) -> bool {
    forall|a: int, b: int|
        0 <= a < b < disk.len() ==> (#[trigger] disk[a]).storage != (#[trigger] disk[b]).storage
}

/// After a rescan of all storages the object tree matches the disk: on each storage exactly the paths on
/// disk there are tracked.
pub proof fn law_rescan_matches_every_storage(
    before: VirtualDeviceStateView,
    disk: Seq<StorageListingView>,
    i: int,
    rel_path: Seq<char>,
)
    requires
        0 <= i < disk.len(),
        lists_each_storage_once(disk),
    ensures
        state::tracks(rescanned_all(before, disk).objects, disk[i].storage, rel_path)
            <==> state::on_disk(disk[i].entries, rel_path),
    decreases disk.len(),
{
    let fewer = disk.drop_last();
    let almost = rescanned_all(before, fewer);
    if i == disk.len() - 1 {
        law_rescan_matches_the_disk(almost, disk[i].storage, disk[i].entries, rel_path);
    } else {
        assert(fewer[i] == disk[i]);
        assert(disk[i].storage != disk[disk.len() - 1].storage);
        law_rescan_matches_every_storage(before, fewer, i, rel_path);
        lemma_rescan_elsewhere(
            almost,
            disk.last().storage,
            disk.last().entries,
            disk[i].storage,
            rel_path,
        );
    }
}

/// A rescan of storages on which exactly what is on disk is tracked has no effect.
proof fn lemma_nothing_to_rescan_anywhere(
    now: VirtualDeviceStateView,
    disk: Seq<StorageListingView>,
)
    requires
        forall|i: int, rel_path: Seq<char>|
            0 <= i < disk.len() ==> (#[trigger] state::tracks(
                now.objects,
                (#[trigger] disk[i]).storage,
                rel_path,
            ) <==> state::on_disk(disk[i].entries, rel_path)),
    ensures
        rescanned_all(now, disk) == now,
        removed_count(now, disk) == 0,
        added_count(now, disk) == 0,
    decreases disk.len(),
{
    if disk.len() > 0 {
        let fewer = disk.drop_last();
        assert forall|i: int, rel_path: Seq<char>| 0 <= i < fewer.len() implies (
        #[trigger] state::tracks(now.objects, (#[trigger] fewer[i]).storage, rel_path)
            <==> state::on_disk(fewer[i].entries, rel_path)) by {
            assert(fewer[i] == disk[i]);
        }
        lemma_nothing_to_rescan_anywhere(now, fewer);
        let last = disk[disk.len() - 1];
        assert forall|rel_path: Seq<char>| #[trigger]
            state::tracks(now.objects, last.storage, rel_path) <==> state::on_disk(
                last.entries,
                rel_path,
            ) by {}
        lemma_nothing_to_rescan(now, last.storage, last.entries);
    }
}

/// A rescan of all storages that finds nothing changed changes nothing and reports nothing added and nothing
/// removed: the second of two rescans of the same disk is without effect.
pub proof fn law_rescan_settles_every_storage(
    before: VirtualDeviceStateView,
    disk: Seq<StorageListingView>,
)
    requires
        lists_each_storage_once(disk),
    ensures
        ({
            let once = rescanned_all(before, disk);
            &&& rescanned_all(once, disk) == once
            &&& removed_count(once, disk) == 0
            &&& added_count(once, disk) == 0
            &&& has_room(before, disk) ==> has_room(once, disk)
        }),
{
    lemma_rescan_counts(before, disk);
    let once = rescanned_all(before, disk);
    assert forall|i: int, rel_path: Seq<char>| 0 <= i < disk.len() implies (#[trigger] state::tracks(
        once.objects,
        (#[trigger] disk[i]).storage,
        rel_path,
    ) <==> state::on_disk(disk[i].entries, rel_path)) by {
        law_rescan_matches_every_storage(before, disk, i, rel_path);
    }
    lemma_nothing_to_rescan_anywhere(once, disk);
}

} // verus!
