//! A bounded look at everything on a storage, for diagnosis: whether recursion works, not the exact totals.

use vstd::prelude::*;

use crate::mtp::storage::{ListingItem, ListingItemView};
use crate::mtp::types::ObjectHandle;
use crate::text;
use std::collections::VecDeque;

verus! {

/// How many objects a traversal sees at most. Metadata can take a second per object, so a full listing may
/// run for many minutes.
pub const MAX_OBJECTS: usize = 200;

/// A breadth-first traversal of a storage that stops at [`MAX_OBJECTS`].
#[derive(Debug)]
pub struct Traversal {
    /// Folders still to be listed; the first one comes next.
    pub to_visit: VecDeque<Option<ObjectHandle>>,
    pub folders: usize,
    pub files: usize,
    /// Handles that the device would not describe. They do not count towards the bound.
    pub skipped: usize,
}

/// A [`Traversal`] with its folders as a sequence.
pub struct TraversalView {
    pub to_visit: Seq<Option<ObjectHandle>>,
    pub folders: int,
    pub files: int,
    pub skipped: int,
}

impl View for Traversal {
    type V = TraversalView;

    open spec fn view(&self) -> TraversalView {
        TraversalView {
            to_visit: self.to_visit@,
            folders: self.folders as int,
            files: self.files as int,
            skipped: self.skipped as int,
        }
    }
}

impl TraversalView {
    /// The bound has been reached.
    pub open spec fn is_capped(self) -> bool {
        self.folders + self.files >= MAX_OBJECTS
    }
}

/// A traversal as it starts, with the storage root to list.
pub open spec fn fresh_traversal() -> TraversalView {
    TraversalView { to_visit: seq![None], folders: 0, files: 0, skipped: 0 }
}

/// A traversal after one more item of a listing.
pub open spec fn traversal_step(t: TraversalView, item: ListingItemView) -> TraversalView {
    match item {
        ListingItemView::Object(info) => if info.is_folder() {
            TraversalView {
                to_visit: t.to_visit.push(Some(info.handle)),
                folders: t.folders + 1,
                ..t
            }
        } else {
            TraversalView { files: t.files + 1, ..t }
        },
        ListingItemView::Skipped(_) => TraversalView { skipped: t.skipped + 1, ..t },
    }
}

/// What a traversal says it saw.
pub open spec fn summary_text(t: TraversalView) -> Seq<char> {
    "Recursive traversal saw: "@ + text::decimal(t.folders as nat) + " folders, "@ + text::decimal(
        t.files as nat,
    ) + " files, "@ + text::decimal((t.folders + t.files) as nat) + " total"@ + (if t.skipped > 0 {
        ", "@ + text::decimal(t.skipped as nat) + " unreadable"@
    } else {
        Seq::empty()
    }) + (if t.is_capped() {
        " (stopped at cap, more exist)"@
    } else {
        Seq::empty()
    })
}

impl Traversal {
    /// A traversal from the storage root on.
    pub fn new() -> (r: Self)
        ensures
            r@ == fresh_traversal(),
    {
        let mut to_visit: VecDeque<Option<ObjectHandle>> = VecDeque::new();
        to_visit.push_back(None);
        let r = Traversal { to_visit, folders: 0, files: 0, skipped: 0 };
        assert(r@.to_visit =~= seq![None]);
        r
    }

    /// The next folder to list, or `None` when the traversal is over: nothing is left, or the bound has been
    /// reached.
    pub fn next(&mut self) -> (r: Option<Option<ObjectHandle>>)
        requires
            old(self)@.folders + old(self)@.files <= MAX_OBJECTS,
        ensures
            match r {
                Some(folder) => {
                    &&& !old(self)@.is_capped()
                    &&& old(self)@.to_visit.len() > 0
                    &&& folder == old(self)@.to_visit[0]
                    &&& final(self)@ == (TraversalView {
                        to_visit: old(self)@.to_visit.skip(1),
                        ..old(self)@
                    })
                },
                None => {
                    &&& old(self)@.is_capped() || old(self)@.to_visit.len() == 0
                    &&& final(self)@ == old(self)@
                },
            },
    {
        if self.folders + self.files >= MAX_OBJECTS {
            return None;
        }
        let ghost before = self@;
        let r = self.to_visit.pop_front();
        proof {
            if r is Some {
                assert(self@.to_visit =~= before.to_visit.skip(1));
            } else {
                assert(self@.to_visit =~= before.to_visit);
            }
        }
        r
    }

    /// Take one item of a listing. Returns whether the traversal goes on.
    pub fn take(&mut self, item: ListingItem) -> (more: bool)
        requires
            old(self)@.folders + old(self)@.files < MAX_OBJECTS,
            old(self)@.skipped < usize::MAX,
        ensures
            final(self)@ == traversal_step(old(self)@, item@),
            more == !final(self)@.is_capped(),
    {
        match item {
            ListingItem::Object(info) => {
                if info.is_folder() {
                    self.folders = self.folders + 1;
                    self.to_visit.push_back(Some(info.handle));
                } else {
                    self.files = self.files + 1;
                }
            },
            ListingItem::Skipped(_) => {
                self.skipped = self.skipped + 1;
            },
        }
        self.folders + self.files < MAX_OBJECTS
    }

    /// What the traversal saw.
    pub fn summary(&self) -> (r: String)
        requires
            self@.folders + self@.files <= MAX_OBJECTS,
        ensures
            r@ == summary_text(self@),
    {
        let mut r = "Recursive traversal saw: ".to_owned();
        r.append(text::write_count(self.folders).as_str());
        r.append(" folders, ");
        r.append(text::write_count(self.files).as_str());
        r.append(" files, ");
        r.append(text::write_count(self.folders + self.files).as_str());
        r.append(" total");
        if self.skipped > 0 {
            r.append(", ");
            r.append(text::write_count(self.skipped).as_str());
            r.append(" unreadable");
        }
        if self.folders + self.files >= MAX_OBJECTS {
            r.append(" (stopped at cap, more exist)");
        }
        assert(r@ =~= summary_text(self@));
        r
    }
}

/// What happens in a traversal.
pub enum TraversalEvent {
    /// The next folder was handed out for listing.
    HandedOut,
    /// A listing yielded an item.
    Item(ListingItemView),
}

/// A traversal after events, one after another.
pub open spec fn traversal_run(events: Seq<TraversalEvent>) -> TraversalView
    decreases events.len(),
{
    if events.len() == 0 {
        fresh_traversal()
    } else {
        let before = traversal_run(events.drop_last());
        match events.last() {
            TraversalEvent::HandedOut => TraversalView { to_visit: before.to_visit.skip(1), ..before },
            TraversalEvent::Item(item) => traversal_step(before, item),
        }
    }
}

/// Whether nothing happens once the bound has been reached, and a folder is handed out only where one is left.
pub open spec fn is_traversal_run(events: Seq<TraversalEvent>) -> bool
    decreases events.len(),
{
    events.len() == 0 || {
        let before = traversal_run(events.drop_last());
        &&& is_traversal_run(events.drop_last())
        &&& !before.is_capped()
        &&& events.last() is HandedOut ==> before.to_visit.len() > 0
    }
}

/// The folders that were handed out, in order.
pub open spec fn handed_out(events: Seq<TraversalEvent>) -> Seq<Option<ObjectHandle>>
    decreases events.len(),
{
    if events.len() == 0 {
        Seq::empty()
    } else {
        let before = handed_out(events.drop_last());
        match events.last() {
            TraversalEvent::HandedOut => before.push(
                traversal_run(events.drop_last()).to_visit[0],
            ),
            TraversalEvent::Item(_) => before,
        }
    }
}

/// The folders among the items, in order.
pub open spec fn folders_met(events: Seq<TraversalEvent>) -> Seq<Option<ObjectHandle>>
    decreases events.len(),
{
    if events.len() == 0 {
        Seq::empty()
    } else {
        let before = folders_met(events.drop_last());
        match events.last() {
            TraversalEvent::Item(ListingItemView::Object(info)) => if info.is_folder() {
                before.push(Some(info.handle))
            } else {
                before
            },
            _ => before,
        }
    }
}

/// How many items there were.
pub open spec fn items_met(events: Seq<TraversalEvent>) -> nat
    decreases events.len(),
{
    if events.len() == 0 {
        0
    } else {
        items_met(events.drop_last()) + (if events.last() is Item {
            1nat
        } else {
            0nat
        })
    }
}

/// A traversal is bounded and goes breadth first: it never counts more than [`MAX_OBJECTS`] objects, every item
/// is counted once, and the storage root and the folders met are handed out, or wait to be, in the order in
/// which they were met.
pub proof fn law_a_traversal_is_bounded_and_breadth_first(events: Seq<TraversalEvent>)
    requires
        is_traversal_run(events),
    ensures
        ({
            let t = traversal_run(events);
            &&& t.folders + t.files <= MAX_OBJECTS
            &&& t.folders == folders_met(events).len()
            &&& t.folders + t.files + t.skipped == items_met(events)
            &&& t.files >= 0 && t.skipped >= 0
            &&& handed_out(events) + t.to_visit == seq![None] + folders_met(events)
        }),
    decreases events.len(),
{
    let t = traversal_run(events);
    let all = seq![None] + folders_met(events);
    if events.len() == 0 {
        assert(handed_out(events) + t.to_visit =~= all);
    } else {
        let before = traversal_run(events.drop_last());
        law_a_traversal_is_bounded_and_breadth_first(events.drop_last());
        let old_all = handed_out(events.drop_last()) + before.to_visit;
        assert(handed_out(events) + t.to_visit =~= all) by {
            match events.last() {
                TraversalEvent::HandedOut => {
                    assert(handed_out(events) + t.to_visit =~= old_all);
                },
                TraversalEvent::Item(_) => {
                    if t.to_visit.len() > before.to_visit.len() {
                        assert(handed_out(events) + t.to_visit =~= old_all.push(t.to_visit.last()));
                    }
                },
            }
        }
    }
}

} // verus!
