//! The state of an open virtual device: its object tree, its queues, and the hooks that make it
//! misbehave on purpose.

use vstd::prelude::*;

use crate::search;
use crate::text;
use crate::transport::virtual_device::config::VirtualDeviceConfig;
use crate::wire;
use std::collections::{HashMap, VecDeque};

verus! {

/// How many dropped paths are remembered; past it the oldest one is forgotten.
pub const DROPPED_PATHS_CAP: usize = 1024;

/// The `GeneralError` response code.
pub const GENERAL_ERROR: u16 = 0x2002;

/// The event code of an added object.
pub const EVENT_OBJECT_ADDED: u16 = 0x4002;

/// The event code of a removed object.
pub const EVENT_OBJECT_REMOVED: u16 = 0x4003;

/// The event code of a storage whose free space has changed.
pub const EVENT_STORAGE_INFO_CHANGED: u16 = 0x400C;

/// An object the device has handed out a handle for.
#[derive(Debug)]
pub struct TrackedObject {
    pub handle: u32,
    /// The storage it lies on.
    pub storage: u32,
    /// The handle of its folder, 0 at the root.
    pub parent: u32,
    /// Its path below the storage root.
    pub rel_path: String,
}

/// A [`TrackedObject`] with its path as a sequence of characters.
pub struct TrackedObjectView {
    pub handle: u32,
    pub storage: u32,
    pub parent: u32,
    pub rel_path: Seq<char>,
}

impl View for TrackedObject {
    type V = TrackedObjectView;

    open spec fn view(&self) -> TrackedObjectView {
        TrackedObjectView {
            handle: self.handle,
            storage: self.storage,
            parent: self.parent,
            rel_path: self.rel_path@,
        }
    }
}

/// A file or folder found on disk.
#[derive(Debug)]
pub struct DiskEntry {
    /// Its path below the storage root.
    pub rel_path: String,
    /// The path of its folder, empty at the root.
    pub parent: String,
}

/// A [`DiskEntry`] with its paths as sequences of characters.
pub struct DiskEntryView {
    pub rel_path: Seq<char>,
    pub parent: Seq<char>,
}

impl View for DiskEntry {
    type V = DiskEntryView;

    open spec fn view(&self) -> DiskEntryView {
        DiskEntryView { rel_path: self.rel_path@, parent: self.parent@ }
    }
}

/// How many objects a rescan found added and removed.
#[derive(Debug, Clone, Copy, PartialEq, Eq, Structural)]
pub struct RescanSummary {
    pub added: usize,
    pub removed: usize,
}

/// A command that waits for its data phase.
#[derive(Debug)]
pub struct PendingCommand {
    pub code: u16,
    pub tx_id: u32,
    pub params: Vec<u32>,
}

/// A [`PendingCommand`] with its parameters as a sequence.
pub struct PendingCommandView {
    pub code: u16,
    pub tx_id: u32,
    pub params: Seq<u32>,
}

impl View for PendingCommand {
    type V = PendingCommandView;

    open spec fn view(&self) -> PendingCommandView {
        PendingCommandView { code: self.code, tx_id: self.tx_id, params: self.params@ }
    }
}

/// An operation that is complete and ready to be carried out.
#[derive(Debug)]
pub struct Dispatch {
    pub code: u16,
    pub tx_id: u32,
    pub params: Vec<u32>,
    /// What the host sent with it, if it sends anything.
    pub payload: Option<Vec<u8>>,
}

/// A [`Dispatch`] with its parts as sequences.
pub struct DispatchView {
    pub code: u16,
    pub tx_id: u32,
    pub params: Seq<u32>,
    pub payload: Option<Seq<u8>>,
}

impl View for Dispatch {
    type V = DispatchView;

    open spec fn view(&self) -> DispatchView {
        DispatchView {
            code: self.code,
            tx_id: self.tx_id,
            params: self.params@,
            payload: match self.payload {
                Some(payload) => Some(payload@),
                None => None,
            },
        }
    }
}

/// The state of an open virtual device.
pub struct VirtualDeviceState {
    pub objects: Vec<TrackedObject>,
    pub next_handle: u32,
    /// How many guards are holding the filesystem watcher paused.
    pub pause_count: usize,
    /// Paths the watcher dropped while paused, oldest first.
    pub dropped_paths: VecDeque<String>,
    /// Limits for the next partial reads, one per read.
    pub forced_partial_read_caps: VecDeque<usize>,
    /// Handles whose `GetObjectInfo` answers with a code.
    pub forced_object_info_errors: HashMap<u32, u16>,
    /// Paths whose `GetObjectInfo` answers `GeneralError`.
    pub undescribable_objects: Vec<String>,
    pub pending_cancel_wedge: bool,
    pub pending_operation_wedge: bool,
    pub pending_command: Option<PendingCommand>,
    /// Response containers, in the order they will be received.
    pub response_queue: VecDeque<Vec<u8>>,
    /// Event containers, in the order they will be received.
    pub event_queue: VecDeque<Vec<u8>>,
}

/// A [`VirtualDeviceState`] with its parts as mathematical values.
pub struct VirtualDeviceStateView {
    pub objects: Seq<TrackedObjectView>,
    pub next_handle: int,
    pub pause_count: int,
    pub dropped_paths: Seq<Seq<char>>,
    pub read_caps: Seq<usize>,
    pub info_errors: Map<u32, u16>,
    pub undescribable: Seq<Seq<char>>,
    pub cancel_wedge: bool,
    pub operation_wedge: bool,
    pub pending: Option<PendingCommandView>,
    pub responses: Seq<Seq<u8>>,
    pub events: Seq<Seq<u8>>,
}

/// Tracked objects as views.
pub open spec fn tracked_views(objects: Seq<TrackedObject>) -> Seq<TrackedObjectView> {
    objects.map_values(|o: TrackedObject| o@)
}

/// Disk entries as views.
pub open spec fn disk_views(entries: Seq<DiskEntry>) -> Seq<DiskEntryView> {
    entries.map_values(|e: DiskEntry| e@)
}

/// Byte buffers as sequences.
pub open spec fn buffer_views(buffers: Seq<Vec<u8>>) -> Seq<Seq<u8>> {
    buffers.map_values(|b: Vec<u8>| b@)
}

impl View for VirtualDeviceState {
    type V = VirtualDeviceStateView;

    open spec fn view(&self) -> VirtualDeviceStateView {
        VirtualDeviceStateView {
            objects: tracked_views(self.objects@),
            next_handle: self.next_handle as int,
            pause_count: self.pause_count as int,
            dropped_paths: text::views(self.dropped_paths@),
            read_caps: self.forced_partial_read_caps@,
            info_errors: self.forced_object_info_errors@,
            undescribable: text::views(
                self.undescribable_objects@,
            ),
            cancel_wedge: self.pending_cancel_wedge,
            operation_wedge: self.pending_operation_wedge,
            pending: match self.pending_command {
                Some(command) => Some(command@),
                None => None,
            },
            responses: buffer_views(self.response_queue@),
            events: buffer_views(self.event_queue@),
        }
    }
}

/// The state of a device that has just been opened.
pub open spec fn fresh_state(undescribable: Seq<Seq<char>>) -> VirtualDeviceStateView {
    VirtualDeviceStateView {
        objects: Seq::empty(),
        next_handle: 1,
        pause_count: 0,
        dropped_paths: Seq::empty(),
        read_caps: Seq::empty(),
        info_errors: Map::empty(),
        undescribable,
        cancel_wedge: false,
        operation_wedge: false,
        pending: None,
        responses: Seq::empty(),
        events: Seq::empty(),
    }
}

/// Whether an object lies on this storage at this path.
pub open spec fn lies_at(o: TrackedObjectView, storage: u32, rel_path: Seq<char>) -> bool {
    o.storage == storage && o.rel_path == rel_path
}

/// Whether some object lies on this storage at this path.
pub open spec fn tracks(objects: Seq<TrackedObjectView>, storage: u32, rel_path: Seq<char>) -> bool {
    exists|i: int| 0 <= i < objects.len() && lies_at(#[trigger] objects[i], storage, rel_path)
}

/// Whether some entry on disk has this path.
pub open spec fn on_disk(entries: Seq<DiskEntryView>, rel_path: Seq<char>) -> bool {
    exists|i: int| 0 <= i < entries.len() && (#[trigger] entries[i]).rel_path == rel_path
}

impl VirtualDeviceStateView {
    /// Handles are unique, above 0 and below the next one; no path is tracked twice on a storage; no
    /// more paths are remembered than the cap allows.
    pub open spec fn wf(self) -> bool {
        &&& 1 <= self.next_handle
        &&& forall|i: int|
            0 <= i < self.objects.len() ==> 0 < (#[trigger] self.objects[i]).handle
                < self.next_handle
        &&& forall|i: int, j: int|
            0 <= i < j < self.objects.len() ==> (#[trigger] self.objects[i]).handle != (
            #[trigger] self.objects[j]).handle
        &&& forall|i: int, j: int|
            0 <= i < j < self.objects.len() ==> !lies_at(
                #[trigger] self.objects[j],
                (#[trigger] self.objects[i]).storage,
                self.objects[i].rel_path,
            )
        &&& self.dropped_paths.len() <= DROPPED_PATHS_CAP
    }
}

/// An event container: its length, its type, the event code, no transaction, and one parameter.
pub open spec fn event_bytes(code: u16, param: u32) -> Seq<u8> {
    wire::u32_bytes(16) + wire::u16_bytes(4) + wire::u16_bytes(code) + wire::u32_bytes(0)
        + wire::u32_bytes(param)
}

/// Build an event container.
pub fn build_event(code: u16, param: u32) -> (r: Vec<u8>)
    ensures
        r@ == event_bytes(code, param),
{
    let mut r: Vec<u8> = Vec::new();
    wire::pack_u32(&mut r, 16);
    wire::pack_u16(&mut r, 4);
    wire::pack_u16(&mut r, code);
    wire::pack_u32(&mut r, 0);
    wire::pack_u32(&mut r, param);
    assert(r@ =~= event_bytes(code, param));
    r
}

impl VirtualDeviceState {
    /// The state of a device that has just been opened.
    pub fn new(config: &VirtualDeviceConfig) -> (r: Self)
        ensures
            r@ == fresh_state(config@.undescribable_objects),
            r@.wf(),
    {
        let undescribable_objects = config.undescribable_objects.clone();
        let r = VirtualDeviceState {
            objects: Vec::new(),
            next_handle: 1,
            pause_count: 0,
            dropped_paths: VecDeque::new(),
            forced_partial_read_caps: VecDeque::new(),
            forced_object_info_errors: HashMap::new(),
            undescribable_objects,
            pending_cancel_wedge: false,
            pending_operation_wedge: false,
            pending_command: None,
            response_queue: VecDeque::new(),
            event_queue: VecDeque::new(),
        };
        proof {
            assert(r@.objects =~= Seq::empty());
            assert(r@.dropped_paths =~= Seq::empty());
            assert(r@.responses =~= Seq::empty());
            assert(r@.events =~= Seq::empty());
            assert(r@.undescribable =~= config@.undescribable_objects);
            assert(r@.info_errors =~= Map::empty());
        }
        r
    }
}

/// The device with its next cancel armed to wedge.
pub open spec fn cancel_armed(state: VirtualDeviceStateView) -> VirtualDeviceStateView {
    VirtualDeviceStateView { cancel_wedge: true, ..state }
}

/// The device with its next command armed to wedge.
pub open spec fn operation_armed(state: VirtualDeviceStateView) -> VirtualDeviceStateView {
    VirtualDeviceStateView { operation_wedge: true, ..state }
}

/// The device with these limits for its next partial reads.
pub open spec fn reads_limited(state: VirtualDeviceStateView, caps: Seq<usize>) -> VirtualDeviceStateView {
    VirtualDeviceStateView { read_caps: caps, ..state }
}

/// The device after a partial read that asked for so many bytes, and how many it returned.
pub open spec fn partial_read(state: VirtualDeviceStateView, requested: usize) -> (
    VirtualDeviceStateView,
    usize,
) {
    if state.read_caps.len() == 0 {
        (state, requested)
    } else {
        (
            VirtualDeviceStateView { read_caps: state.read_caps.skip(1), ..state },
            if state.read_caps[0] < requested {
                state.read_caps[0]
            } else {
                requested
            },
        )
    }
}

/// The device with an answer forced on a handle.
pub open spec fn info_refused(
    state: VirtualDeviceStateView,
    handle: u32,
    response_code: Option<u16>,
) -> VirtualDeviceStateView {
    VirtualDeviceStateView {
        info_errors: state.info_errors.insert(
            handle,
            match response_code {
                Some(code) => code,
                None => GENERAL_ERROR,
            },
        ),
        ..state
    }
}

/// The device with no answer forced on any handle.
pub open spec fn info_restored(state: VirtualDeviceStateView) -> VirtualDeviceStateView {
    VirtualDeviceStateView { info_errors: Map::empty(), ..state }
}

/// The device after its watcher saw a path change.
pub open spec fn observed(state: VirtualDeviceStateView, path: Seq<char>) -> VirtualDeviceStateView {
    if state.pause_count == 0 {
        state
    } else {
        VirtualDeviceStateView {
            dropped_paths: remembered(state.dropped_paths, path),
            ..state
        }
    }
}

/// The paths remembered after one more was dropped: the newest ones, up to the cap.
pub open spec fn remembered(paths: Seq<Seq<char>>, path: Seq<char>) -> Seq<Seq<char>> {
    let longer = paths.push(path);
    if longer.len() > DROPPED_PATHS_CAP {
        longer.skip(1)
    } else {
        longer
    }
}

impl VirtualDeviceState {
    /// Hold the filesystem watcher paused.
    pub fn pause(&mut self)
        requires
            old(self).pause_count < usize::MAX,
        ensures
            final(self)@ == (VirtualDeviceStateView {
                pause_count: old(self)@.pause_count + 1,
                ..old(self)@
            }),
    {
        self.pause_count = self.pause_count + 1;
    }

    /// Let go of the filesystem watcher. It runs again once everyone who paused it has let go.
    pub fn resume(&mut self)
        ensures
            final(self)@ == (VirtualDeviceStateView {
                pause_count: if old(self)@.pause_count > 0 {
                    old(self)@.pause_count - 1
                } else {
                    0
                },
                ..old(self)@
            }),
    {
        self.pause_count = self.pause_count.saturating_sub(1);
    }

    /// Take a path the watcher saw change. While the watcher is paused the path is remembered and the
    /// change dropped; otherwise the change is live.
    pub fn observe(&mut self, path: String) -> (live: bool)
        ensures
            live == (old(self)@.pause_count == 0),
            final(self)@ == observed(old(self)@, path@),
    {
        if self.pause_count == 0 {
            return true;
        }
        let ghost before = self@;
        self.dropped_paths.push_back(path);
        assert(self@.dropped_paths =~= before.dropped_paths.push(path@));
        if self.dropped_paths.len() > DROPPED_PATHS_CAP {
            let ghost longer = self@.dropped_paths;
            let _ = self.dropped_paths.pop_front();
            assert(self@.dropped_paths =~= longer.skip(1));
        }
        false
    }

    /// The paths dropped while paused, oldest first.
    pub fn dropped(&self) -> (r: Vec<String>)
        ensures
            text::views(r@) == self@.dropped_paths,
    {
        let mut r: Vec<String> = Vec::new();
        let mut i: usize = 0;
        while i < self.dropped_paths.len()
            invariant
                i <= self.dropped_paths@.len(),
                r@.len() == i,
                forall|j: int| 0 <= j < i ==> r@[j]@ == self.dropped_paths@[j]@,
            decreases self.dropped_paths@.len() - i,
        {
            r.push(self.dropped_paths[i].clone());
            i = i + 1;
        }
        assert(text::views(r@) =~= self@.dropped_paths);
        r
    }

    /// Forget the dropped paths.
    pub fn clear_dropped(&mut self)
        ensures
            final(self)@ == (VirtualDeviceStateView { dropped_paths: Seq::empty(), ..old(self)@ }),
    {
        self.dropped_paths.clear();
        assert(self@.dropped_paths =~= Seq::empty());
    }

    /// Limit the next partial reads, one limit per read, in place of any limits set before.
    pub fn set_read_caps(&mut self, caps: Vec<usize>)
        ensures
            final(self)@ == reads_limited(old(self)@, caps@),
    {
        let ghost wanted = caps@;
        let mut queue: VecDeque<usize> = VecDeque::new();
        for cap in it: caps.into_iter()
            invariant
                it.seq() == wanted,
                queue@ =~= wanted.take(it.index()),
        {
            queue.push_back(cap);
        }
        assert(queue@ =~= wanted);
        self.forced_partial_read_caps = queue;
    }

    /// How many bytes a partial read that asks for `requested` returns, using up one limit.
    pub fn take_read_cap(&mut self, requested: usize) -> (r: usize)
        ensures
            (final(self)@, r) == partial_read(old(self)@, requested),
    {
        match self.forced_partial_read_caps.pop_front() {
            Some(cap) => {
                assert(self@.read_caps =~= old(self)@.read_caps.skip(1));
                if cap < requested {
                    cap
                } else {
                    requested
                }
            },
            None => {
                assert(self@.read_caps =~= old(self)@.read_caps);
                requested
            },
        }
    }

    /// Make `GetObjectInfo` for a handle answer with a code, `GeneralError` if none is given.
    pub fn set_info_error(&mut self, handle: u32, response_code: Option<u16>)
        ensures
            final(self)@ == info_refused(old(self)@, handle, response_code),
    {
        let code: u16 = match response_code {
            Some(code) => code,
            None => GENERAL_ERROR,
        };
        self.forced_object_info_errors.insert(handle, code);
    }

    /// Let every object describe itself again.
    pub fn clear_info_errors(&mut self)
        ensures
            final(self)@ == info_restored(old(self)@),
    {
        self.forced_object_info_errors.clear();
        assert(self@.info_errors =~= Map::empty());
    }

    /// Arm the wedge that the next cancel meets.
    pub fn arm_cancel_wedge(&mut self)
        ensures
            final(self)@ == cancel_armed(old(self)@),
    {
        self.pending_cancel_wedge = true;
    }

    /// Arm the wedge that the next command meets.
    pub fn arm_operation_wedge(&mut self)
        ensures
            final(self)@ == operation_armed(old(self)@),
    {
        self.pending_operation_wedge = true;
    }
}

/// The code that `GetObjectInfo` for a handle answers with instead of a description, if any: one that
/// was forced for the handle, or else `GeneralError` where the object's path is undescribable.
pub open spec fn info_error(state: VirtualDeviceStateView, handle: u32) -> Option<u16> {
    if state.info_errors.contains_key(handle) {
        Some(state.info_errors[handle])
    } else {
        match search::first_where(state.objects, |o: TrackedObjectView| o.handle == handle) {
            Some(i) => if state.undescribable.contains(state.objects[i].rel_path) {
                Some(GENERAL_ERROR)
            } else {
                None
            },
            None => None,
        }
    }
}

/// Whether one of several texts reads as `wanted`.
fn has_text(texts: &Vec<String>, wanted: &str) -> (r: bool)
    ensures
        r == text::views(texts@).contains(wanted@),
{
    let ghost views = text::views(texts@);
    let mut i: usize = 0;
    while i < texts.len()
        invariant
            i <= texts@.len(),
            views == text::views(texts@),
            forall|j: int| 0 <= j < i ==> views[j] != wanted@,
        decreases texts.len() - i,
    {
        if text::same(texts[i].as_str(), wanted) {
            assert(views[i as int] == wanted@);
            return true;
        }
        i = i + 1;
    }
    false
}

impl VirtualDeviceState {
    /// Where the object with a handle stands among the tracked ones.
    fn find_handle(&self, handle: u32) -> (r: Option<usize>)
        ensures
            search::first_where(self@.objects, |o: TrackedObjectView| o.handle == handle) == (
            match r {
                Some(i) => Some(i as int),
                None => None,
            }),
            r matches Some(i) ==> i < self.objects@.len(),
    {
        let ghost p = |o: TrackedObjectView| o.handle == handle;
        let mut i: usize = 0;
        while i < self.objects.len()
            invariant
                i <= self.objects@.len(),
                p == (|o: TrackedObjectView| o.handle == handle),
                forall|j: int| 0 <= j < i ==> !p(#[trigger] self@.objects[j]),
            decreases self.objects.len() - i,
        {
            if self.objects[i].handle == handle {
                proof {
                    assert(p(self@.objects[i as int]));
                    search::lemma_first_where_at(self@.objects, p, i as int);
                }
                return Some(i);
            }
            assert(!p(self@.objects[i as int]));
            i = i + 1;
        }
        proof {
            search::lemma_first_where_none(self@.objects, p);
        }
        None
    }

    /// The code that `GetObjectInfo` for a handle answers with instead of a description, if any.
    pub fn object_info_error(&self, handle: u32) -> (r: Option<u16>)
        ensures
            r == info_error(self@, handle),
    {
        match self.forced_object_info_errors.get(&handle) {
            Some(code) => Some(*code),
            None => match self.find_handle(handle) {
                Some(i) => if has_text(
                    &self.undescribable_objects,
                    self.objects[i].rel_path.as_str(),
                ) {
                    Some(GENERAL_ERROR)
                } else {
                    None
                },
                None => None,
            },
        }
    }
}

} // verus!
