//! The PTP-over-USB backend: root-listing quirks, partial reads, and the two-phase upload.
//!
//! Every function here decides; none talks to a device. A caller issues the request a decision names
//! and hands the device's answer to the next decision.

use vstd::prelude::*;

use crate::error::{IoErrorKind, IoFault, PtpError, PtpErrorView};
use crate::mtp::backend::{BackendListingError, BackendListingErrorView, ByteRange, ListedObject,
    ListingErrorDisposition, Progress};
use crate::mtp::error::{Error, ErrorView, UploadError, UploadErrorView};
use crate::mtp::types::{ObjectHandle, ObjectInfo, ObjectInfoView, StorageId, StorageInfo};
use crate::ptp::{OperationCode, PtpHandle, PtpObjectInfo, PtpStorageId, ResponseCode, ALL_HANDLE,
    ROOT_HANDLE, SEND_ROOT_HANDLE};
use crate::text;

verus! {

/// Which operation to use for a ranged or offset read.
#[derive(Debug, Clone, Copy, PartialEq, Eq, Structural)]
pub enum PartialReadOp {
    /// `GetPartialObject64`: 64-bit offset, preferred when advertised.
    Wide,
    /// `GetPartialObject`: 32-bit offset, the fallback for devices without the 64-bit operation.
    Narrow,
}

/// What is said of an offset that only the 64-bit operation could reach.
pub open spec fn unreachable_offset_text(offset: u64) -> Seq<char> {
    "offset "@ + text::decimal(offset as nat)
        + " needs GetPartialObject64 (64-bit), which this device doesn't advertise; its 32-bit GetPartialObject can't reach past 4 GiB"@
}

/// Which partial-read operation serves an offset, or why none does.
pub open spec fn partial_read_choice(has_partial_64: bool, has_partial_32: bool, offset: u64) -> Result<
    PartialReadOp,
    ErrorView,
> {
    if has_partial_64 {
        Ok(PartialReadOp::Wide)
    } else if !has_partial_32 {
        Err(ErrorView::Unsupported)
    } else if offset <= u32::MAX {
        Ok(PartialReadOp::Narrow)
    } else {
        Err(ErrorView::InvalidData { message: unreachable_offset_text(offset) })
    }
}

/// Choose the partial-read operation, given what the device advertises and the target offset.
///
/// Prefers the 64-bit operation. Falls back to the 32-bit one when that is all the device has and
/// the offset fits. Errors when the device advertises neither, or when the offset is past what the
/// 32-bit operation can reach.
pub fn plan_partial_read(has_partial_64: bool, has_partial_32: bool, offset: u64) -> (r: Result<
    PartialReadOp,
    Error,
>)
    ensures
        crate::mtp::error::outcome(r) == partial_read_choice(has_partial_64, has_partial_32, offset),
{
    if has_partial_64 {
        Ok(PartialReadOp::Wide)
    } else if has_partial_32 {
        if offset > u32::MAX as u64 {
            let mut message = "offset ".to_owned();
            message.append(text::write_decimal(offset).as_str());
            message.append(
                " needs GetPartialObject64 (64-bit), which this device doesn't advertise; its 32-bit GetPartialObject can't reach past 4 GiB",
            );
            Err(Error::InvalidData { message })
        } else {
            Ok(PartialReadOp::Narrow)
        }
    } else {
        Err(Error::Unsupported)
    }
}

/// How to filter objects by parent during a listing.
#[derive(Debug, Clone, Copy, PartialEq, Eq, Structural)]
pub enum ParentFilter {
    /// Accept objects whose parent is exactly this one.
    Exact(PtpHandle),
    /// The root: accept the two reserved handles, and the storage ID where it cannot be an object.
    Root(Option<PtpStorageId>),
}

impl ParentFilter {
    /// Whether an object with this parent belongs to the listing.
    pub open spec fn admits(self, parent: PtpHandle) -> bool {
        match self {
            ParentFilter::Exact(expected) => parent == expected,
            ParentFilter::Root(storage) => {
                ||| parent.0 == ROOT_HANDLE
                ||| parent.0 == ALL_HANDLE
                ||| storage is Some && parent.0 == (storage->0).0
            },
        }
    }

    /// Whether an object with this parent belongs to the listing.
    pub fn accepts(self, parent: PtpHandle) -> (r: bool)
        ensures
            r == self.admits(parent),
    {
        match self {
            ParentFilter::Exact(expected) => parent.0 == expected.0,
            ParentFilter::Root(storage) => {
                parent.0 == ROOT_HANDLE || parent.0 == ALL_HANDLE || match storage {
                    Some(s) => parent.0 == s.0,
                    None => false,
                }
            },
        }
    }
}

/// The filter for a root listing that came back with these handles: the storage ID counts as a root
/// marker unless it is one of the objects.
pub open spec fn filter_for_root(storage: PtpStorageId, handles: Seq<PtpHandle>) -> ParentFilter {
    ParentFilter::Root(
        if handles.contains(PtpHandle(storage.0)) {
            None
        } else {
            Some(storage)
        },
    )
}

/// Build the filter for a root listing that came back with these handles.
///
/// Some devices report the storage ID as the parent of every root object. That reading only holds
/// while the storage ID isn't also an object handle: then the same parent means "inside that folder",
/// and accepting it would list the folder's children beside the root entries.
pub fn root_filter(storage: PtpStorageId, handles: &[PtpHandle]) -> (r: ParentFilter)
    ensures
        r == filter_for_root(storage, handles@),
{
    let mut i: usize = 0;
    while i < handles.len()
        invariant
            i <= handles@.len(),
            forall|j: int| 0 <= j < i ==> handles@[j] != PtpHandle(storage.0),
        decreases handles.len() - i,
    {
        if handles[i].0 == storage.0 {
            assert(handles@[i as int] == PtpHandle(storage.0));
            return ParentFilter::Root(None);
        }
        i = i + 1;
    }
    ParentFilter::Root(Some(storage))
}

/// No object of the listing is mistaken for the root: what the root filter accepts is a reserved
/// handle, or a value that no listed object has for its handle.
pub proof fn law_root_filter_keeps_children_out(
    storage: PtpStorageId,
    handles: Seq<PtpHandle>,
    parent: PtpHandle,
)
    requires
        filter_for_root(storage, handles).admits(parent),
    ensures
        parent.0 == ROOT_HANDLE || parent.0 == ALL_HANDLE || !handles.contains(parent),
{
}

/// Whether the device declined a request for `0xFFFFFFFF`, as opposed to the session or the
/// transport failing under it.
pub open spec fn declines_all_handle(e: PtpErrorView) -> bool {
    match e {
        PtpErrorView::Io { kind, message } => true,
        PtpErrorView::Protocol { code, operation } => {
            ||| code is OperationNotSupported
            ||| code is InvalidObjectHandle
            ||| code is InvalidParentObject
            ||| code is InvalidParameter
            ||| code is ParameterNotSupported
        },
        _ => false,
    }
}

/// Did the device decline `GetObjectHandles` for parent `0xFFFFFFFF`?
///
/// Only a decline may fall back to parent 0. Everything else has to propagate: a second round trip
/// hammers a sick device, and would report the second error instead of the first. An `Io` error
/// counts as a decline, because that is how a stalled endpoint arrives, and cameras signal an
/// unsupported operation that way.
pub fn is_all_handle_rejection(err: &PtpError) -> (r: bool)
    ensures
        r == declines_all_handle(err@),
{
    match err {
        PtpError::Protocol { code, .. } => match code {
            ResponseCode::OperationNotSupported
            | ResponseCode::InvalidObjectHandle
            | ResponseCode::InvalidParentObject
            | ResponseCode::InvalidParameter
            | ResponseCode::ParameterNotSupported => true,
            _ => false,
        },
        PtpError::Io(_) => true,
        _ => false,
    }
}

/// Where the enumeration of a folder's handles stands.
#[derive(Debug, Clone, Copy, PartialEq, Eq, Structural)]
pub enum ListingStage {
    /// A root listing has asked for parent `0xFFFFFFFF`.
    AskAll,
    /// The folder itself has been asked for; for the root, no parent is named.
    AskPlain,
    /// The root has been asked for by parent `0xFFFFFFFF` a second time, to list recursively.
    AskAllAgain,
}

/// The enumeration of a folder's handles, waiting for the answer to one request.
#[derive(Debug, Clone, Copy, PartialEq, Eq, Structural)]
pub struct ListingResolver {
    pub storage: PtpStorageId,
    pub parent: Option<PtpHandle>,
    pub stage: ListingStage,
}

/// What to do next about a folder's handles.
#[derive(Debug)]
pub enum Resolution {
    /// Ask the device for the handles under [`ListingResolver::request_parent`], and hand the answer
    /// to [`ListingResolver::answer`].
    Ask(ListingResolver),
    /// The handles are known, and this filter tells which of them belong to the folder.
    Resolved(Vec<PtpHandle>, ParentFilter),
    /// The listing failed.
    Failed(PtpError),
}

/// A [`Resolution`] with its parts as views.
pub enum ResolutionView {
    Ask(ListingResolver),
    Resolved(Seq<PtpHandle>, ParentFilter),
    Failed(PtpErrorView),
}

impl View for Resolution {
    type V = ResolutionView;

    open spec fn view(&self) -> ResolutionView {
        match self {
            Resolution::Ask(resolver) => ResolutionView::Ask(*resolver),
            Resolution::Resolved(handles, filter) => ResolutionView::Resolved(handles@, *filter),
            Resolution::Failed(e) => ResolutionView::Failed(e@),
        }
    }
}

/// An answer to `GetObjectHandles`, as a view.
pub type HandlesAnswer = Result<Seq<PtpHandle>, PtpErrorView>;

/// The first move of a listing.
pub open spec fn listing_start(
    storage: PtpStorageId,
    parent: Option<PtpHandle>,
    cancelled: bool,
) -> ResolutionView {
    if cancelled {
        ResolutionView::Failed(PtpErrorView::Cancelled)
    } else {
        ResolutionView::Ask(
            ListingResolver {
                storage,
                parent,
                stage: if parent is None {
                    ListingStage::AskAll
                } else {
                    ListingStage::AskPlain
                },
            },
        )
    }
}

impl ListingResolver {
    /// Only a root listing asks for parent `0xFFFFFFFF`.
    pub open spec fn wf(self) -> bool {
        self.stage is AskPlain || self.parent is None
    }

    /// The parent that the request at this stage names.
    pub open spec fn asks_for(self) -> Option<PtpHandle> {
        match self.stage {
            ListingStage::AskAll | ListingStage::AskAllAgain => Some(PtpHandle(ALL_HANDLE)),
            ListingStage::AskPlain => self.parent,
        }
    }

    /// What follows an answer.
    pub open spec fn after(self, answer: HandlesAnswer, cancelled: bool) -> ResolutionView {
        match (self.stage, answer) {
            (ListingStage::AskAll, Ok(handles)) => ResolutionView::Resolved(
                handles,
                filter_for_root(self.storage, handles),
            ),
            (ListingStage::AskAll, Err(e)) => if !declines_all_handle(e) {
                ResolutionView::Failed(e)
            } else if cancelled {
                ResolutionView::Failed(PtpErrorView::Cancelled)
            } else {
                ResolutionView::Ask(ListingResolver { stage: ListingStage::AskPlain, ..self })
            },
            (ListingStage::AskPlain, Ok(handles)) => ResolutionView::Resolved(
                handles,
                ParentFilter::Exact(
                    match self.parent {
                        Some(parent) => parent,
                        None => PtpHandle(ROOT_HANDLE),
                    },
                ),
            ),
            (ListingStage::AskPlain, Err(e)) => if self.parent is None && e is Protocol
                && e->Protocol_code is InvalidObjectHandle {
                ResolutionView::Ask(ListingResolver { stage: ListingStage::AskAllAgain, ..self })
            } else {
                ResolutionView::Failed(e)
            },
            (ListingStage::AskAllAgain, Ok(handles)) => ResolutionView::Resolved(
                handles,
                filter_for_root(self.storage, handles),
            ),
            (ListingStage::AskAllAgain, Err(e)) => ResolutionView::Failed(e),
        }
    }

    /// Begin the listing of a folder, `None` for the storage root.
    pub fn start(storage: StorageId, parent: Option<ObjectHandle>, cancelled: bool) -> (r: Resolution)
        ensures
            r@ == listing_start(
                crate::mtp::types::ptp_storage(storage),
                match parent {
                    Some(h) => Some(crate::mtp::types::ptp_handle(h)),
                    None => None,
                },
                cancelled,
            ),
    {
        if cancelled {
            return Resolution::Failed(PtpError::Cancelled);
        }
        let storage = storage.to_ptp();
        match parent {
            None => Resolution::Ask(
                ListingResolver { storage, parent: None, stage: ListingStage::AskAll },
            ),
            Some(h) => Resolution::Ask(
                ListingResolver {
                    storage,
                    parent: Some(h.to_ptp()),
                    stage: ListingStage::AskPlain,
                },
            ),
        }
    }

    /// The parent to name in the `GetObjectHandles` request of this stage.
    pub fn request_parent(&self) -> (r: Option<PtpHandle>)
        ensures
            r == self.asks_for(),
    {
        match self.stage {
            ListingStage::AskAll | ListingStage::AskAllAgain => Some(PtpHandle(ALL_HANDLE)),
            ListingStage::AskPlain => self.parent,
        }
    }

    /// Take the device's answer. `cancelled` says whether the caller has asked to stop by now.
    ///
    /// For a root listing parent `0xFFFFFFFF` is asked for first: many devices return only the
    /// root's own handles for it, while parent 0 returns every object on the storage. Parent 0 comes
    /// next, and only when the device declined. A device that then calls the root an invalid handle
    /// is listed recursively and filtered.
    pub fn answer(self, answer: Result<Vec<PtpHandle>, PtpError>, cancelled: bool) -> (r: Resolution)
        ensures
            r@ == self.after(
                match answer {
                    Ok(handles) => Ok(handles@),
                    Err(e) => Err(e@),
                },
                cancelled,
            ),
    {
        match self.stage {
            ListingStage::AskAll => match answer {
                Ok(handles) => {
                    let filter = root_filter(self.storage, handles.as_slice());
                    Resolution::Resolved(handles, filter)
                },
                Err(e) => {
                    if !is_all_handle_rejection(&e) {
                        Resolution::Failed(e)
                    } else if cancelled {
                        Resolution::Failed(PtpError::Cancelled)
                    } else {
                        Resolution::Ask(
                            ListingResolver {
                                storage: self.storage,
                                parent: self.parent,
                                stage: ListingStage::AskPlain,
                            },
                        )
                    }
                },
            },
            ListingStage::AskPlain => match answer {
                Ok(handles) => {
                    let parent = match self.parent {
                        Some(parent) => parent,
                        None => PtpHandle(ROOT_HANDLE),
                    };
                    Resolution::Resolved(handles, ParentFilter::Exact(parent))
                },
                Err(e) => {
                    let refused = match &e {
                        PtpError::Protocol { code: ResponseCode::InvalidObjectHandle, .. } => true,
                        _ => false,
                    };
                    if refused && self.parent.is_none() {
                        Resolution::Ask(
                            ListingResolver {
                                storage: self.storage,
                                parent: self.parent,
                                stage: ListingStage::AskAllAgain,
                            },
                        )
                    } else {
                        Resolution::Failed(e)
                    }
                },
            },
            ListingStage::AskAllAgain => match answer {
                Ok(handles) => {
                    let filter = root_filter(self.storage, handles.as_slice());
                    Resolution::Resolved(handles, filter)
                },
                Err(e) => Resolution::Failed(e),
            },
        }
    }
}

/// An error that is not a decline ends a root listing at once, and is reported as it came: no second
/// request follows it, so no later error can hide it.
pub proof fn law_a_broken_session_propagates(
    resolver: ListingResolver,
    e: PtpErrorView,
    cancelled: bool,
)
    requires
        !declines_all_handle(e),
    ensures
        resolver.after(Err(e), cancelled) == ResolutionView::Failed(e),
{
}

/// A listing asks at most three times: each answer resolves it, fails it, or moves it to a later
/// stage, and the last stage asks no further. Only a root listing asks more than once.
pub proof fn law_listing_requests_are_bounded(
    storage: PtpStorageId,
    parent: Option<PtpHandle>,
    resolver: ListingResolver,
    answer: HandlesAnswer,
    cancelled: bool,
)
    requires
        resolver.wf(),
    ensures
        listing_start(storage, parent, cancelled) matches ResolutionView::Ask(first) ==> first.wf(),
        resolver.after(answer, cancelled) matches ResolutionView::Ask(next) ==> {
            &&& next.wf()
            &&& next.storage == resolver.storage
            &&& next.parent == resolver.parent
            &&& next.parent is None
            &&& match resolver.stage {
                ListingStage::AskAll => next.stage is AskPlain,
                ListingStage::AskPlain => next.stage is AskAllAgain,
                ListingStage::AskAllAgain => false,
            }
        },
{
}

/// An answer with handles always resolves the listing with exactly those handles, even when there
/// are none: an empty folder is a result, not a reason to ask again.
pub proof fn law_handles_resolve_a_listing(
    resolver: ListingResolver,
    handles: Seq<PtpHandle>,
    cancelled: bool,
)
    ensures
        resolver.after(Ok(handles), cancelled) matches ResolutionView::Resolved(found, _)
            && found == handles,
{
}

/// A listing whose handles are known, fetching metadata handle by handle.
#[derive(Debug)]
pub struct ListingCursor {
    pub handles: Vec<PtpHandle>,
    pub cursor: usize,
    pub filter: ParentFilter,
}

/// A [`ListingCursor`] with its handles as a sequence.
pub struct ListingCursorView {
    pub handles: Seq<PtpHandle>,
    pub cursor: int,
    pub filter: ParentFilter,
}

impl View for ListingCursor {
    type V = ListingCursorView;

    open spec fn view(&self) -> ListingCursorView {
        ListingCursorView {
            handles: self.handles@,
            cursor: self.cursor as int,
            filter: self.filter,
        }
    }
}

/// What to do next in a listing.
#[derive(Debug)]
pub enum ListingStep {
    /// Every handle has been asked for.
    Finished,
    /// Fetch the metadata of this handle and hand the answer to [`ListingCursor::deliver`].
    Fetch(PtpHandle),
    /// Report this error.
    Stop(BackendListingError),
}

/// An answer to `GetObjectInfo`, as a view.
pub type InfoAnswer = Result<PtpObjectInfo, PtpErrorView>;

/// Whether a metadata error concerns one object only: the device answered a read-only request for a
/// handle it had listed with `GeneralError`, which closes that transaction and leaves the session
/// usable.
pub open spec fn concerns_one_object(e: PtpErrorView) -> bool {
    e is Protocol && e->Protocol_code is GeneralError && e->Protocol_operation is GetObjectInfo
}

/// What a listing yields for a handle: nothing where the object lies outside the folder.
pub open spec fn listed_item(filter: ParentFilter, handle: PtpHandle, answer: InfoAnswer) -> Option<
    Result<ObjectInfoView, BackendListingErrorView>,
> {
    match answer {
        Ok(info) => if filter.admits(info.parent) {
            Some(Ok(crate::mtp::types::neutral_object(info, handle)))
        } else {
            None
        },
        Err(e) => Some(
            Err(
                BackendListingErrorView {
                    handle: crate::mtp::types::neutral_handle(handle),
                    source: crate::mtp::error::error_of_ptp(e),
                    disposition: if concerns_one_object(e) {
                        ListingErrorDisposition::SkipObject
                    } else {
                        ListingErrorDisposition::Fatal
                    },
                },
            ),
        ),
    }
}

/// Everything an uncancelled listing yields, given the answer for each handle.
pub open spec fn listed_items(
    filter: ParentFilter,
    handles: Seq<PtpHandle>,
    answers: Seq<InfoAnswer>,
) -> Seq<Result<ObjectInfoView, BackendListingErrorView>>
    decreases handles.len(),
{
    if handles.len() == 0 {
        Seq::empty()
    } else {
        let before = listed_items(filter, handles.drop_last(), answers.drop_last());
        match listed_item(filter, handles.last(), answers.last()) {
            Some(item) => before.push(item),
            None => before,
        }
    }
}

impl ListingCursorView {
    /// The handle whose metadata is fetched next, unless none is left or the listing has been cancelled.
    pub open spec fn next_fetch(self, cancelled: bool) -> Option<PtpHandle> {
        if cancelled || self.cursor >= self.handles.len() {
            None
        } else {
            Some(self.handles[self.cursor])
        }
    }

    /// The listing after that.
    pub open spec fn polled(self, cancelled: bool) -> ListingCursorView {
        ListingCursorView {
            cursor: if self.next_fetch(cancelled) is Some {
                self.cursor + 1
            } else {
                self.cursor
            },
            ..self
        }
    }

    /// The cursor never passes the end.
    pub open spec fn wf(self) -> bool {
        0 <= self.cursor <= self.handles.len()
    }
}

impl ListingCursor {
    /// A listing of these handles, from the first one on.
    pub fn new(handles: Vec<PtpHandle>, filter: ParentFilter) -> (r: Self)
        ensures
            r@ == (ListingCursorView { handles: handles@, cursor: 0, filter }),
            r@.wf(),
    {
        ListingCursor { handles, cursor: 0, filter }
    }

    /// How many handles the device reported, before any filtering.
    pub fn total(&self) -> (r: usize)
        ensures
            r == self@.handles.len(),
    {
        self.handles.len()
    }

    /// The next move. A listing that has been cancelled stops before the next fetch, and stays where
    /// it is.
    pub fn poll(&mut self, cancelled: bool) -> (r: ListingStep)
        requires
            old(self)@.wf(),
        ensures
            final(self)@.wf(),
            final(self)@.handles == old(self)@.handles,
            final(self)@.filter == old(self)@.filter,
            final(self)@ == old(self)@.polled(cancelled),
            old(self)@.next_fetch(cancelled) == (match r {
                ListingStep::Fetch(handle) => Some(handle),
                _ => None,
            }),
            ({
                let at = old(self)@.cursor;
                if at == old(self)@.handles.len() {
                    r is Finished && final(self)@.cursor == at
                } else if cancelled {
                    &&& r matches ListingStep::Stop(e)
                    &&& e@ == (BackendListingErrorView {
                        handle: crate::mtp::types::neutral_handle(old(self)@.handles[at]),
                        source: ErrorView::Cancelled,
                        disposition: ListingErrorDisposition::Fatal,
                    })
                    &&& final(self)@.cursor == at
                } else {
                    r == ListingStep::Fetch(old(self)@.handles[at]) && final(self)@.cursor == at + 1
                }
            }),
    {
        if self.cursor >= self.handles.len() {
            return ListingStep::Finished;
        }
        let handle = self.handles[self.cursor];
        if cancelled {
            return ListingStep::Stop(
                BackendListingError::fatal(ObjectHandle::from_ptp(handle), Error::Cancelled),
            );
        }
        self.cursor = self.cursor + 1;
        ListingStep::Fetch(handle)
    }

    /// Take the device's answer for a handle. `None` means that the object lies outside the folder,
    /// so that the listing goes on without it.
    pub fn deliver(&self, handle: PtpHandle, answer: Result<PtpObjectInfo, PtpError>) -> (r: Option<
        ListedObject,
    >)
        ensures
            ({
                let seen = match answer {
                    Ok(info) => Ok(info),
                    Err(e) => Err(e@),
                };
                match r {
                    Some(item) => listed_item(self@.filter, handle, seen) == Some(
                        crate::mtp::backend::listed_view(item),
                    ),
                    None => listed_item(self@.filter, handle, seen) is None,
                }
            }),
    {
        match answer {
            Ok(info) => {
                if self.filter.accepts(info.parent) {
                    Some(Ok(ObjectInfo::from_ptp(info, handle)))
                } else {
                    None
                }
            },
            Err(e) => {
                let skip = match &e {
                    PtpError::Protocol {
                        code: ResponseCode::GeneralError,
                        operation: OperationCode::GetObjectInfo,
                    } => true,
                    _ => false,
                };
                let handle = ObjectHandle::from_ptp(handle);
                let source = Error::from(e);
                Some(
                    Err(
                        if skip {
                            BackendListingError::skippable(handle, source)
                        } else {
                            BackendListingError::fatal(handle, source)
                        },
                    ),
                )
            },
        }
    }
}

/// A request on the wire: an operation, its parameters, and the number of bytes the answer will hold
/// where the container itself cannot say it.
#[derive(Debug)]
pub struct WireRequest {
    pub operation: OperationCode,
    pub params: Vec<u32>,
    pub expected_size: Option<u64>,
}

/// A [`WireRequest`] with its parameters as a sequence.
pub struct WireRequestView {
    pub operation: OperationCode,
    pub params: Seq<u32>,
    pub expected_size: Option<u64>,
}

impl View for WireRequest {
    type V = WireRequestView;

    open spec fn view(&self) -> WireRequestView {
        WireRequestView {
            operation: self.operation,
            params: self.params@,
            expected_size: self.expected_size,
        }
    }
}

/// One streaming download: the full object size, and the request that starts it.
#[derive(Debug)]
pub struct BackendDownload {
    /// Full object size in bytes: always the whole object, even where the request reads a range.
    pub size: u64,
    pub request: WireRequest,
}

/// What is said of a download that starts past the end.
pub open spec fn past_end_text(what: Seq<char>, offset: u64, size: u64) -> Seq<char> {
    what + text::decimal(offset as nat) + " is past the object size "@ + text::decimal(size as nat)
}

/// Write what is said of a download that starts past the end.
pub fn write_past_end(what: &str, offset: u64, size: u64) -> (r: String)
    ensures
        r@ == past_end_text(what@, offset, size),
{
    let mut message = what.to_owned();
    message.append(text::write_decimal(offset).as_str());
    message.append(" is past the object size ");
    message.append(text::write_decimal(size).as_str());
    message
}

/// How many bytes one partial read can ask for out of `want`.
pub open spec fn read_quota(want: int) -> u32 {
    if want <= u32::MAX {
        want as u32
    } else {
        u32::MAX
    }
}

/// The low half of an offset.
pub open spec fn offset_low(offset: u64) -> u32 {
    (offset % 0x1_0000_0000) as u32
}

/// The high half of an offset.
pub open spec fn offset_high(offset: u64) -> u32 {
    (offset / 0x1_0000_0000) as u32
}

/// The request that starts a download, or why there is none.
pub open spec fn download_request(
    has_partial_64: bool,
    has_partial_32: bool,
    obj: ObjectHandle,
    range: ByteRange,
    size: u64,
) -> Result<WireRequestView, ErrorView> {
    let handle = crate::mtp::types::ptp_handle(obj).0;
    let offset = crate::mtp::backend::range_start(range);
    let quota = read_quota(crate::mtp::backend::range_len(range, size));
    if offset > size {
        Err(ErrorView::InvalidData { message: past_end_text("download offset "@, offset, size) })
    } else if range is Full {
        Ok(
            WireRequestView {
                operation: OperationCode::GetObject,
                params: seq![handle],
                expected_size: if size > u32::MAX {
                    Some(size)
                } else {
                    None
                },
            },
        )
    } else {
        match partial_read_choice(has_partial_64, has_partial_32, offset) {
            Ok(PartialReadOp::Wide) => Ok(
                WireRequestView {
                    operation: OperationCode::GetPartialObject64,
                    params: seq![handle, offset_low(offset), offset_high(offset), quota],
                    expected_size: None,
                },
            ),
            Ok(PartialReadOp::Narrow) => Ok(
                WireRequestView {
                    operation: OperationCode::GetPartialObject,
                    params: seq![handle, offset as u32, quota],
                    expected_size: None,
                },
            ),
            Err(e) => Err(e),
        }
    }
}

/// The offset that a 64-bit partial read carries in two halves is the offset asked for.
pub proof fn law_wide_offset_is_whole(
    has_partial_32: bool,
    obj: ObjectHandle,
    range: ByteRange,
    size: u64,
)
    requires
        !(range is Full),
    ensures
        download_request(true, has_partial_32, obj, range, size) matches Ok(request)
            ==> request.params[1] + 0x1_0000_0000 * request.params[2]
            == crate::mtp::backend::range_start(range),
{
}

/// A partial read never reaches past the end of the object, and covers the whole range wherever one
/// request can.
pub proof fn law_partial_read_stays_inside(
    has_partial_64: bool,
    has_partial_32: bool,
    obj: ObjectHandle,
    range: ByteRange,
    size: u64,
)
    requires
        !(range is Full),
    ensures
        download_request(has_partial_64, has_partial_32, obj, range, size) matches Ok(request) ==> {
            &&& crate::mtp::backend::range_start(range) + request.params.last() <= size
            &&& crate::mtp::backend::range_len(range, size) <= u32::MAX ==> request.params.last()
                == crate::mtp::backend::range_len(range, size)
        },
{
}

/// A whole-object download never needs a partial-read operation, so it works on every device.
pub proof fn law_full_download_always_works(
    has_partial_64: bool,
    has_partial_32: bool,
    obj: ObjectHandle,
    size: u64,
)
    ensures
        download_request(has_partial_64, has_partial_32, obj, ByteRange::Full, size) is Ok,
{
}

/// A buffered read.
#[derive(Debug, Clone, Copy, PartialEq, Eq, Structural)]
pub enum ReadPlan {
    /// Read the whole object.
    Whole,
    /// Read with the 64-bit operation.
    Wide { offset: u64, max_bytes: u32 },
    /// Read with the 32-bit operation.
    Narrow { offset: u64, max_bytes: u32 },
}

/// The read that serves an offset and a length, `None` for "to the end", or why there is none.
pub open spec fn read_choice(
    has_partial_64: bool,
    has_partial_32: bool,
    offset: u64,
    len: Option<u32>,
) -> Result<ReadPlan, ErrorView> {
    let max_bytes = match len {
        Some(len) => len,
        None => u32::MAX,
    };
    if len is None && offset == 0 {
        Ok(ReadPlan::Whole)
    } else {
        match partial_read_choice(has_partial_64, has_partial_32, offset) {
            Ok(PartialReadOp::Wide) => Ok(ReadPlan::Wide { offset, max_bytes }),
            Ok(PartialReadOp::Narrow) => Ok(ReadPlan::Narrow { offset, max_bytes }),
            Err(e) => Err(e),
        }
    }
}

/// What the USB backend knows of an open device.
#[derive(Debug)]
pub struct UsbBackend {
    /// Whether the device advertises `GetPartialObject64`.
    pub has_partial_object_64: bool,
    /// Whether the device advertises `GetPartialObject`.
    pub has_partial_object: bool,
}

/// What a device says of a storage, under the identifier it was asked for.
pub open spec fn named_storage(storage: StorageId, info: StorageInfo) -> StorageInfo {
    StorageInfo { id: storage, ..info }
}

/// What a device answered about its storages, one after another.
pub type StorageAnswers = Vec<(PtpStorageId, Result<StorageInfo, PtpError>)>;

/// The storages a device has, or the first answer that was none.
pub open spec fn storages_of(answers: Seq<(PtpStorageId, Result<StorageInfo, PtpError>)>) -> Result<
    Seq<StorageInfo>,
    ErrorView,
>
    decreases answers.len(),
{
    if answers.len() == 0 {
        Ok(Seq::empty())
    } else {
        match storages_of(answers.drop_last()) {
            Err(e) => Err(e),
            Ok(before) => match answers.last().1 {
                Ok(info) => Ok(before.push(named_storage(StorageId(answers.last().0.0 as u64), info))),
                Err(e) => Err(crate::mtp::error::error_of_ptp(e@)),
            },
        }
    }
}

/// An answer that was none stays the outcome, whatever comes after it.
proof fn lemma_storages_stay_failed(
    answers: Seq<(PtpStorageId, Result<StorageInfo, PtpError>)>,
    n: int,
)
    requires
        0 <= n <= answers.len(),
        storages_of(answers.take(n)) is Err,
    ensures
        storages_of(answers) == storages_of(answers.take(n)),
    decreases answers.len() - n,
{
    if n < answers.len() {
        assert(answers.take(n + 1).drop_last() =~= answers.take(n));
        lemma_storages_stay_failed(answers, n + 1);
    } else {
        assert(answers.take(n) =~= answers);
    }
}

/// Whether `op` is among the operations a device advertises.
fn advertises(operations: &[OperationCode], op: OperationCode) -> (r: bool)
    ensures
        r == operations@.contains(op),
{
    let mut i: usize = 0;
    while i < operations.len()
        invariant
            i <= operations@.len(),
            forall|j: int| 0 <= j < i ==> operations@[j] != op,
        decreases operations.len() - i,
    {
        if operations[i] == op {
            assert(operations@[i as int] == op);
            return true;
        }
        i = i + 1;
    }
    false
}

impl UsbBackend {
    /// Build the backend from the operations a device advertises.
    pub fn new(operations: &[OperationCode]) -> (r: Self)
        ensures
            r.has_partial_object_64 == operations@.contains(OperationCode::GetPartialObject64),
            r.has_partial_object == operations@.contains(OperationCode::GetPartialObject),
    {
        UsbBackend {
            has_partial_object_64: advertises(operations, OperationCode::GetPartialObject64),
            has_partial_object: advertises(operations, OperationCode::GetPartialObject),
        }
    }

    /// What the device says of one storage.
    pub fn storage_info(storage: StorageId, answer: Result<StorageInfo, PtpError>) -> (r: Result<
        StorageInfo,
        Error,
    >)
        ensures
            match answer {
                Ok(info) => r == Ok::<StorageInfo, Error>(named_storage(storage, info)),
                Err(e) => r matches Err(x) && x@ == crate::mtp::error::error_of_ptp(e@),
            },
    {
        match answer {
            Ok(info) => Ok(
                StorageInfo {
                    id: storage,
                    description: info.description,
                    total_capacity: info.total_capacity,
                    free_space: info.free_space,
                    is_writable: info.is_writable,
                },
            ),
            Err(e) => Err(Error::from(e)),
        }
    }

    /// The storages of the device, from its answer for each identifier it listed.
    pub fn storages(answers: StorageAnswers) -> (r: Result<Vec<StorageInfo>, Error>)
        ensures
            match r {
                Ok(storages) => storages_of(answers@) == Ok::<Seq<StorageInfo>, ErrorView>(
                    storages@,
                ),
                Err(e) => storages_of(answers@) == Err::<Seq<StorageInfo>, ErrorView>(e@),
            },
    {
        let ghost all = answers@;
        let mut storages: Vec<StorageInfo> = Vec::new();
        let ghost mut done: int = 0;
        assert(all.take(0) =~= Seq::empty());
        for answer in it: answers.into_iter()
            invariant
                it.seq() == all,
                done == it.index(),
                storages_of(all.take(done)) == Ok::<Seq<StorageInfo>, ErrorView>(storages@),
                all == answers@,
        {
            let (id, answer) = answer;
            proof {
                assert(all.take(done + 1).drop_last() =~= all.take(done));
                assert(all.take(done + 1).last() == all[done]);
            }
            match UsbBackend::storage_info(StorageId::from_ptp(id), answer) {
                Ok(info) => {
                    storages.push(info);
                },
                Err(e) => {
                    proof {
                        lemma_storages_stay_failed(all, done + 1);
                    }
                    return Err(e);
                },
            }
            proof {
                done = done + 1;
            }
        }
        assert(all.take(done) =~= all);
        Ok(storages)
    }

    /// Decide how to issue a ranged or offset read at this offset.
    pub fn partial_read(&self, offset: u64) -> (r: Result<PartialReadOp, Error>)
        ensures
            crate::mtp::error::outcome(r) == partial_read_choice(
                self.has_partial_object_64,
                self.has_partial_object,
                offset,
            ),
    {
        plan_partial_read(self.has_partial_object_64, self.has_partial_object, offset)
    }

    /// How to start a streaming download from an object of `size` bytes.
    ///
    /// A whole object past 4 GiB is asked for with its size, since the data container cannot carry
    /// it. A partial read asks for at most `u32::MAX` bytes; a larger tail takes several requests.
    pub fn download(&self, obj: ObjectHandle, range: ByteRange, size: u64) -> (r: Result<
        BackendDownload,
        Error,
    >)
        ensures
            match r {
                Ok(download) => download.size == size && download_request(
                    self.has_partial_object_64,
                    self.has_partial_object,
                    obj,
                    range,
                    size,
                ) == Ok::<WireRequestView, ErrorView>(download.request@),
                Err(e) => download_request(
                    self.has_partial_object_64,
                    self.has_partial_object,
                    obj,
                    range,
                    size,
                ) == Err::<WireRequestView, ErrorView>(e@),
            },
    {
        let offset: u64 = range.offset();
        if offset > size {
            return Err(
                Error::InvalidData { message: write_past_end("download offset ", offset, size) },
            );
        }
        let handle: u32 = obj.to_ptp().0;
        match range {
            ByteRange::Full => {
                let expected_size = if size > u32::MAX as u64 {
                    Some(size)
                } else {
                    None
                };
                let params = vec![handle];
                assert(params@ =~= seq![handle]);
                let request = WireRequest {
                    operation: OperationCode::GetObject,
                    params,
                    expected_size,
                };
                Ok(BackendDownload { size, request })
            },
            ByteRange::From(_) | ByteRange::Range { .. } => {
                let remaining: u64 = size - offset;
                let want: u64 = match range {
                    ByteRange::Range { len, .. } => if len < remaining {
                        len
                    } else {
                        remaining
                    },
                    _ => remaining,
                };
                let max_bytes: u32 = if want > u32::MAX as u64 {
                    u32::MAX
                } else {
                    want as u32
                };
                match self.partial_read(offset) {
                    Err(e) => Err(e),
                    Ok(PartialReadOp::Wide) => {
                        let low: u32 = (offset % 0x1_0000_0000) as u32;
                        let high: u32 = (offset / 0x1_0000_0000) as u32;
                        let params = vec![handle, low, high, max_bytes];
                        assert(params@ =~= seq![handle, low, high, max_bytes]);
                        let request = WireRequest {
                            operation: OperationCode::GetPartialObject64,
                            params,
                            expected_size: None,
                        };
                        Ok(BackendDownload { size, request })
                    },
                    Ok(PartialReadOp::Narrow) => {
                        let params = vec![handle, offset as u32, max_bytes];
                        assert(params@ =~= seq![handle, offset as u32, max_bytes]);
                        let request = WireRequest {
                            operation: OperationCode::GetPartialObject,
                            params,
                            expected_size: None,
                        };
                        Ok(BackendDownload { size, request })
                    },
                }
            },
        }
    }

    /// How to read `len` bytes at `offset` into memory, or everything from `offset` on.
    pub fn read_range(&self, offset: u64, len: Option<u32>) -> (r: Result<ReadPlan, Error>)
        ensures
            crate::mtp::error::outcome(r) == read_choice(
                self.has_partial_object_64,
                self.has_partial_object,
                offset,
                len,
            ),
    {
        let max_bytes: u32 = match len {
            None => {
                if offset == 0 {
                    return Ok(ReadPlan::Whole);
                }
                u32::MAX
            },
            Some(len) => len,
        };
        match self.partial_read(offset) {
            Ok(PartialReadOp::Wide) => Ok(ReadPlan::Wide { offset, max_bytes }),
            Ok(PartialReadOp::Narrow) => Ok(ReadPlan::Narrow { offset, max_bytes }),
            Err(e) => Err(e),
        }
    }
}

/// The parent that `SendObjectInfo` names: the storage root has a handle of its own there.
pub open spec fn write_parent(parent: Option<ObjectHandle>) -> PtpHandle {
    match parent {
        Some(h) => crate::mtp::types::ptp_handle(h),
        None => PtpHandle(SEND_ROOT_HANDLE),
    }
}

/// The parameters of the `SendObjectInfo` that creates a file or a folder under `parent`, `None` for
/// the storage root.
pub fn send_object_info_params(storage: StorageId, parent: Option<ObjectHandle>) -> (r: Vec<u32>)
    ensures
        r@ == seq![crate::mtp::types::ptp_storage(storage).0, write_parent(parent).0],
{
    let parent_handle = match parent {
        Some(h) => h.to_ptp(),
        None => PtpHandle(SEND_ROOT_HANDLE),
    };
    let r = vec![storage.to_ptp().0, parent_handle.0];
    assert(r@ =~= seq![crate::mtp::types::ptp_storage(storage).0, write_parent(parent).0]);
    r
}

/// The parameters of the `MoveObject` or `CopyObject` that brings an object under `new_parent`. Here
/// the storage root is handle 0, unlike in `SendObjectInfo`.
pub fn relocate_params(obj: ObjectHandle, new_parent: ObjectHandle, new_storage: StorageId) -> (r: Vec<
    u32,
>)
    ensures
        r@ == seq![
            crate::mtp::types::ptp_handle(obj).0,
            crate::mtp::types::ptp_storage(new_storage).0,
            crate::mtp::types::ptp_handle(new_parent).0,
        ],
{
    let r = vec![obj.to_ptp().0, new_storage.to_ptp().0, new_parent.to_ptp().0];
    assert(r@ =~= seq![
        crate::mtp::types::ptp_handle(obj).0,
        crate::mtp::types::ptp_storage(new_storage).0,
        crate::mtp::types::ptp_handle(new_parent).0,
    ]);
    r
}

/// The failure of an upload's data phase: an interrupted source is a cancellation.
pub open spec fn data_phase_error(e: PtpErrorView) -> ErrorView {
    if e is Io && e->Io_kind is Interrupted {
        ErrorView::Cancelled
    } else {
        crate::mtp::error::error_of_ptp(e)
    }
}

/// How an upload ends, given what the device answered to `SendObjectInfo` and, if that created the
/// object, how the data phase went.
pub open spec fn upload_outcome(
    created: Result<PtpHandle, PtpErrorView>,
    sent: Result<(), PtpErrorView>,
) -> Result<ObjectHandle, UploadErrorView> {
    match created {
        Err(e) => Err(
            UploadErrorView { source: crate::mtp::error::error_of_ptp(e), partial: None },
        ),
        Ok(handle) => match sent {
            Ok(_) => Ok(crate::mtp::types::neutral_handle(handle)),
            Err(e) => Err(
                UploadErrorView {
                    source: data_phase_error(e),
                    partial: Some(crate::mtp::types::neutral_handle(handle)),
                },
            ),
        },
    }
}

/// An upload reports a partial object exactly when the device had created it and the data phase did
/// not complete, and then it reports the handle the device gave.
pub proof fn law_partial_iff_created(
    created: Result<PtpHandle, PtpErrorView>,
    sent: Result<(), PtpErrorView>,
)
    ensures
        upload_outcome(created, sent) is Ok <==> created is Ok && sent is Ok,
        upload_outcome(created, sent) matches Err(e) ==> {
            &&& e.partial is Some <==> created is Ok
            &&& e.partial matches Some(h) ==> h == crate::mtp::types::neutral_handle(created->Ok_0)
        },
{
}

/// An upload whose `SendObjectInfo` succeeded: the object exists, and its bytes are on their way.
#[derive(Debug)]
pub struct UsbUpload {
    pub handle: PtpHandle,
    pub total: u64,
    pub sent: u64,
}

/// A result with its upload error as a view.
pub open spec fn upload_view<T>(r: Result<T, UploadError>) -> Result<T, UploadErrorView> {
    match r {
        Ok(value) => Ok(value),
        Err(e) => Err(e@),
    }
}

/// An upload after a chunk of the source was counted.
pub open spec fn chunk_counted(upload: UsbUpload, len: nat) -> UsbUpload {
    UsbUpload { sent: (upload.sent + len) as u64, ..upload }
}

impl UsbUpload {
    /// Take the device's answer to `SendObjectInfo` for an object of `total` bytes. Where it failed,
    /// no object exists, so there is no partial one to report.
    pub fn begin(created: Result<PtpHandle, PtpError>, total: u64) -> (r: Result<
        UsbUpload,
        UploadError,
    >)
        ensures
            match created {
                Ok(handle) => r == Ok::<UsbUpload, UploadError>(UsbUpload { handle, total, sent: 0 }),
                Err(e) => upload_view(r) == Err::<UsbUpload, UploadErrorView>(
                    UploadErrorView {
                        source: crate::mtp::error::error_of_ptp(e@),
                        partial: None,
                    },
                ),
            },
    {
        match created {
            Ok(handle) => Ok(UsbUpload { handle, total, sent: 0 }),
            Err(e) => Err(UploadError { source: Error::from(e), partial: None }),
        }
    }

    /// Count a chunk of the source, and say how far the upload is.
    pub fn on_chunk(&mut self, len: u64) -> (r: Progress)
        requires
            old(self).sent + len <= u64::MAX,
        ensures
            *final(self) == chunk_counted(*old(self), len as nat),
            final(self).sent == old(self).sent + len,
            final(self).handle == old(self).handle,
            final(self).total == old(self).total,
            r == (Progress {
                bytes_transferred: final(self).sent,
                total_bytes: Some(old(self).total),
            }),
    {
        self.sent = self.sent + len;
        Progress { bytes_transferred: self.sent, total_bytes: Some(self.total) }
    }

    /// What becomes of a chunk once the progress callback has had its say: a callback that breaks off
    /// turns the rest of the source into an interruption.
    pub fn after_progress(&self, keep_going: bool) -> (r: Result<(), IoFault>)
        ensures
            match r {
                Ok(_) => keep_going,
                Err(fault) => !keep_going && fault.kind is Interrupted && fault.message@
                    == "cancelled"@,
            },
    {
        if keep_going {
            Ok(())
        } else {
            Err(IoFault { kind: IoErrorKind::Interrupted, message: "cancelled".to_owned() })
        }
    }

    /// Take the outcome of the data phase. The object exists by now, so any failure reports its
    /// handle; it is not deleted here.
    pub fn finish(self, sent: Result<(), PtpError>) -> (r: Result<ObjectHandle, UploadError>)
        ensures
            upload_view(r) == upload_outcome(
                Ok(self.handle),
                match sent {
                    Ok(_) => Ok(()),
                    Err(e) => Err(e@),
                },
            ),
    {
        let handle = ObjectHandle::from_ptp(self.handle);
        match sent {
            Ok(_) => Ok(handle),
            Err(e) => {
                let interrupted = match &e {
                    PtpError::Io(fault) => match fault.kind {
                        IoErrorKind::Interrupted => true,
                        _ => false,
                    },
                    _ => false,
                };
                let source = if interrupted {
                    Error::Cancelled
                } else {
                    Error::from(e)
                };
                Err(UploadError { source, partial: Some(handle) })
            },
        }
    }
}

/// A progress callback that breaks off surfaces as a cancellation, with the object the device holds.
pub proof fn law_broken_off_upload_is_cancelled(handle: PtpHandle, message: Seq<char>)
    ensures
        upload_outcome(
            Ok(handle),
            Err(PtpErrorView::Io { kind: IoErrorKind::Interrupted, message }),
        ) == Err::<ObjectHandle, UploadErrorView>(
            UploadErrorView {
                source: ErrorView::Cancelled,
                partial: Some(crate::mtp::types::neutral_handle(handle)),
            },
        ),
{
}

/// What polling for an event came to: no event within the wait is a timeout.
pub fn polled_event<T>(event: Option<T>) -> (r: Result<T, Error>)
    ensures
        crate::mtp::error::outcome(r) == (match event {
            Some(event) => Ok(event),
            None => Err(ErrorView::Timeout),
        }),
{
    match event {
        Some(event) => Ok(event),
        None => Err(Error::Timeout),
    }
}

} // verus!
