//! The Windows WPD backend: pumping an upload to the worker that owns the device, and reconciling why
//! the source stopped with what the device made of it.

use vstd::prelude::*;

use crate::error::{IoErrorKind, IoFault};
use crate::mtp::backend::usb;
use crate::mtp::backend::{BackendListingError, ListedObject, Progress};
use crate::mtp::error::{Error, ErrorView, UploadError, UploadErrorView};
use crate::mtp::types::{ObjectHandle, ObjectInfo};

verus! {

/// The items of a listing, from the worker's answer: it answers for the whole folder, so every object in
/// it is readable.
pub fn listing(cancelled: bool, answer: Result<Vec<ObjectInfo>, Error>) -> (r: Result<
    Vec<ListedObject>,
    Error,
>)
    ensures
        cancelled ==> (r matches Err(e) && e@ is Cancelled),
        !cancelled ==> (match answer {
            Ok(objects) => r matches Ok(items) && items@ == objects@.map_values(
                |o: ObjectInfo| Ok::<ObjectInfo, BackendListingError>(o),
            ),
            Err(e) => r == Err::<Vec<ListedObject>, Error>(e),
        }),
{
    if cancelled {
        return Err(Error::Cancelled);
    }
    let objects = match answer {
        Ok(objects) => objects,
        Err(e) => {
            return Err(e);
        },
    };
    let ghost all = objects@;
    let ghost expected = all.map_values(|o: ObjectInfo| Ok::<ObjectInfo, BackendListingError>(o));
    let mut items: Vec<ListedObject> = Vec::new();
    let ghost mut done: int = 0;
    for object in it: objects.into_iter()
        invariant
            it.seq() == all,
            done == it.index(),
            expected == all.map_values(|o: ObjectInfo| Ok::<ObjectInfo, BackendListingError>(o)),
            items@ == expected.take(done),
    {
        items.push(Ok(object));
        proof {
            assert(items@ =~= expected.take(done + 1));
            done = done + 1;
        }
    }
    assert(expected.take(done) =~= expected);
    Ok(items)
}

/// Why the source of an upload stopped.
#[derive(Debug)]
pub enum UploadStop {
    /// The source ended, or the worker stopped taking chunks.
    Clean,
    /// The progress callback broke off.
    Cancelled,
    /// The source failed.
    Source(IoFault),
}

/// An [`UploadStop`] with its fault's text as a sequence of characters.
pub enum UploadStopView {
    Clean,
    Cancelled,
    Source { kind: IoErrorKind, message: Seq<char> },
}

impl View for UploadStop {
    type V = UploadStopView;

    open spec fn view(&self) -> UploadStopView {
        match self {
            UploadStop::Clean => UploadStopView::Clean,
            UploadStop::Cancelled => UploadStopView::Cancelled,
            UploadStop::Source(fault) => UploadStopView::Source {
                kind: fault.kind,
                message: fault.message@,
            },
        }
    }
}

/// What the worker made of an upload.
#[derive(Debug)]
pub enum UploadReply {
    /// Every declared byte arrived and the device committed the object.
    Committed(ObjectHandle),
    /// The chunks ended short of the declared size, so nothing was committed. The handle is the one that the
    /// open object had, as far as the worker saw one.
    ShortClosed { partial: Option<ObjectHandle> },
    /// Creating or writing the object failed.
    Error(Error),
}

/// An [`UploadReply`] with its error as a view.
pub enum UploadReplyView {
    Committed(ObjectHandle),
    ShortClosed { partial: Option<ObjectHandle> },
    Error(ErrorView),
}

impl View for UploadReply {
    type V = UploadReplyView;

    open spec fn view(&self) -> UploadReplyView {
        match self {
            UploadReply::Committed(handle) => UploadReplyView::Committed(*handle),
            UploadReply::ShortClosed { partial } => UploadReplyView::ShortClosed {
                partial: *partial,
            },
            UploadReply::Error(e) => UploadReplyView::Error(e@),
        }
    }
}

/// What an upload to the worker does next.
#[derive(Debug)]
pub enum UploadAction {
    /// Take the next item of the source.
    NextItem,
    /// Tell the progress callback, if there is one.
    Report(Progress),
    /// Hand a chunk of this many bytes to the worker.
    Send(u64),
    /// Close the worker's input and wait for its verdict.
    AwaitReply(UploadStop),
    /// The upload is over.
    Done(Result<ObjectHandle, UploadError>),
}

/// An [`UploadAction`] with its parts as views.
pub enum UploadActionView {
    NextItem,
    Report(Progress),
    Send(u64),
    AwaitReply(UploadStopView),
    Done(Result<ObjectHandle, UploadErrorView>),
}

impl View for UploadAction {
    type V = UploadActionView;

    open spec fn view(&self) -> UploadActionView {
        match self {
            UploadAction::NextItem => UploadActionView::NextItem,
            UploadAction::Report(p) => UploadActionView::Report(*p),
            UploadAction::Send(len) => UploadActionView::Send(*len),
            UploadAction::AwaitReply(stop) => UploadActionView::AwaitReply(stop@),
            UploadAction::Done(r) => UploadActionView::Done(usb::upload_view(*r)),
        }
    }
}

/// How a step of an upload went.
#[derive(Debug)]
pub enum UploadEvent {
    /// The source has ended.
    Ended,
    /// The source has failed.
    Failed(IoFault),
    /// The source yielded a chunk of this many bytes.
    Chunk(u64),
    /// The progress callback's verdict; without a callback the upload goes on.
    Verdict { keep_going: bool },
    /// Whether the worker took the chunk.
    Sent { accepted: bool },
    /// The worker's verdict; `None` means that it is gone.
    Replied(Option<UploadReply>),
}

/// An [`UploadEvent`] with its parts as views.
pub enum UploadEventView {
    Ended,
    Failed { kind: IoErrorKind, message: Seq<char> },
    Chunk(u64),
    Verdict { keep_going: bool },
    Sent { accepted: bool },
    Replied(Option<UploadReplyView>),
}

impl View for UploadEvent {
    type V = UploadEventView;

    open spec fn view(&self) -> UploadEventView {
        match self {
            UploadEvent::Ended => UploadEventView::Ended,
            UploadEvent::Failed(fault) => UploadEventView::Failed {
                kind: fault.kind,
                message: fault.message@,
            },
            UploadEvent::Chunk(len) => UploadEventView::Chunk(*len),
            UploadEvent::Verdict { keep_going } => UploadEventView::Verdict {
                keep_going: *keep_going,
            },
            UploadEvent::Sent { accepted } => UploadEventView::Sent { accepted: *accepted },
            UploadEvent::Replied(reply) => UploadEventView::Replied(
                match reply {
                    Some(reply) => Some(reply@),
                    None => None,
                },
            ),
        }
    }
}

/// How an upload ends, given why the source stopped and what the worker replied; `None` means that the
/// worker is gone. A device error always wins. A committed object is a success, whatever ended the
/// source. An object closed short is reported with the reason the source stopped. The device commits an
/// object whole or not at all, so no failure leaves a partial object, whatever handle the worker saw.
pub open spec fn wpd_outcome(stop: UploadStopView, reply: Option<UploadReplyView>) -> Result<
    ObjectHandle,
    UploadErrorView,
> {
    match reply {
        None => Err(UploadErrorView { source: ErrorView::Disconnected, partial: None }),
        Some(UploadReplyView::Error(source)) => Err(UploadErrorView { source, partial: None }),
        Some(UploadReplyView::Committed(handle)) => Ok(handle),
        Some(UploadReplyView::ShortClosed { .. }) => Err(
            UploadErrorView {
                source: match stop {
                    UploadStopView::Cancelled => ErrorView::Cancelled,
                    UploadStopView::Source { message, .. } => ErrorView::Io { message },
                    UploadStopView::Clean => ErrorView::InvalidData {
                        message: "upload stream ended before the declared size was reached"@,
                    },
                },
                partial: None,
            },
        ),
    }
}

/// Reconcile why the source stopped with the worker's verdict.
pub fn reconcile(stop: UploadStop, reply: Option<UploadReply>) -> (r: Result<
    ObjectHandle,
    UploadError,
>)
    ensures
        usb::upload_view(r) == wpd_outcome(
            stop@,
            match reply {
                Some(reply) => Some(reply@),
                None => None,
            },
        ),
{
    match reply {
        None => Err(UploadError { source: Error::Disconnected, partial: None }),
        Some(UploadReply::Error(source)) => Err(UploadError { source, partial: None }),
        Some(UploadReply::Committed(handle)) => Ok(handle),
        Some(UploadReply::ShortClosed { .. }) => {
            let source = match stop {
                UploadStop::Cancelled => Error::Cancelled,
                UploadStop::Source(fault) => Error::Io { message: fault.message },
                UploadStop::Clean => Error::invalid_data(
                    "upload stream ended before the declared size was reached",
                ),
            };
            Err(UploadError { source, partial: None })
        },
    }
}

/// An upload being pumped to the worker.
#[derive(Debug)]
pub struct WpdUpload {
    /// The declared size.
    pub total: u64,
    /// The bytes the worker has taken.
    pub forwarded: u64,
    /// The length of the chunk at hand.
    pub chunk: u64,
    pub action: UploadAction,
}

/// A [`WpdUpload`] with its parts as views.
pub struct WpdUploadView {
    pub total: u64,
    pub forwarded: u64,
    pub chunk: u64,
    pub action: UploadActionView,
}

impl View for WpdUpload {
    type V = WpdUploadView;

    open spec fn view(&self) -> WpdUploadView {
        WpdUploadView {
            total: self.total,
            forwarded: self.forwarded,
            chunk: self.chunk,
            action: self.action@,
        }
    }
}

impl WpdUploadView {
    /// The chunk at hand is the one that is reported or sent, and it can be counted.
    pub open spec fn wf(self) -> bool {
        match self.action {
            UploadActionView::Report(p) => p == (Progress {
                bytes_transferred: (self.forwarded + self.chunk) as u64,
                total_bytes: Some(self.total),
            }) && self.forwarded + self.chunk <= u64::MAX,
            UploadActionView::Send(len) => len == self.chunk && self.forwarded + self.chunk
                <= u64::MAX,
            _ => true,
        }
    }
}

/// Whether an event answers an action.
pub open spec fn answers(action: UploadActionView, event: UploadEventView) -> bool {
    match action {
        UploadActionView::NextItem => event is Ended || event is Failed || event is Chunk,
        UploadActionView::Report(_) => event is Verdict,
        UploadActionView::Send(_) => event is Sent,
        UploadActionView::AwaitReply(_) => event is Replied,
        UploadActionView::Done(_) => false,
    }
}

/// The upload after an event.
pub open spec fn upload_step(u: WpdUploadView, event: UploadEventView) -> WpdUploadView {
    match event {
        UploadEventView::Ended => WpdUploadView {
            action: UploadActionView::AwaitReply(UploadStopView::Clean),
            ..u
        },
        UploadEventView::Failed { kind, message } => WpdUploadView {
            action: UploadActionView::AwaitReply(UploadStopView::Source { kind, message }),
            ..u
        },
        UploadEventView::Chunk(len) => WpdUploadView {
            chunk: len,
            action: UploadActionView::Report(
                Progress {
                    bytes_transferred: (u.forwarded + len) as u64,
                    total_bytes: Some(u.total),
                },
            ),
            ..u
        },
        UploadEventView::Verdict { keep_going } => WpdUploadView {
            action: if keep_going {
                UploadActionView::Send(u.chunk)
            } else {
                UploadActionView::AwaitReply(UploadStopView::Cancelled)
            },
            ..u
        },
        UploadEventView::Sent { accepted } => if accepted {
            WpdUploadView {
                forwarded: (u.forwarded + u.chunk) as u64,
                action: UploadActionView::NextItem,
                ..u
            }
        } else {
            WpdUploadView { action: UploadActionView::AwaitReply(UploadStopView::Clean), ..u }
        },
        UploadEventView::Replied(reply) => WpdUploadView {
            action: match u.action {
                UploadActionView::AwaitReply(stop) => UploadActionView::Done(
                    wpd_outcome(stop, reply),
                ),
                other => other,
            },
            ..u
        },
    }
}

/// An upload of `total` declared bytes, as it starts.
pub open spec fn fresh_upload(total: u64) -> WpdUploadView {
    WpdUploadView { total, forwarded: 0, chunk: 0, action: UploadActionView::NextItem }
}

impl WpdUpload {
    /// An upload of `total` declared bytes.
    pub fn new(total: u64) -> (r: Self)
        ensures
            r@ == fresh_upload(total),
            r@.wf(),
    {
        WpdUpload { total, forwarded: 0, chunk: 0, action: UploadAction::NextItem }
    }

    /// Take how the action went, and settle the next one. What has been read must stay countable.
    ///
    /// A worker that no longer takes chunks has failed or has finished early; its reply tells which, so
    /// the source stops without a reason of its own.
    pub fn step(&mut self, event: UploadEvent)
        requires
            old(self)@.wf(),
            answers(old(self)@.action, event@),
            event matches UploadEvent::Chunk(len) ==> old(self).forwarded + len <= u64::MAX,
        ensures
            final(self)@ == upload_step(old(self)@, event@),
            final(self)@.wf(),
    {
        match event {
            UploadEvent::Ended => {
                self.action = UploadAction::AwaitReply(UploadStop::Clean);
            },
            UploadEvent::Failed(fault) => {
                self.action = UploadAction::AwaitReply(UploadStop::Source(fault));
            },
            UploadEvent::Chunk(len) => {
                self.chunk = len;
                self.action = UploadAction::Report(
                    Progress {
                        bytes_transferred: self.forwarded + len,
                        total_bytes: Some(self.total),
                    },
                );
            },
            UploadEvent::Verdict { keep_going } => {
                self.action = if keep_going {
                    UploadAction::Send(self.chunk)
                } else {
                    UploadAction::AwaitReply(UploadStop::Cancelled)
                };
            },
            UploadEvent::Sent { accepted } => {
                if accepted {
                    self.forwarded = self.forwarded + self.chunk;
                    self.action = UploadAction::NextItem;
                } else {
                    self.action = UploadAction::AwaitReply(UploadStop::Clean);
                }
            },
            UploadEvent::Replied(reply) => {
                let mut action = UploadAction::NextItem;
                std::mem::swap(&mut action, &mut self.action);
                self.action = match action {
                    UploadAction::AwaitReply(stop) => UploadAction::Done(reconcile(stop, reply)),
                    other => other,
                };
            },
        }
    }

    /// What the upload came to, once it is over. Before that there is nothing to say.
    pub fn finish(self) -> (r: Option<Result<ObjectHandle, UploadError>>)
        ensures
            match self@.action {
                UploadActionView::Done(outcome) => r matches Some(x) && usb::upload_view(x)
                    == outcome,
                _ => r is None,
            },
    {
        match self.action {
            UploadAction::Done(r) => Some(r),
            _ => None,
        }
    }
}

/// The upload after events, one after another.
pub open spec fn upload_run(total: u64, events: Seq<UploadEventView>) -> WpdUploadView
    decreases events.len(),
{
    if events.len() == 0 {
        fresh_upload(total)
    } else {
        upload_step(upload_run(total, events.drop_last()), events.last())
    }
}

/// Whether events, one after another, each answer the action before them, and what was read stays
/// countable.
pub open spec fn is_upload_run(total: u64, events: Seq<UploadEventView>) -> bool
    decreases events.len(),
{
    events.len() == 0 || {
        let before = upload_run(total, events.drop_last());
        &&& is_upload_run(total, events.drop_last())
        &&& answers(before.action, events.last())
        &&& events.last() matches UploadEventView::Chunk(len) ==> before.forwarded + len <= u64::MAX
    }
}

/// The lengths of the chunks that the worker took, in order.
pub open spec fn taken_chunks(events: Seq<UploadEventView>) -> Seq<u64>
    decreases events.len(),
{
    if events.len() == 0 {
        Seq::empty()
    } else {
        let before = taken_chunks(events.drop_last());
        if events.last() == (UploadEventView::Sent { accepted: true }) {
            before.push(last_chunk(events))
        } else {
            before
        }
    }
}

/// The length of the last chunk that the source yielded.
pub open spec fn last_chunk(events: Seq<UploadEventView>) -> u64
    decreases events.len(),
{
    if events.len() == 0 {
        0
    } else {
        match events.last() {
            UploadEventView::Chunk(len) => len,
            _ => last_chunk(events.drop_last()),
        }
    }
}

/// The sum of some lengths.
pub open spec fn sum(lens: Seq<u64>) -> int
    decreases lens.len(),
{
    if lens.len() == 0 {
        0
    } else {
        sum(lens.drop_last()) + lens.last()
    }
}

/// What is counted is what the worker took: the bytes forwarded are those of the chunks it accepted, the
/// chunk at hand is the last one the source yielded, and a chunk is sent only right after the progress
/// callback let it pass.
pub proof fn law_only_approved_chunks_are_sent(total: u64, events: Seq<UploadEventView>)
    requires
        is_upload_run(total, events),
    ensures
        ({
            let u = upload_run(total, events);
            &&& u.wf()
            &&& u.total == total
            &&& u.forwarded == sum(taken_chunks(events))
            &&& u.chunk == last_chunk(events)
            &&& u.action is Send ==> events.len() > 0 && events.last() == (
            UploadEventView::Verdict { keep_going: true }) && u.action == UploadActionView::Send(
                last_chunk(events),
            )
        }),
    decreases events.len(),
{
    if events.len() > 0 {
        law_only_approved_chunks_are_sent(total, events.drop_last());
        let before = taken_chunks(events.drop_last());
        if events.last() == (UploadEventView::Sent { accepted: true }) {
            assert(before.push(last_chunk(events)).drop_last() =~= before);
        }
    }
}

/// An upload succeeds exactly when the device committed it, and no upload leaves a partial object: the
/// device commits whole objects. The worker's verdict is the last word of every upload.
pub proof fn law_commit_decides(total: u64, events: Seq<UploadEventView>)
    requires
        is_upload_run(total, events),
    ensures
        upload_run(total, events).action matches UploadActionView::Done(outcome) ==> {
            &&& events.len() > 0
            &&& events.last() matches UploadEventView::Replied(reply) && {
                &&& outcome is Ok <==> (reply is Some && reply->0 is Committed)
                &&& outcome matches Err(e) ==> e.partial is None
            }
        },
{
    if events.len() > 0 {
        law_only_approved_chunks_are_sent(total, events);
    }
}

/// The next event of the device: an event channel that has closed means that the session has ended.
pub fn delivered_event<T>(event: Option<T>) -> (r: Result<T, Error>)
    ensures
        crate::mtp::error::outcome(r) == (match event {
            Some(event) => Ok(event),
            None => Err(ErrorView::Disconnected),
        }),
{
    match event {
        Some(event) => Ok(event),
        None => Err(Error::Disconnected),
    }
}

} // verus!
