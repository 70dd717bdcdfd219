//! What every backend shares: which backend to open, byte ranges, and listing errors.

pub mod usb;
pub mod wpd;

use vstd::prelude::*;

use crate::mtp::error::{Error, ErrorView};
use crate::mtp::types::ObjectHandle;

verus! {

/// Selects which backend to open.
///
/// `Auto` picks per platform: on Windows it prefers the WPD backend and falls back to USB only if no
/// WPD device is present; elsewhere it uses USB. `Usb` forces PTP over USB; `Wpd` forces Windows
/// WPD, and is unsupported off Windows.
#[derive(Debug, Clone, Copy, PartialEq, Eq, Structural)]
pub enum Backend {
    /// Platform default.
    Auto,
    /// Force PTP over USB.
    Usb,
    /// Force Windows WPD.
    Wpd,
}

impl Default for Backend {
    fn default() -> (r: Self)
        ensures
            r == Backend::Auto,
    {
        Backend::Auto
    }
}

/// Which bytes of an object a download should cover.
#[derive(Debug, Clone, Copy, PartialEq, Eq, Structural)]
pub enum ByteRange {
    /// The whole object, `[0, size)`.
    Full,
    /// From an offset to the end, `[offset, size)`.
    From(u64),
    /// A bounded slice `[offset, offset + len)`, clamped to the object size.
    Range {
        /// Start byte offset.
        offset: u64,
        /// Number of bytes.
        len: u64,
    },
}

/// The first byte of a range.
pub open spec fn range_start(range: ByteRange) -> u64 {
    match range {
        ByteRange::Full => 0,
        ByteRange::From(offset) => offset,
        ByteRange::Range { offset, len } => offset,
    }
}

/// How many bytes of an object of `size` bytes a range covers.
pub open spec fn range_len(range: ByteRange, size: u64) -> int {
    let rest = size - range_start(range);
    match range {
        ByteRange::Range { offset, len } => if len < rest {
            len as int
        } else {
            rest
        },
        _ => rest,
    }
}

impl ByteRange {
    /// The starting byte offset of this range.
    pub fn offset(self) -> (r: u64)
        ensures
            r == range_start(self),
    {
        match self {
            ByteRange::Full => 0,
            ByteRange::From(offset) => offset,
            ByteRange::Range { offset, .. } => offset,
        }
    }
}

/// Give up where the caller has asked to stop.
pub fn bail_if_cancelled(cancelled: bool) -> (r: Result<(), Error>)
    ensures
        crate::mtp::error::outcome(r) == (if cancelled {
            Err(ErrorView::Cancelled)
        } else {
            Ok(())
        }),
{
    if cancelled {
        Err(Error::Cancelled)
    } else {
        Ok(())
    }
}

/// Upload progress: how much has been handed over, and how much there is.
#[derive(Debug, Clone, Copy, PartialEq, Eq, Structural)]
pub struct Progress {
    pub bytes_transferred: u64,
    pub total_bytes: Option<u64>,
}

/// Whether a per-handle metadata error invalidates the whole listing, or can be reported while the
/// listing goes on.
#[derive(Debug, Clone, Copy, PartialEq, Eq, Structural)]
pub enum ListingErrorDisposition {
    Fatal,
    SkipObject,
}

/// An error met after a backend has enumerated an object's handle.
#[derive(Debug)]
pub struct BackendListingError {
    pub handle: ObjectHandle,
    pub source: Error,
    pub disposition: ListingErrorDisposition,
}

/// A [`BackendListingError`] with its failure as a view.
pub struct BackendListingErrorView {
    pub handle: ObjectHandle,
    pub source: ErrorView,
    pub disposition: ListingErrorDisposition,
}

impl View for BackendListingError {
    type V = BackendListingErrorView;

    open spec fn view(&self) -> BackendListingErrorView {
        BackendListingErrorView {
            handle: self.handle,
            source: self.source@,
            disposition: self.disposition,
        }
    }
}

impl BackendListingError {
    /// An error that ends the listing.
    pub fn fatal(handle: ObjectHandle, source: Error) -> (r: Self)
        ensures
            r@ == (BackendListingErrorView {
                handle,
                source: source@,
                disposition: ListingErrorDisposition::Fatal,
            }),
    {
        BackendListingError { handle, source, disposition: ListingErrorDisposition::Fatal }
    }

    /// An error that concerns one object only.
    pub fn skippable(handle: ObjectHandle, source: Error) -> (r: Self)
        ensures
            r@ == (BackendListingErrorView {
                handle,
                source: source@,
                disposition: ListingErrorDisposition::SkipObject,
            }),
    {
        BackendListingError { handle, source, disposition: ListingErrorDisposition::SkipObject }
    }
}

/// What a backend yields for one object of a listing.
pub type ListedObject = Result<crate::mtp::types::ObjectInfo, BackendListingError>;

/// What a backend yields for one object, as a view.
pub open spec fn listed_view(item: ListedObject) -> Result<
    crate::mtp::types::ObjectInfoView,
    BackendListingErrorView,
> {
    match item {
        Ok(info) => Ok(info@),
        Err(e) => Err(e@),
    }
}

} // verus!
