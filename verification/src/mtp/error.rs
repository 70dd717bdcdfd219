//! Backend-neutral error type.
//!
//! [`Error`] is free of any single backend's vocabulary. The USB backend maps device response codes
//! and USB faults into it; the Windows backend maps its own codes into the same variants. Callers
//! switch on these neutral cases instead of on a backend's protocol codes.

use vstd::prelude::*;

use crate::error::{IoErrorKind, PtpError, PtpUploadError, UsbErrorKind};
use crate::mtp::types::ObjectHandle;
use crate::ptp::ResponseCode;

verus! {

/// The error type of high-level operations.
#[derive(Debug)]
#[non_exhaustive]
pub enum Error {
    /// The object or storage was not found.
    NotFound,
    /// A handle that used to be valid no longer is, because the device re-keyed it: list the parent
    /// again, resolve again, and retry once.
    StaleHandle,
    /// The operation was refused: read-only storage, write-protected object, or denied access.
    AccessDenied,
    /// Another process holds the device exclusively.
    ExclusiveAccess,
    /// The operating system denied permission to open the device; nothing else holds it.
    PermissionDenied,
    /// The device does not support this operation.
    Unsupported,
    /// The device is temporarily busy; retrying may succeed.
    Busy,
    /// The target storage is full.
    StorageFull,
    /// The operation was cancelled.
    Cancelled,
    /// The device was disconnected or stopped responding.
    Disconnected,
    /// A transfer cancel wedged the device, so it was reset in software to recover. The session is
    /// gone, but the device is still present and can be opened again without a replug.
    DeviceReset,
    /// The operation timed out.
    Timeout,
    /// No matching device was found.
    NoDevice,
    /// Data received from the device couldn't be interpreted.
    InvalidData {
        /// What was invalid.
        message: String,
    },
    /// An I/O error not covered by a more specific variant.
    Io {
        /// The underlying message.
        message: String,
    },
    /// A backend error without a more specific mapping.
    Other {
        /// Backend-specific diagnostic text.
        detail: String,
    },
}

/// An [`Error`] with its texts as sequences of characters.
pub enum ErrorView {
    NotFound,
    StaleHandle,
    AccessDenied,
    ExclusiveAccess,
    PermissionDenied,
    Unsupported,
    Busy,
    StorageFull,
    Cancelled,
    Disconnected,
    DeviceReset,
    Timeout,
    NoDevice,
    InvalidData { message: Seq<char> },
    Io { message: Seq<char> },
    Other { detail: Seq<char> },
}

impl View for Error {
    type V = ErrorView;

    open spec fn view(&self) -> ErrorView {
        match self {
            Error::NotFound => ErrorView::NotFound,
            Error::StaleHandle => ErrorView::StaleHandle,
            Error::AccessDenied => ErrorView::AccessDenied,
            Error::ExclusiveAccess => ErrorView::ExclusiveAccess,
            Error::PermissionDenied => ErrorView::PermissionDenied,
            Error::Unsupported => ErrorView::Unsupported,
            Error::Busy => ErrorView::Busy,
            Error::StorageFull => ErrorView::StorageFull,
            Error::Cancelled => ErrorView::Cancelled,
            Error::Disconnected => ErrorView::Disconnected,
            Error::DeviceReset => ErrorView::DeviceReset,
            Error::Timeout => ErrorView::Timeout,
            Error::NoDevice => ErrorView::NoDevice,
            Error::InvalidData { message } => ErrorView::InvalidData { message: message@ },
            Error::Io { message } => ErrorView::Io { message: message@ },
            Error::Other { detail } => ErrorView::Other { detail: detail@ },
        }
    }
}

/// A result with its error as a view.
pub open spec fn outcome<T>(r: Result<T, Error>) -> Result<T, ErrorView> {
    match r {
        Ok(value) => Ok(value),
        Err(e) => Err(e@),
    }
}

/// What diagnostics print for an error.
pub open spec fn error_text(e: ErrorView) -> Seq<char> {
    match e {
        ErrorView::NotFound => "not found"@,
        ErrorView::StaleHandle => "stale object handle (device re-keyed it; re-list and retry)"@,
        ErrorView::AccessDenied => "access denied"@,
        ErrorView::ExclusiveAccess => "device is held exclusively by another process"@,
        ErrorView::PermissionDenied => "permission denied accessing the device"@,
        ErrorView::Unsupported => "operation not supported by this device"@,
        ErrorView::Busy => "device busy"@,
        ErrorView::StorageFull => "storage full"@,
        ErrorView::Cancelled => "operation cancelled"@,
        ErrorView::Disconnected => "device disconnected"@,
        ErrorView::DeviceReset
        => "device was reset to recover from a wedged cancel; reopen to continue"@,
        ErrorView::Timeout => "operation timed out"@,
        ErrorView::NoDevice => "no device found"@,
        ErrorView::InvalidData { message } => "invalid data: "@ + message,
        ErrorView::Io { message } => "I/O error: "@ + message,
        ErrorView::Other { detail } => "device error: "@ + detail,
    }
}

impl Error {
    /// Create an [`Error::InvalidData`] with a message.
    pub fn invalid_data(message: &str) -> (r: Self)
        ensures
            r@ == (ErrorView::InvalidData { message: message@ }),
    {
        Error::InvalidData { message: message.to_owned() }
    }

    /// Whether retrying the operation might succeed.
    pub fn is_retryable(&self) -> (r: bool)
        ensures
            r == (self@ is Busy || self@ is Timeout),
    {
        match self {
            Error::Busy | Error::Timeout => true,
            _ => false,
        }
    }

    /// Whether the device is gone and this handle is dead.
    ///
    /// False for [`Error::DeviceReset`]: there the device is still plugged in and can be opened
    /// again, and only the session died.
    pub fn is_disconnected(&self) -> (r: bool)
        ensures
            r == (self@ is Disconnected),
    {
        match self {
            Error::Disconnected => true,
            _ => false,
        }
    }

    /// Whether another process holds the device exclusively.
    pub fn is_exclusive_access(&self) -> (r: bool)
        ensures
            r == (self@ is ExclusiveAccess),
    {
        match self {
            Error::ExclusiveAccess => true,
            _ => false,
        }
    }

    /// Whether the operating system denied permission to access the device.
    pub fn is_permission_denied(&self) -> (r: bool)
        ensures
            r == (self@ is PermissionDenied),
    {
        match self {
            Error::PermissionDenied => true,
            _ => false,
        }
    }

    /// Whether the device re-keyed the handle, so that listing the parent again and retrying once
    /// is the right recovery.
    pub fn is_stale_handle(&self) -> (r: bool)
        ensures
            r == (self@ is StaleHandle),
    {
        match self {
            Error::StaleHandle => true,
            _ => false,
        }
    }

    /// What diagnostics print for this error.
    pub fn describe(&self) -> (r: String)
        ensures
            r@ == error_text(self@),
    {
        match self {
            Error::NotFound => "not found".to_owned(),
            Error::StaleHandle => {
                "stale object handle (device re-keyed it; re-list and retry)".to_owned()
            },
            Error::AccessDenied => "access denied".to_owned(),
            Error::ExclusiveAccess => "device is held exclusively by another process".to_owned(),
            Error::PermissionDenied => "permission denied accessing the device".to_owned(),
            Error::Unsupported => "operation not supported by this device".to_owned(),
            Error::Busy => "device busy".to_owned(),
            Error::StorageFull => "storage full".to_owned(),
            Error::Cancelled => "operation cancelled".to_owned(),
            Error::Disconnected => "device disconnected".to_owned(),
            Error::DeviceReset => {
                "device was reset to recover from a wedged cancel; reopen to continue".to_owned()
            },
            Error::Timeout => "operation timed out".to_owned(),
            Error::NoDevice => "no device found".to_owned(),
            Error::InvalidData { message } => {
                let mut s = "invalid data: ".to_owned();
                s.append(message.as_str());
                s
            },
            Error::Io { message } => {
                let mut s = "I/O error: ".to_owned();
                s.append(message.as_str());
                s
            },
            Error::Other { detail } => {
                let mut s = "device error: ".to_owned();
                s.append(detail.as_str());
                s
            },
        }
    }
}

/// The neutral meaning of a PTP response code.
pub open spec fn error_of_response(code: ResponseCode) -> ErrorView {
    match code {
        ResponseCode::InvalidObjectHandle | ResponseCode::InvalidParentObject => {
            ErrorView::StaleHandle
        },
        ResponseCode::InvalidStorageId => ErrorView::NotFound,
        ResponseCode::StoreReadOnly
        | ResponseCode::ObjectWriteProtected
        | ResponseCode::AccessDenied => ErrorView::AccessDenied,
        ResponseCode::StoreFull | ResponseCode::ObjectTooLarge => ErrorView::StorageFull,
        ResponseCode::DeviceBusy => ErrorView::Busy,
        ResponseCode::OperationNotSupported | ResponseCode::ParameterNotSupported => {
            ErrorView::Unsupported
        },
        ResponseCode::TransactionCancelled => ErrorView::Cancelled,
        ResponseCode::SessionNotOpen => ErrorView::Disconnected,
        ResponseCode::GeneralError
        | ResponseCode::InvalidParameter
        | ResponseCode::SessionAlreadyOpen
        | ResponseCode::Unknown(_) => {
            ErrorView::Other { detail: crate::ptp::response_name(code) }
        },
    }
}

/// The neutral meaning of a low-level error.
pub open spec fn error_of_ptp(e: crate::error::PtpErrorView) -> ErrorView {
    match e {
        crate::error::PtpErrorView::Protocol { code, operation } => error_of_response(code),
        crate::error::PtpErrorView::Usb { category, message } => match category {
            UsbErrorKind::Busy => ErrorView::ExclusiveAccess,
            UsbErrorKind::PermissionDenied => ErrorView::PermissionDenied,
            UsbErrorKind::Disconnected | UsbErrorKind::NotFound => ErrorView::Disconnected,
            UsbErrorKind::Unsupported => ErrorView::Unsupported,
            UsbErrorKind::Other => ErrorView::Io { message },
        },
        crate::error::PtpErrorView::Io { kind, message } => match kind {
            IoErrorKind::PermissionDenied => ErrorView::PermissionDenied,
            _ => ErrorView::Io { message },
        },
        crate::error::PtpErrorView::InvalidData { message } => ErrorView::InvalidData { message },
        crate::error::PtpErrorView::Timeout => ErrorView::Timeout,
        crate::error::PtpErrorView::Disconnected => ErrorView::Disconnected,
        crate::error::PtpErrorView::SessionNotOpen => ErrorView::Disconnected,
        crate::error::PtpErrorView::NoDevice => ErrorView::NoDevice,
        crate::error::PtpErrorView::Cancelled => ErrorView::Cancelled,
        crate::error::PtpErrorView::DeviceReset => ErrorView::DeviceReset,
    }
}

/// Map a PTP response code to a neutral [`Error`].
///
/// A handle or parent that used to be valid and no longer is counts as re-keyed, not as missing.
pub fn map_response_code(code: ResponseCode) -> (r: Error)
    ensures
        r@ == error_of_response(code),
{
    match code {
        ResponseCode::InvalidObjectHandle | ResponseCode::InvalidParentObject => Error::StaleHandle,
        ResponseCode::InvalidStorageId => Error::NotFound,
        ResponseCode::StoreReadOnly
        | ResponseCode::ObjectWriteProtected
        | ResponseCode::AccessDenied => Error::AccessDenied,
        ResponseCode::StoreFull | ResponseCode::ObjectTooLarge => Error::StorageFull,
        ResponseCode::DeviceBusy => Error::Busy,
        ResponseCode::OperationNotSupported | ResponseCode::ParameterNotSupported => {
            Error::Unsupported
        },
        ResponseCode::TransactionCancelled => Error::Cancelled,
        ResponseCode::SessionNotOpen => Error::Disconnected,
        other => Error::Other { detail: other.name() },
    }
}

impl From<PtpError> for Error {
    /// USB faults are classified by their typed category, not by their text: a busy device is held
    /// by another program, which is another matter than a missing permission.
    fn from(e: PtpError) -> (r: Self)
        ensures
            r@ == error_of_ptp(e@),
    {
        match e {
            PtpError::Protocol { code, .. } => map_response_code(code),
            PtpError::Usb(fault) => match fault.kind {
                UsbErrorKind::Busy => Error::ExclusiveAccess,
                UsbErrorKind::PermissionDenied => Error::PermissionDenied,
                UsbErrorKind::Disconnected | UsbErrorKind::NotFound => Error::Disconnected,
                UsbErrorKind::Unsupported => Error::Unsupported,
                UsbErrorKind::Other => Error::Io { message: fault.message },
            },
            PtpError::Io(fault) => match fault.kind {
                IoErrorKind::PermissionDenied => Error::PermissionDenied,
                _ => Error::Io { message: fault.message },
            },
            PtpError::InvalidData { message } => Error::InvalidData { message },
            PtpError::Timeout => Error::Timeout,
            PtpError::Disconnected => Error::Disconnected,
            PtpError::SessionNotOpen => Error::Disconnected,
            PtpError::NoDevice => Error::NoDevice,
            PtpError::Cancelled => Error::Cancelled,
            PtpError::DeviceReset => Error::DeviceReset,
        }
    }
}

impl vstd::std_specs::convert::FromSpecImpl<PtpError> for Error {
    /// The texts of an error are known by their characters only, so the result is described by its
    /// view, in the contract of `from` itself.
    open spec fn obeys_from_spec() -> bool {
        false
    }

    open spec fn from_spec(e: PtpError) -> Self {
        arbitrary()
    }
}

/// Error from an upload, carrying the handle of the object the device created before the data phase
/// failed.
///
/// If the data phase fails or is cancelled, the device may keep a partial object. This surfaces its
/// handle, so that the caller decides whether to delete it or to resume. Backends differ: the WPD backend
/// commits atomically, so `partial` is `None` there.
#[derive(Debug)]
pub struct UploadError {
    /// The underlying failure.
    pub source: Error,
    /// The handle of the partially written object the device may still hold, if any.
    pub partial: Option<ObjectHandle>,
}

/// An [`UploadError`] with its failure as a view.
pub struct UploadErrorView {
    pub source: ErrorView,
    pub partial: Option<ObjectHandle>,
}

impl View for UploadError {
    type V = UploadErrorView;

    open spec fn view(&self) -> UploadErrorView {
        UploadErrorView { source: self.source@, partial: self.partial }
    }
}

impl From<UploadError> for Error {
    fn from(e: UploadError) -> (r: Self) {
        e.source
    }
}

impl vstd::std_specs::convert::FromSpecImpl<UploadError> for Error {
    open spec fn obeys_from_spec() -> bool {
        true
    }

    open spec fn from_spec(e: UploadError) -> Self {
        e.source
    }
}

impl From<PtpUploadError> for UploadError {
    fn from(e: PtpUploadError) -> (r: Self)
        ensures
            r@ == (UploadErrorView {
                source: error_of_ptp(e.source@),
                partial: match e.partial {
                    Some(h) => Some(crate::mtp::types::neutral_handle(h)),
                    None => None,
                },
            }),
    {
        let partial = match e.partial {
            Some(h) => Some(ObjectHandle::from_ptp(h)),
            None => None,
        };
        UploadError { source: Error::from(e.source), partial }
    }
}

impl vstd::std_specs::convert::FromSpecImpl<PtpUploadError> for UploadError {
    /// Described by its view, in the contract of `from` itself.
    open spec fn obeys_from_spec() -> bool {
        false
    }

    open spec fn from_spec(e: PtpUploadError) -> Self {
        arbitrary()
    }
}

/// A handle the device re-keyed is never reported as missing: the one low-level answer that reads as
/// "not found" is an invalid storage ID.
pub proof fn law_only_a_storage_is_not_found(e: crate::error::PtpErrorView)
    ensures
        error_of_ptp(e) is NotFound <==> e is Protocol && e->Protocol_code is InvalidStorageId,
        e is Protocol && (e->Protocol_code is InvalidObjectHandle
            || e->Protocol_code is InvalidParentObject) ==> error_of_ptp(e) is StaleHandle,
{
}

/// A device that was reset to recover it keeps that report through the neutral mapping, and no other
/// low-level error turns into it.
pub proof fn law_device_reset_is_kept(e: crate::error::PtpErrorView)
    ensures
        error_of_ptp(e) is DeviceReset <==> e is DeviceReset,
        e is DeviceReset ==> !(error_of_ptp(e) is Disconnected),
{
}

/// A low-level error worth retrying is worth retrying in its neutral form, and the other way round.
pub proof fn law_retryable_is_kept(e: crate::error::PtpErrorView)
    ensures
        (error_of_ptp(e) is Busy || error_of_ptp(e) is Timeout) <==> (e is Timeout || (e is Protocol
            && e->Protocol_code is DeviceBusy)),
{
}

} // verus!
