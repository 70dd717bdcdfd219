//! The low-level error type: what the PTP session and the USB transport report.

use vstd::prelude::*;

use crate::outside;
use crate::ptp;
use crate::ptp::{OperationCode, PtpHandle, ResponseCode};
use crate::text;

verus! {

/// The category of a USB fault.
#[derive(Debug, Clone, Copy, PartialEq, Eq, Structural)]
pub enum UsbErrorKind {
    Disconnected,
    Busy,
    PermissionDenied,
    NotFound,
    Unsupported,
    Other,
}

/// A USB fault: its category and its text.
#[derive(Debug)]
pub struct UsbFault {
    pub kind: UsbErrorKind,
    pub message: String,
}

/// The I/O error kinds the library tells apart.
#[derive(Debug, Clone, Copy, PartialEq, Eq, Structural)]
pub enum IoErrorKind {
    PermissionDenied,
    Interrupted,
    NotFound,
    Other,
}

/// An I/O fault: its kind and its text.
#[derive(Debug)]
pub struct IoFault {
    pub kind: IoErrorKind,
    pub message: String,
}

/// The main error type of PTP operations.
#[derive(Debug)]
pub enum PtpError {
    /// USB communication error.
    Usb(UsbFault),
    /// Protocol-level error from the device.
    Protocol {
        /// The response code returned by the device.
        code: ResponseCode,
        /// The operation that triggered the error.
        operation: OperationCode,
    },
    /// Invalid data received from the device.
    InvalidData {
        /// Description of what was invalid.
        message: String,
    },
    /// I/O error.
    Io(IoFault),
    /// Operation timed out.
    Timeout,
    /// Device was disconnected.
    Disconnected,
    /// Session not open.
    SessionNotOpen,
    /// No device found.
    NoDevice,
    /// Operation cancelled.
    Cancelled,
    /// A transfer cancel wedged the device, and the transport was reset to recover it. The PTP
    /// session is gone; reopen the device to continue.
    ///
    /// Not the only way a device wedges: some stop answering with no error at all, so operations
    /// want a timeout around them as well.
    DeviceReset,
}

/// A [`PtpError`] with its texts as sequences of characters.
pub enum PtpErrorView {
    Usb { category: UsbErrorKind, message: Seq<char> },
    Protocol { code: ResponseCode, operation: OperationCode },
    InvalidData { message: Seq<char> },
    Io { kind: IoErrorKind, message: Seq<char> },
    Timeout,
    Disconnected,
    SessionNotOpen,
    NoDevice,
    Cancelled,
    DeviceReset,
}

impl View for PtpError {
    type V = PtpErrorView;

    open spec fn view(&self) -> PtpErrorView {
        match self {
            PtpError::Usb(fault) => PtpErrorView::Usb { category: fault.kind, message: fault.message@ },
            PtpError::Protocol { code, operation } => PtpErrorView::Protocol {
                code: *code,
                operation: *operation,
            },
            PtpError::InvalidData { message } => PtpErrorView::InvalidData { message: message@ },
            PtpError::Io(fault) => PtpErrorView::Io { kind: fault.kind, message: fault.message@ },
            PtpError::Timeout => PtpErrorView::Timeout,
            PtpError::Disconnected => PtpErrorView::Disconnected,
            PtpError::SessionNotOpen => PtpErrorView::SessionNotOpen,
            PtpError::NoDevice => PtpErrorView::NoDevice,
            PtpError::Cancelled => PtpErrorView::Cancelled,
            PtpError::DeviceReset => PtpErrorView::DeviceReset,
        }
    }
}

/// Error from an upload, carrying the handle of the object the device created during
/// `SendObjectInfo` before the data phase failed.
///
/// PTP uploads are two-phase: `SendObjectInfo` creates the object on the device, then `SendObject`
/// streams the bytes. If the data phase fails or is cancelled, the device keeps a partial object.
/// This error surfaces its handle, so that the caller decides whether to delete it or to resume.
#[derive(Debug)]
pub struct PtpUploadError {
    /// The underlying failure.
    pub source: PtpError,
    /// The handle of the partially written object, if one was created.
    pub partial: Option<PtpHandle>,
}

impl From<PtpUploadError> for PtpError {
    fn from(e: PtpUploadError) -> (r: Self) {
        e.source
    }
}

impl vstd::std_specs::convert::FromSpecImpl<PtpUploadError> for PtpError {
    open spec fn obeys_from_spec() -> bool {
        true
    }

    open spec fn from_spec(e: PtpUploadError) -> Self {
        e.source
    }
}

/// What diagnostics print for an error.
pub open spec fn ptp_error_text(e: PtpErrorView) -> Seq<char> {
    match e {
        PtpErrorView::Usb { category, message } => "USB error: "@ + message,
        PtpErrorView::Protocol { code, operation } => "Protocol error: "@ + ptp::response_name(code)
            + " during "@ + ptp::operation_name(operation),
        PtpErrorView::InvalidData { message } => "Invalid data: "@ + message,
        PtpErrorView::Io { kind, message } => "I/O error: "@ + message,
        PtpErrorView::Timeout => "Operation timed out"@,
        PtpErrorView::Disconnected => "Device disconnected"@,
        PtpErrorView::SessionNotOpen => "Session not open"@,
        PtpErrorView::NoDevice => "No MTP device found"@,
        PtpErrorView::Cancelled => "Operation cancelled"@,
        PtpErrorView::DeviceReset
        => "device was reset to recover from a wedged cancel; reopen to continue"@,
    }
}

/// Whether a lower-cased fault text says that another process holds the device.
pub open spec fn says_exclusive(lowered: Seq<char>) -> bool {
    ||| text::contains_text(lowered, "exclusive access"@)
    ||| text::contains_text(lowered, "device or resource busy"@)
    ||| text::contains_text(lowered, "access"@) && text::contains_text(lowered, "denied"@)
}

/// Whether a lower-cased fault text says that another process holds the device: macOS reports an
/// open "for exclusive access", Linux a busy device or resource, Windows a denied access.
pub fn is_exclusive_message(lowered: &str) -> (r: bool)
    ensures
        r == says_exclusive(lowered@),
{
    text::contains(lowered, "exclusive access") || text::contains(
        lowered,
        "device or resource busy",
    ) || (text::contains(lowered, "access") && text::contains(lowered, "denied"))
}

impl PtpError {
    /// Create an invalid data error with a message.
    pub fn invalid_data(message: &str) -> (r: Self)
        ensures
            r@ == (PtpErrorView::InvalidData { message: message@ }),
    {
        PtpError::InvalidData { message: message.to_owned() }
    }

    /// Wrap an I/O error. The fault's kind and text are what calls on this very error gave. Which they
    /// are rests on the platform, so no more is said of them.
    pub fn from_io(e: &std::io::Error) -> (r: Self)
        ensures
            r matches PtpError::Io(fault) && outside::reports_kind(*e, fault.kind)
                && outside::reports_text(*e, fault.message),
    {
        let (kind, message) = outside::read_io_error(e);
        PtpError::Io(IoFault { kind, message })
    }

    /// Wrap a USB error. The fault's category is the one the error carries, and its text is what a call on
    /// this very error gave. Where the error holds a code of the operating system, the text formats it as
    /// the platform does, so no more is said of it.
    pub fn from_usb(e: &nusb::Error) -> (r: Self)
        ensures
            r matches PtpError::Usb(fault) && fault.kind == outside::nusb_error_kind(*e)
                && outside::reports_usb_text(*e, fault.message),
    {
        let (kind, message) = outside::read_usb_error(e);
        PtpError::Usb(UsbFault { kind, message })
    }

    /// Whether retrying might succeed: the device was busy, or the operation timed out.
    pub fn is_retryable(&self) -> (r: bool)
        ensures
            r == (self@ is Timeout || (self@ is Protocol && self@->Protocol_code is DeviceBusy)),
    {
        match self {
            PtpError::Protocol { code: ResponseCode::DeviceBusy, .. } | PtpError::Timeout => true,
            _ => false,
        }
    }

    /// The response code, if this is a protocol error.
    pub fn response_code(&self) -> (r: Option<ResponseCode>)
        ensures
            r == (match self@ {
                PtpErrorView::Protocol { code, operation } => Some(code),
                _ => None,
            }),
    {
        match self {
            PtpError::Protocol { code, .. } => Some(*code),
            _ => None,
        }
    }

    /// Whether this error says that another process has exclusive access to the device.
    ///
    /// This typically happens on macOS, when `ptpcamerad` has already claimed the interface.
    pub fn is_exclusive_access(&self) -> (r: bool)
        ensures
            r == (match self@ {
                PtpErrorView::Usb { category, message } => says_exclusive(outside::lowercase(message)),
                PtpErrorView::Io { kind, message } => says_exclusive(outside::lowercase(message)),
                _ => false,
            }),
    {
        match self {
            PtpError::Usb(fault) => {
                let lowered = outside::to_lowercase(fault.message.as_str());
                is_exclusive_message(lowered.as_str())
            },
            PtpError::Io(fault) => {
                let lowered = outside::to_lowercase(fault.message.as_str());
                is_exclusive_message(lowered.as_str())
            },
            _ => false,
        }
    }

    /// What diagnostics print for this error.
    pub fn describe(&self) -> (r: String)
        ensures
            r@ == ptp_error_text(self@),
    {
        match self {
            PtpError::Usb(fault) => {
                let mut s = "USB error: ".to_owned();
                s.append(fault.message.as_str());
                s
            },
            PtpError::Protocol { code, operation } => {
                let mut s = "Protocol error: ".to_owned();
                s.append(code.name().as_str());
                s.append(" during ");
                s.append(operation.name().as_str());
                s
            },
            PtpError::InvalidData { message } => {
                let mut s = "Invalid data: ".to_owned();
                s.append(message.as_str());
                s
            },
            PtpError::Io(fault) => {
                let mut s = "I/O error: ".to_owned();
                s.append(fault.message.as_str());
                s
            },
            PtpError::Timeout => "Operation timed out".to_owned(),
            PtpError::Disconnected => "Device disconnected".to_owned(),
            PtpError::SessionNotOpen => "Session not open".to_owned(),
            PtpError::NoDevice => "No MTP device found".to_owned(),
            PtpError::Cancelled => "Operation cancelled".to_owned(),
            PtpError::DeviceReset => {
                "device was reset to recover from a wedged cancel; reopen to continue".to_owned()
            },
        }
    }
}

} // verus!
