//! The edge of what is proved: calls into `nusb` and the standard library whose results are
//! taken on trust.

use vstd::prelude::*;

use crate::error::{IoErrorKind, UsbErrorKind};
use nusb::Error as NusbError;
use std::io::Error as StdIoError;
use std::time::Duration;

verus! {

/// `nusb`'s error type, carried without a look inside.
#[verifier::external_type_specification]
#[verifier::external_body]
pub struct ExNusbError(NusbError);

/// The category that `nusb::Error::kind` reports for an error.
pub uninterp spec fn nusb_error_kind(e: NusbError) -> UsbErrorKind;

/// Calls `nusb::Error::kind`, which reads the category stored in the error, and carries it over
/// to [`UsbErrorKind`] variant by variant. The claim is that an error always has the same category.
#[verifier::external_body]
pub(crate) fn usb_error_kind(e: &NusbError) -> (r: UsbErrorKind)
    ensures
        r == nusb_error_kind(*e),
{
    match e.kind() {
        nusb::ErrorKind::Disconnected => UsbErrorKind::Disconnected,
        nusb::ErrorKind::Busy => UsbErrorKind::Busy,
        nusb::ErrorKind::PermissionDenied => UsbErrorKind::PermissionDenied,
        nusb::ErrorKind::NotFound => UsbErrorKind::NotFound,
        nusb::ErrorKind::Unsupported => UsbErrorKind::Unsupported,
        _ => UsbErrorKind::Other,
    }
}

/// Calls `nusb::Error`'s `Display`: the message stored in the error, followed by the operating system's
/// error code where there is one. Nothing is claimed of the result, since each platform formats that code
/// in its own way.
#[verifier::external_body]
pub(crate) fn usb_error_text(e: &NusbError) -> (r: String) {
    e.to_string()
}

/// Whether a call of `nusb::Error`'s `Display` on this error can give this text. That two calls agree is
/// not claimed.
pub closed spec fn reports_usb_text(e: NusbError, message: String) -> bool {
    call_ensures(usb_error_text, (&e,), message)
}

/// Read the category and the text of a USB error.
pub(crate) fn read_usb_error(e: &NusbError) -> (r: (UsbErrorKind, String))
    ensures
        r.0 == nusb_error_kind(*e),
        reports_usb_text(*e, r.1),
{
    let kind = usb_error_kind(e);
    let message = usb_error_text(e);
    (kind, message)
}

/// The standard I/O error type, carried without a look inside.
#[verifier::external_type_specification]
#[verifier::external_body]
pub struct ExIoError(StdIoError);

/// Calls `std::io::Error::kind`. Nothing is claimed of the result: for an error that holds an
/// operating-system code, the kind depends on the platform.
#[verifier::external_body]
pub(crate) fn io_error_kind(e: &StdIoError) -> (r: IoErrorKind) {
    match e.kind() {
        std::io::ErrorKind::PermissionDenied => IoErrorKind::PermissionDenied,
        std::io::ErrorKind::Interrupted => IoErrorKind::Interrupted,
        std::io::ErrorKind::NotFound => IoErrorKind::NotFound,
        _ => IoErrorKind::Other,
    }
}

/// Calls `std::io::Error`'s `Display`. Nothing is claimed of the result, since it may hold the
/// operating system's own text.
#[verifier::external_body]
pub(crate) fn io_error_text(e: &StdIoError) -> (r: String) {
    e.to_string()
}

/// Whether a call of `std::io::Error::kind` on this error can give this kind, carried over to
/// [`IoErrorKind`]. That two calls agree is not claimed.
pub closed spec fn reports_kind(e: StdIoError, kind: IoErrorKind) -> bool {
    call_ensures(io_error_kind, (&e,), kind)
}

/// Whether a call of `std::io::Error`'s `Display` on this error can give this text. That two calls
/// agree is not claimed.
pub closed spec fn reports_text(e: StdIoError, message: String) -> bool {
    call_ensures(io_error_text, (&e,), message)
}

/// Read the kind and the text of an I/O error.
pub(crate) fn read_io_error(e: &StdIoError) -> (r: (IoErrorKind, String))
    ensures
        reports_kind(*e, r.0),
        reports_text(*e, r.1),
{
    let kind = io_error_kind(e);
    let message = io_error_text(e);
    (kind, message)
}

/// The text that `str::to_lowercase` gives for `s`.
pub uninterp spec fn lowercase(s: Seq<char>) -> Seq<char>;

/// Calls `str::to_lowercase`, the Unicode lower-case equivalent of a text. The claim is that the result
/// depends on the text alone.
#[verifier::external_body]
pub(crate) fn to_lowercase(s: &str) -> (r: String)
    ensures
        r@ == lowercase(s@),
{
    s.to_lowercase()
}

/// The text that formatting `s` with `{:?}` gives: in double quotes, with escapes.
pub uninterp spec fn quoted(s: Seq<char>) -> Seq<char>;

/// Formats a text with `{:?}`, that is, calls `str`'s `Debug`. The claim is that the result depends on the
/// text alone.
#[verifier::external_body]
pub(crate) fn quote(s: &str) -> (r: String)
    ensures
        r@ == quoted(s@),
{
    format!("{:?}", s)
}

/// The duration of `n` whole milliseconds.
pub uninterp spec fn milliseconds(n: u64) -> Duration;

/// Calls `Duration::from_millis`. The claim is that the result depends on the number alone.
#[verifier::external_body]
pub(crate) fn from_millis(n: u64) -> (r: Duration)
    ensures
        r == milliseconds(n),
{
    Duration::from_millis(n)
}

} // verus!
