//! What the rest of the library relies on in numbers, texts, codes and low-level errors.

use vstd::prelude::*;

use crate::error;
use crate::error::{IoErrorKind, PtpError, PtpErrorView, UsbErrorKind};
use crate::mtp::error::{Error, ErrorView};
use crate::outside;
use crate::ptp::{OperationCode, ResponseCode};
use crate::text;
use crate::wire;

verus! {

/// Numbers on the wire are little-endian: the byte that comes first counts least.
pub proof fn law_the_first_byte_counts_least(data: &[u8], at: usize, short: u16, long: u32)
    requires
        at + 4 <= data@.len(),
        call_ensures(wire::unpack_u16, (data, at), short),
        call_ensures(wire::unpack_u32, (data, at), long),
    ensures
        short == data@[at as int] + 256 * data@[at + 1],
        long == data@[at as int] + 256 * data@[at + 1] + 65536 * data@[at + 2] + 16777216 * data@[at + 3],
{
}

/// Numbers are written to the wire as they are read from it, wherever they stand.
pub proof fn law_written_numbers_are_read_in_place(before: Seq<u8>, short: u16, long: u32, after: Seq<u8>)
    ensures
        wire::u16_bytes(short).len() == 2,
        wire::u32_bytes(long).len() == 4,
        wire::u16_at(before + wire::u16_bytes(short) + after, before.len() as int) == short,
        wire::u32_at(before + wire::u32_bytes(long) + after, before.len() as int) == long,
        wire::u16_bytes(short)[0] + 256 * wire::u16_bytes(short)[1] == short,
        wire::u32_bytes(long)[0] + 256 * wire::u32_bytes(long)[1] + 65536 * wire::u32_bytes(long)[2]
            + 16777216 * wire::u32_bytes(long)[3] == long,
{
    let at = before.len() as int;
    let a = before + wire::u16_bytes(short) + after;
    assert(a[at] == wire::u16_bytes(short)[0] && a[at + 1] == wire::u16_bytes(short)[1]);
    let b = before + wire::u32_bytes(long) + after;
    assert(b[at] == wire::u32_bytes(long)[0] && b[at + 1] == wire::u32_bytes(long)[1]);
    assert(b[at + 2] == wire::u32_bytes(long)[2] && b[at + 3] == wire::u32_bytes(long)[3]);
}

/// Digits are the usual ones: `0` to `9`, and then `a` to `f`, which are read in either case.
pub proof fn law_digits_are_the_usual_ones(d: nat)
    requires
        d < 16,
    ensures
        d < 10 ==> text::digit_char(d) as nat == 48 + d,
        d >= 10 ==> text::digit_char(d) as nat == 87 + d,
        text::digit_value(text::digit_char(d)) == Some(d),
        d >= 10 ==> text::digit_value((55 + d) as char) == Some(d),
        d < 10 ==> text::digit_value((48 + d) as char) == Some(d),
{
}

/// A number is written with the digits of its base, most significant first and without a leading zero.
pub proof fn law_a_number_is_written_in_its_base(n: nat, radix: nat)
    requires
        2 <= radix <= 16,
    ensures
        n < radix ==> text::numeral(n, radix) == seq![text::digit_char(n)],
        n >= radix ==> text::numeral(n, radix).last() == text::digit_char(n % radix) && text::numeral(
            n,
            radix,
        ).drop_last() == text::numeral(n / radix, radix),
        n > 0 ==> text::numeral(n, radix)[0] != '0',
    decreases n,
{
    if n >= radix {
        assert(text::numeral(n, radix).drop_last() =~= text::numeral(n / radix, radix));
        assert(0 < n / radix < n) by (nonlinear_arith)
            requires
                2 <= radix <= n,
        ;
        law_a_number_is_written_in_its_base(n / radix, radix);
        text::lemma_numeral_digits(n / radix, radix);
        assert(text::numeral(n, radix)[0] == text::numeral(n / radix, radix)[0]);
    } else if n > 0 {
        law_digits_are_the_usual_ones(n);
    }
}

/// A count and a decimal number are written as they are, and read back as they were.
pub proof fn law_decimals_read_back(n: u64, count: usize, written: String, counted: String)
    requires
        call_ensures(text::write_decimal, (n,), written),
        call_ensures(text::write_count, (count,), counted),
    ensures
        text::unsigned_value(written@, 10) == Some(n as nat),
        text::unsigned_value(counted@, 10) == Some(count as nat),
{
    text::law_numeral_reads_back(n as nat, 10);
    text::law_numeral_reads_back(count as nat, 10);
}

/// A number is read exactly where every character is a digit of its base, behind an optional plus sign, and where
/// it is no greater than allowed.
pub proof fn law_only_digits_are_a_number(s: &[char], radix: u64, max: u64, r: Option<u64>)
    requires
        2 <= radix <= 16,
        call_ensures(text::parse_unsigned, (s, radix, max), r),
    ensures
        s@.len() == 0 ==> r is None,
        r matches Some(n) ==> n <= max,
        r is Some ==> forall|i: int|
            0 <= i < s@.len() ==> text::is_digit(#[trigger] s@[i], radix as nat) || (i == 0 && s@[0] == '+'),
{
    if r is Some {
        let digits = text::unsigned_digits(s@);
        assert forall|i: int| 0 <= i < s@.len() implies text::is_digit(#[trigger] s@[i], radix as nat) || (i == 0
            && s@[0] == '+') by {
            if s@[0] == '+' {
                if i > 0 {
                    assert(text::is_digit(digits[i - 1], radix as nat));
                }
            } else {
                assert(text::is_digit(digits[i], radix as nat));
            }
        }
    }
}

/// Padding comes in front and only up to the width: the text itself stands at the end, whole.
pub proof fn law_padding_comes_in_front(body: Seq<char>, pad: char, width: nat)
    ensures
        ({
            let r = text::padded(body, pad, width);
            &&& r.len() == (if body.len() < width {
                width
            } else {
                body.len()
            })
            &&& r.skip(r.len() - body.len()) == body
            &&& forall|i: int| 0 <= i < r.len() - body.len() ==> #[trigger] r[i] == pad
        }),
{
    let r = text::padded(body, pad, width);
    assert(r.skip(r.len() - body.len()) =~= body);
}

/// Texts are joined in their order, with one separator between each two.
pub proof fn law_joining_keeps_order(parts: Seq<Seq<char>>, separator: Seq<char>, more: Seq<char>)
    ensures
        text::joined(Seq::empty(), separator) == Seq::<char>::empty(),
        parts.len() == 0 ==> text::joined(parts.push(more), separator) == more,
        parts.len() > 0 ==> text::joined(parts.push(more), separator) == text::joined(parts, separator)
            + separator + more,
{
    assert(parts.push(more).drop_last() =~= parts);
}

/// A text is found in another exactly where its characters stand there one after another.
pub proof fn law_a_text_is_found_where_it_stands(s: &str, needle: &str, found: bool, at_end: bool, same: bool)
    requires
        call_ensures(text::contains, (s, needle), found),
        call_ensures(text::ends_with, (s, needle), at_end),
        call_ensures(text::same, (s, needle), same),
    ensures
        found ==> exists|i: int|
            #![trigger s@.subrange(i, i + needle@.len())]
            0 <= i <= s@.len() - needle@.len() && s@.subrange(i, i + needle@.len()) == needle@,
        at_end <==> needle@.len() <= s@.len() && s@.skip(s@.len() - needle@.len()) == needle@,
        same <==> s@ == needle@,
        same ==> found && at_end,
        at_end ==> found,
{
    if found {
        let i = choose|i: int| #[trigger] text::stands_at(s@, needle@, i);
        assert(s@.subrange(i, i + needle@.len()) == needle@);
    }
    if needle@.len() <= s@.len() {
        let i = s@.len() - needle@.len();
        assert(s@.skip(i) =~= s@.subrange(i, s@.len() as int));
        if s@.skip(i) == needle@ {
            assert(text::stands_at(s@, needle@, i));
        }
    }
    if s@ == needle@ {
        assert(s@.skip(0) =~= s@);
    }
}

/// Turning to upper case changes the ASCII letters and nothing else.
pub proof fn law_upper_case_changes_only_letters(c: char)
    ensures
        'a' <= c <= 'z' ==> text::ascii_upper(c) as nat + 32 == c as nat,
        !('a' <= c <= 'z') ==> text::ascii_upper(c) == c,
{
}

/// The operations that the library tells apart, by their codes on the wire. No two codes name the same operation.
pub proof fn law_operations_go_by_their_codes(a: u16, b: u16, op_a: OperationCode, op_b: OperationCode)
    requires
        call_ensures(OperationCode::from_code, (a,), op_a),
        call_ensures(OperationCode::from_code, (b,), op_b),
    ensures
        op_a == op_b <==> a == b,
        op_a matches OperationCode::Unknown(n) ==> n == a,
        op_a is GetDeviceInfo <==> a == 0x1001,
        op_a is OpenSession <==> a == 0x1002,
        op_a is CloseSession <==> a == 0x1003,
        op_a is GetObjectHandles <==> a == 0x1007,
        op_a is GetObjectInfo <==> a == 0x1008,
        op_a is GetObject <==> a == 0x1009,
        op_a is DeleteObject <==> a == 0x100B,
        op_a is SendObjectInfo <==> a == 0x100C,
        op_a is SendObject <==> a == 0x100D,
        op_a is MoveObject <==> a == 0x1019,
        op_a is CopyObject <==> a == 0x101A,
        op_a is GetPartialObject <==> a == 0x101B,
        op_a is GetObjectPropValue <==> a == 0x9803,
        op_a is SetObjectPropValue <==> a == 0x9804,
        op_a is GetPartialObject64 <==> a == 0x95C1,
{
}

/// The host sends data with the three operations that write: an object's description, its bytes, or a property.
pub proof fn law_the_host_sends_data_to_write(code: u16, op: OperationCode, r: bool)
    requires
        call_ensures(OperationCode::from_code, (code,), op),
        call_ensures(OperationCode::expects_host_data, (op,), r),
    ensures
        r <==> code == 0x100C || code == 0x100D || code == 0x9804,
{
}

/// A low-level error is worth retrying exactly where the device was busy or the operation timed out, and only a
/// protocol error holds a response code: the one that the device gave.
pub proof fn law_what_a_low_level_error_tells(
    e: PtpError,
    retryable: bool,
    code: Option<ResponseCode>,
)
    requires
        call_ensures(PtpError::is_retryable, (&e,), retryable),
        call_ensures(PtpError::response_code, (&e,), code),
    ensures
        retryable <==> e is Timeout || code == Some(ResponseCode::DeviceBusy),
        e matches PtpError::Protocol { code: given, .. } ==> code == Some(given),
        !(e is Protocol) ==> code is None,
{
}

/// A fault says that another process holds the device exactly where its text, in lower case, says so in one of
/// three ways; only a USB or an I/O fault can.
pub proof fn law_exclusive_access_goes_by_the_text(e: PtpError, r: bool)
    requires
        call_ensures(PtpError::is_exclusive_access, (&e,), r),
    ensures
        r ==> e is Usb || e is Io,
        e matches PtpError::Usb(fault) ==> (r <==> names_exclusive_access(
            outside::lowercase(fault.message@),
        )),
        e matches PtpError::Io(fault) ==> (r <==> names_exclusive_access(
            outside::lowercase(fault.message@),
        )),
{
}

/// Whether a text holds one of the phrases of macOS and Linux for a device that is held, or both words of Windows'.
pub open spec fn names_exclusive_access(s: Seq<char>) -> bool {
    ||| text::contains_text(s, "exclusive access"@)
    ||| text::contains_text(s, "device or resource busy"@)
    ||| (text::contains_text(s, "access"@) && text::contains_text(s, "denied"@))
}

/// What a neutral error tells: each question is answered by one kind of error, and no other.
pub proof fn law_what_a_neutral_error_tells(
    e: Error,
    retryable: bool,
    disconnected: bool,
    exclusive: bool,
    denied: bool,
    stale: bool,
)
    requires
        call_ensures(Error::is_retryable, (&e,), retryable),
        call_ensures(Error::is_disconnected, (&e,), disconnected),
        call_ensures(Error::is_exclusive_access, (&e,), exclusive),
        call_ensures(Error::is_permission_denied, (&e,), denied),
        call_ensures(Error::is_stale_handle, (&e,), stale),
    ensures
        retryable <==> e is Busy || e is Timeout,
        disconnected <==> e is Disconnected,
        exclusive <==> e is ExclusiveAccess,
        denied <==> e is PermissionDenied,
        stale <==> e is StaleHandle,
{
}

/// What a device's answer means, by what a caller can do about it: list again, give up on a missing storage, ask for
/// access, make room, wait, do without, or open the device again. Any other answer is reported by its name.
pub proof fn law_what_an_answer_means(code: ResponseCode, r: Error)
    requires
        call_ensures(crate::mtp::error::map_response_code, (code,), r),
    ensures
        r is StaleHandle <==> code is InvalidObjectHandle || code is InvalidParentObject,
        r is NotFound <==> code is InvalidStorageId,
        r is AccessDenied <==> code is StoreReadOnly || code is ObjectWriteProtected || code is AccessDenied,
        r is StorageFull <==> code is StoreFull || code is ObjectTooLarge,
        r is Busy <==> code is DeviceBusy,
        r is Unsupported <==> code is OperationNotSupported || code is ParameterNotSupported,
        r is Cancelled <==> code is TransactionCancelled,
        r is Disconnected <==> code is SessionNotOpen,
        r is Other <==> code is GeneralError || code is InvalidParameter || code is SessionAlreadyOpen
            || code is Unknown,
{
}

/// Where each neutral error comes from: every kind of low-level failure keeps its meaning, and a text is passed on as
/// it is.
pub proof fn law_where_neutral_errors_come_from(e: PtpErrorView)
    ensures
        ({
            let r = crate::mtp::error::error_of_ptp(e);
            &&& r is ExclusiveAccess <==> e is Usb && e->Usb_category is Busy
            &&& r is PermissionDenied <==> (e is Usb && e->Usb_category is PermissionDenied) || (e is Io
                && e->Io_kind is PermissionDenied)
            &&& r is Disconnected <==> e is Disconnected || e is SessionNotOpen || (e is Usb && (
            e->Usb_category is Disconnected || e->Usb_category is NotFound)) || (e is Protocol
                && e->Protocol_code is SessionNotOpen)
            &&& r is Timeout <==> e is Timeout
            &&& r is NoDevice <==> e is NoDevice
            &&& r is DeviceReset <==> e is DeviceReset
            &&& r is Cancelled <==> e is Cancelled || (e is Protocol && e->Protocol_code is TransactionCancelled)
            &&& r is InvalidData <==> e is InvalidData
            &&& e matches PtpErrorView::InvalidData { message } ==> r == (ErrorView::InvalidData { message })
            &&& e matches PtpErrorView::Usb { category: UsbErrorKind::Other, message } ==> r == (ErrorView::Io {
                message,
            })
            &&& e matches PtpErrorView::Usb { category: UsbErrorKind::Unsupported, message } ==> r is Unsupported
            &&& e matches PtpErrorView::Io { kind, message } ==> (!(kind is PermissionDenied) ==> r == (
            ErrorView::Io { message }))
        }),
{
}

/// What is printed of an error ends with what the error itself says.
pub proof fn law_an_error_prints_its_own_words(message: Seq<char>, category: UsbErrorKind, kind: IoErrorKind)
    ensures
        message.is_suffix_of(error::ptp_error_text(PtpErrorView::Usb { category, message })),
        message.is_suffix_of(error::ptp_error_text(PtpErrorView::Io { kind, message })),
        message.is_suffix_of(error::ptp_error_text(PtpErrorView::InvalidData { message })),
        message.is_suffix_of(crate::mtp::error::error_text(ErrorView::InvalidData { message })),
        message.is_suffix_of(crate::mtp::error::error_text(ErrorView::Io { message })),
        message.is_suffix_of(crate::mtp::error::error_text(ErrorView::Other { detail: message })),
{
    lemma_ends("USB error: "@, message);
    lemma_ends("I/O error: "@, message);
    lemma_ends("Invalid data: "@, message);
    lemma_ends("invalid data: "@, message);
    lemma_ends("device error: "@, message);
}

proof fn lemma_ends(a: Seq<char>, b: Seq<char>)
    ensures
        b.is_suffix_of(a + b),
{
    assert((a + b).subrange((a + b).len() - b.len(), (a + b).len() as int) =~= b);
}

} // verus!
