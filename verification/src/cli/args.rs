//! Command-line arguments and the parsing of their values.

use vstd::prelude::*;

use crate::text;

verus! {

/// The command line.
#[derive(Debug)]
pub struct Cli {
    /// Device serial number to open.
    pub device: Option<String>,
    /// USB location to open.
    pub location: Option<u64>,
    /// Storage index or storage ID.
    pub storage: Option<String>,
    /// Vendor and product IDs of non-standard MTP devices to consider.
    pub known: Vec<(u16, u16)>,
    /// USB transfer timeout in seconds.
    pub timeout: u64,
    /// Emit machine-readable output where supported.
    pub json: bool,
    /// Include lower-level error detail.
    pub verbose: bool,
    /// Print protocol diagnostics.
    pub trace: bool,
    /// What to do.
    pub command: Command,
}

/// What to do.
#[derive(Debug)]
pub enum Command {
    /// List visible MTP devices.
    Devices,
    /// Show device and storage information.
    Info,
    /// List objects in a remote folder.
    Ls(LsArgs),
    /// Upload a local file to a remote path.
    Put(PutArgs),
    /// Download a remote file or folder to a local path.
    Get(GetArgs),
    /// Create one remote folder.
    Mkdir(RemotePathArg),
    /// Delete a remote object.
    Rm(RmArgs),
    /// Rename a remote object in place.
    Rename(RenameArgs),
    /// Move a remote object to another folder or path.
    Mv(MoveArgs),
    /// Copy a remote object to another folder or path.
    Cp(CopyArgs),
    /// Diagnose device visibility and basic MTP access.
    Doctor(DoctorArgs),
    /// Last-resort reset of a stuck device's USB transport state.
    Reset,
}

/// Arguments of `doctor`.
#[derive(Debug)]
pub struct DoctorArgs {
    /// Also probe how the device takes a cancelled download.
    pub probe_cancel: bool,
    /// Probe with this remote file instead of searching for one.
    pub probe_path: Option<String>,
}

/// Arguments of `ls`.
#[derive(Debug)]
pub struct LsArgs {
    /// Remote folder path.
    pub remote_path: String,
    /// List descendants recursively.
    pub recursive: bool,
}

/// Arguments of `put`.
#[derive(Debug)]
pub struct PutArgs {
    /// Local file path.
    pub local_path: String,
    /// Remote destination path.
    pub remote_path: String,
    /// Replace a visible existing remote file.
    pub replace: bool,
    /// Download back and compare bytes after upload.
    pub verify: bool,
}

/// Arguments of `get`.
#[derive(Debug)]
pub struct GetArgs {
    /// Remote path.
    pub remote_path: String,
    /// Local destination path.
    pub local_path: String,
    /// Replace an existing local file.
    pub replace: bool,
}

/// A single remote path.
#[derive(Debug)]
pub struct RemotePathArg {
    /// Remote path.
    pub remote_path: String,
}

/// Arguments of `rm`.
#[derive(Debug)]
pub struct RmArgs {
    /// Remote path.
    pub remote_path: String,
    /// Confirm deletion.
    pub yes: bool,
}

/// Arguments of `rename`.
#[derive(Debug)]
pub struct RenameArgs {
    /// Remote object path.
    pub remote_path: String,
    /// New filename, not a path.
    pub new_name: String,
}

/// Arguments of `mv`.
#[derive(Debug)]
pub struct MoveArgs {
    /// Remote source path.
    pub source_path: String,
    /// Remote destination path or folder.
    pub destination_path: String,
    /// Replace a visible existing destination object.
    pub replace: bool,
}

/// Arguments of `cp`.
#[derive(Debug)]
pub struct CopyArgs {
    /// Remote source path.
    pub source_path: String,
    /// Remote destination path or folder.
    pub destination_path: String,
    /// Replace a visible existing destination object.
    pub replace: bool,
}

/// A parsed value, or the text of the complaint.
pub open spec fn parsed<T>(r: Result<T, String>) -> Result<T, Seq<char>> {
    match r {
        Ok(value) => Ok(value),
        Err(message) => Err(message@),
    }
}

/// Whether a text begins with `0x` or `0X`.
pub open spec fn has_hex_prefix(s: Seq<char>) -> bool {
    s.len() >= 2 && s[0] == '0' && (s[1] == 'x' || s[1] == 'X')
}

/// A text without its hexadecimal prefix, if it has one.
pub open spec fn without_hex_prefix(s: Seq<char>) -> Seq<char> {
    if has_hex_prefix(s) {
        s.skip(2)
    } else {
        s
    }
}

/// The number that `s` denotes in a base, if there is one and it is no larger than `max`.
pub open spec fn bounded_value(s: Seq<char>, radix: nat, max: nat) -> Option<nat> {
    match text::unsigned_value(s, radix) {
        Some(v) => if v <= max {
            Some(v)
        } else {
            None
        },
        None => None,
    }
}

/// The complaint about a value: what it should have been, and what it was.
pub open spec fn invalid_text(what: Seq<char>, input: Seq<char>) -> Seq<char> {
    what + input + "'"@
}

/// Write the complaint about a value.
fn write_invalid(what: &str, input: &str) -> (r: String)
    ensures
        r@ == invalid_text(what@, input@),
{
    let mut r = what.to_owned();
    r.append(input);
    r.append("'");
    r
}

/// Whether the characters begin with `0x` or `0X`.
fn starts_hex(s: &[char]) -> (r: bool)
    ensures
        r == has_hex_prefix(s@),
{
    s.len() >= 2 && s[0] == '0' && (s[1] == 'x' || s[1] == 'X')
}

/// What a text denotes as a 16-bit hexadecimal number.
pub open spec fn u16_hex(input: Seq<char>) -> Result<u16, Seq<char>> {
    match bounded_value(without_hex_prefix(input), 16, 0xFFFF) {
        Some(v) => Ok(v as u16),
        None => Err(invalid_text("invalid hex u16 value '"@, input)),
    }
}

/// Read a 16-bit hexadecimal number, with or without a prefix.
pub fn parse_u16_hex(input: &str) -> (r: Result<u16, String>)
    ensures
        parsed(r) == u16_hex(input@),
{
    let chars = text::chars_of(input);
    let digits = if starts_hex(chars.as_slice()) {
        vstd::slice::slice_subrange(chars.as_slice(), 2, chars.len())
    } else {
        chars.as_slice()
    };
    assert(digits@ =~= without_hex_prefix(input@));
    match text::parse_unsigned(digits, 16, 0xFFFF) {
        Some(v) => Ok(v as u16),
        None => Err(write_invalid("invalid hex u16 value '", input)),
    }
}

/// The position of the first colon.
pub open spec fn first_colon(s: Seq<char>) -> Option<int> {
    crate::search::first_where(s, |c: char| c == ':')
}

/// What a text denotes as a vendor and a product ID: the first complaint, or both numbers.
pub open spec fn vid_pid(input: Seq<char>) -> Result<(u16, u16), Seq<char>> {
    match first_colon(input) {
        None => Err("expected VID:PID, for example 091e:0003"@),
        Some(i) => match u16_hex(input.take(i)) {
            Err(message) => Err(message),
            Ok(vid) => match u16_hex(input.skip(i + 1)) {
                Err(message) => Err(message),
                Ok(pid) => Ok((vid, pid)),
            },
        },
    }
}

/// Read a vendor and a product ID, as in `091e:0003`.
pub fn parse_vid_pid(input: &str) -> (r: Result<(u16, u16), String>)
    ensures
        parsed(r) == vid_pid(input@),
{
    let ghost colon = |c: char| c == ':';
    let len: usize = input.unicode_len();
    let mut i: usize = 0;
    while i < len
        invariant
            i <= len == input@.len(),
            colon == (|c: char| c == ':'),
            forall|j: int| 0 <= j < i ==> !colon(#[trigger] input@[j]),
        decreases len - i,
    {
        if input.get_char(i) == ':' {
            proof {
                assert(colon(input@[i as int]));
                crate::search::lemma_first_where_at(input@, colon, i as int);
            }
            let vid = input.substring_char(0, i);
            let pid = input.substring_char(i + 1, len);
            assert(vid@ =~= input@.take(i as int));
            assert(pid@ =~= input@.skip(i + 1));
            return match parse_u16_hex(vid) {
                Err(message) => Err(message),
                Ok(vid) => match parse_u16_hex(pid) {
                    Err(message) => Err(message),
                    Ok(pid) => Ok((vid, pid)),
                },
            };
        }
        assert(!colon(input@[i as int]));
        i = i + 1;
    }
    proof {
        crate::search::lemma_first_where_none(input@, colon);
    }
    Err("expected VID:PID, for example 091e:0003".to_owned())
}

/// Whether a character is a letter that only a hexadecimal numeral has.
pub open spec fn is_hex_letter(c: char) -> bool {
    'a' <= c <= 'f' || 'A' <= c <= 'F'
}

/// Whether a text is to be read as hexadecimal: it has the prefix, or one of the letters.
pub open spec fn reads_as_hex(s: Seq<char>) -> bool {
    has_hex_prefix(s) || exists|i: int| 0 <= i < s.len() && is_hex_letter(#[trigger] s[i])
}

/// What a text denotes as a 64-bit number, hexadecimal or decimal.
pub open spec fn u64_hex_or_dec(input: Seq<char>) -> Result<u64, Seq<char>> {
    if reads_as_hex(input) {
        match bounded_value(without_hex_prefix(input), 16, u64::MAX as nat) {
            Some(v) => Ok(v as u64),
            None => Err(invalid_text("invalid hex u64 value '"@, input)),
        }
    } else {
        match bounded_value(input, 10, u64::MAX as nat) {
            Some(v) => Ok(v as u64),
            None => Err(invalid_text("invalid decimal u64 value '"@, input)),
        }
    }
}

/// Read a 64-bit number: hexadecimal with a prefix or where a hexadecimal letter occurs, decimal
/// otherwise.
pub fn parse_u64_hex_or_dec(input: &str) -> (r: Result<u64, String>)
    ensures
        parsed(r) == u64_hex_or_dec(input@),
{
    let chars = text::chars_of(input);
    if starts_hex(chars.as_slice()) {
        let digits = vstd::slice::slice_subrange(chars.as_slice(), 2, chars.len());
        assert(digits@ =~= without_hex_prefix(input@));
        return match text::parse_unsigned(digits, 16, u64::MAX) {
            Some(v) => Ok(v),
            None => Err(write_invalid("invalid hex u64 value '", input)),
        };
    }
    let mut i: usize = 0;
    while i < chars.len()
        invariant
            i <= chars@.len(),
            chars@ == input@,
            !has_hex_prefix(input@),
            forall|j: int| 0 <= j < i ==> !is_hex_letter(#[trigger] input@[j]),
        decreases chars.len() - i,
    {
        let c = chars[i];
        if ('a' <= c && c <= 'f') || ('A' <= c && c <= 'F') {
            assert(is_hex_letter(input@[i as int]));
            return match text::parse_unsigned(chars.as_slice(), 16, u64::MAX) {
                Some(v) => Ok(v),
                None => Err(write_invalid("invalid hex u64 value '", input)),
            };
        }
        i = i + 1;
    }
    match text::parse_unsigned(chars.as_slice(), 10, u64::MAX) {
        Some(v) => Ok(v),
        None => Err(write_invalid("invalid decimal u64 value '", input)),
    }
}

/// A location that was written in decimal, or in hexadecimal, is read back as it was: with either prefix and
/// with the digits in whatever case, and without a prefix where a hexadecimal letter tells the base.
pub proof fn law_locations_read_back(n: u64, digits: Seq<char>)
    requires
        text::same_digits(digits, text::numeral(n as nat, 16)),
    ensures
        u64_hex_or_dec(text::decimal(n as nat)) == Ok::<u64, Seq<char>>(n),
        u64_hex_or_dec(seq!['0', 'x'] + digits) == Ok::<u64, Seq<char>>(n),
        u64_hex_or_dec(seq!['0', 'X'] + digits) == Ok::<u64, Seq<char>>(n),
        (exists|i: int| 0 <= i < digits.len() && is_hex_letter(#[trigger] digits[i]))
            ==> u64_hex_or_dec(digits) == Ok::<u64, Seq<char>>(n),
{
    let dec = text::decimal(n as nat);
    text::law_numeral_reads_back(n as nat, 10);
    text::lemma_numeral_digits(n as nat, 10);
    text::law_any_case_reads_back(n as nat, 16, digits);
    assert forall|i: int| 0 <= i < dec.len() implies !is_hex_letter(#[trigger] dec[i]) && dec[i]
        != 'x' && dec[i] != 'X' by {
        assert(text::is_digit(dec[i], 10));
    }
    let small = seq!['0', 'x'] + digits;
    assert(small.skip(2) =~= digits);
    assert(has_hex_prefix(small));
    let big = seq!['0', 'X'] + digits;
    assert(big.skip(2) =~= digits);
    assert(has_hex_prefix(big));
    assert forall|i: int| 0 <= i < digits.len() implies #[trigger] digits[i] != 'x' && digits[i]
        != 'X' by {
        assert(text::is_digit(digits[i], 16));
    }
}

} // verus!
