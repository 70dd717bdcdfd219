//! What users can rely on in names, numbers, rows and choices of the command line.

use vstd::prelude::*;

use crate::cli::args;
use crate::cli::commands::doctor;
use crate::cli::commands::doctor::Doctor;
use crate::cli::commands::local_names;
use crate::cli::commands::ls;
use crate::cli::commands::ls::LsRow;
use crate::cli::commands::probe;
use crate::cli::commands::probe::{ProbeFolderView, ProbeTarget, ProbeTargetView};
use crate::cli::commands::reset;
use crate::cli::commands::reset::{ResetRow, ResetSelection, ResetStep};
use crate::cli::error::CliError;
use crate::cli::test_device;
use crate::mtp::error;
use crate::mtp::error::{Error, ErrorView};
use crate::mtp::storage::ObjectCollection;
use crate::mtp::types::{ObjectInfo, ObjectInfoView};
use crate::search;
use crate::text;
use crate::transport::virtual_device::config::VirtualDeviceConfig;

verus! {

/// Whether a name is one component of a path, and no way out of the folder it stands in.
pub open spec fn is_one_component(name: Seq<char>) -> bool {
    &&& name.len() > 0
    &&& name != seq!['.']
    &&& name != seq!['.', '.']
    &&& forall|i: int|
        0 <= i < name.len() ==> #[trigger] name[i] != '/' && name[i] != '\\' && name[i] != '\u{0}'
}

/// Whether a character is a letter in one case or the other.
pub open spec fn reads_as(c: char, upper: char, lower: char) -> bool {
    c == upper || c == lower
}

/// Whether a text is a name that Windows keeps for a device, in whatever case.
pub open spec fn is_windows_device(s: Seq<char>) -> bool {
    ||| s.len() == 3 && reads_as(s[0], 'C', 'c') && reads_as(s[1], 'O', 'o') && reads_as(s[2], 'N', 'n')
    ||| s.len() == 3 && reads_as(s[0], 'P', 'p') && reads_as(s[1], 'R', 'r') && reads_as(s[2], 'N', 'n')
    ||| s.len() == 3 && reads_as(s[0], 'A', 'a') && reads_as(s[1], 'U', 'u') && reads_as(s[2], 'X', 'x')
    ||| s.len() == 3 && reads_as(s[0], 'N', 'n') && reads_as(s[1], 'U', 'u') && reads_as(s[2], 'L', 'l')
    ||| s.len() == 4 && is_windows_port_number(s[3]) && reads_as(s[0], 'C', 'c') && reads_as(s[1], 'O', 'o')
        && reads_as(s[2], 'M', 'm')
    ||| s.len() == 4 && is_windows_port_number(s[3]) && reads_as(s[0], 'L', 'l') && reads_as(s[1], 'P', 'p')
        && reads_as(s[2], 'T', 't')
}

/// Whether a character numbers a port: a digit, or one of the first three as a superscript.
pub open spec fn is_windows_port_number(c: char) -> bool {
    '0' <= c <= '9' || c == '\u{b9}' || c == '\u{b2}' || c == '\u{b3}'
}

/// Whether Windows could store a name: no character that it forbids, no dot or space at the end, and no device in front
/// of the first dot.
pub open spec fn suits_windows(name: Seq<char>, stem: int) -> bool {
    &&& forall|i: int|
        0 <= i < name.len() ==> ({
            let c = #[trigger] name[i];
            c != '<' && c != '>' && c != ':' && c != '"' && c != '|' && c != '?' && c != '*' && c as u32 >= 32
        })
    &&& name.last() != '.'
    &&& name.last() != ' '
    &&& !is_windows_device(name.take(stem))
}

/// Whether a name's first dot stands at `stem`, or it has none and `stem` is its length.
pub open spec fn is_stem(name: Seq<char>, stem: int) -> bool {
    &&& 0 <= stem <= name.len()
    &&& stem < name.len() ==> name[stem] == '.'
    &&& forall|i: int| 0 <= i < stem ==> #[trigger] name[i] != '.'
}

/// A name from the device is used exactly where it is one component of a path, and on Windows where Windows could store
/// it as well.
pub proof fn law_which_names_are_used(name: &str, windows: bool, stem: int, r: Option<&'static str>)
    requires
        call_ensures(local_names::local_name_problem, (name, windows), r),
        is_stem(name@, stem),
    ensures
        r is None <==> is_one_component(name@) && (windows ==> suits_windows(name@, stem)),
{
    let n = name@;
    reveal_strlit(".");
    reveal_strlit("..");
    assert("."@ =~= seq!['.']);
    assert(".."@ =~= seq!['.', '.']);
    let problem = local_names::name_problem(n, windows);
    assert(r is None <==> problem is None);
    if local_names::holds(n, '/') {
        let i = choose|i: int| 0 <= i < n.len() && #[trigger] n[i] == '/';
        assert(n[i] == '/');
    }
    if local_names::holds(n, '\\') {
        let i = choose|i: int| 0 <= i < n.len() && #[trigger] n[i] == '\\';
        assert(n[i] == '\\');
    }
    if local_names::holds(n, '\u{0}') {
        let i = choose|i: int| 0 <= i < n.len() && #[trigger] n[i] == '\u{0}';
        assert(n[i] == '\u{0}');
    }
    if windows && n.len() > 0 {
        if exists|i: int| 0 <= i < n.len() && local_names::is_forbidden_on_windows(#[trigger] n[i]) {
            let i = choose|i: int| 0 <= i < n.len() && local_names::is_forbidden_on_windows(#[trigger] n[i]);
            assert(local_names::is_forbidden_on_windows(n[i]));
        }
        let dot = |c: char| c == '.';
        if stem < n.len() {
            assert(dot(n[stem]));
            search::lemma_first_where_at(n, dot, stem);
        } else {
            search::lemma_first_where_none(n, dot);
            assert(n.take(stem) =~= n);
        }
        assert(local_names::stem_of(n) == n.take(stem));
        lemma_reserved(n.take(stem));
    }
}

/// The reserved stems, letter by letter.
proof fn lemma_reserved(s: Seq<char>)
    ensures
        local_names::is_reserved(text::ascii_uppercase(s)) <==> is_windows_device(s),
{
    reveal_strlit("CON");
    reveal_strlit("PRN");
    reveal_strlit("AUX");
    reveal_strlit("NUL");
    reveal_strlit("COM");
    reveal_strlit("LPT");
    let u = text::ascii_uppercase(s);
    assert(u.len() == s.len());
    assert(forall|i: int| 0 <= i < s.len() ==> #[trigger] u[i] == text::ascii_upper(s[i]));
    if s.len() == 3 {
        assert(u == "CON"@ <==> u[0] == 'C' && u[1] == 'O' && u[2] == 'N') by {
            if u[0] == 'C' && u[1] == 'O' && u[2] == 'N' {
                assert(u =~= "CON"@);
            }
        }
        assert(u == "PRN"@ <==> u[0] == 'P' && u[1] == 'R' && u[2] == 'N') by {
            if u[0] == 'P' && u[1] == 'R' && u[2] == 'N' {
                assert(u =~= "PRN"@);
            }
        }
        assert(u == "AUX"@ <==> u[0] == 'A' && u[1] == 'U' && u[2] == 'X') by {
            if u[0] == 'A' && u[1] == 'U' && u[2] == 'X' {
                assert(u =~= "AUX"@);
            }
        }
        assert(u == "NUL"@ <==> u[0] == 'N' && u[1] == 'U' && u[2] == 'L') by {
            if u[0] == 'N' && u[1] == 'U' && u[2] == 'L' {
                assert(u =~= "NUL"@);
            }
        }
        assert(u.skip(3).len() == 0);
    } else {
        assert("CON"@.len() == 3 && "PRN"@.len() == 3 && "AUX"@.len() == 3 && "NUL"@.len() == 3);
    }
    if s.len() == 4 {
        assert(u.skip(3) =~= seq![u[3]]);
        let front = u.subrange(0, 3);
        assert("COM"@.is_prefix_of(u) <==> u[0] == 'C' && u[1] == 'O' && u[2] == 'M') by {
            assert(front[0] == u[0] && front[1] == u[1] && front[2] == u[2]);
            if u[0] == 'C' && u[1] == 'O' && u[2] == 'M' {
                assert(front =~= "COM"@);
            }
        }
        assert("LPT"@.is_prefix_of(u) <==> u[0] == 'L' && u[1] == 'P' && u[2] == 'T') by {
            assert(front[0] == u[0] && front[1] == u[1] && front[2] == u[2]);
            if u[0] == 'L' && u[1] == 'P' && u[2] == 'T' {
                assert(front =~= "LPT"@);
            }
        }
    } else if s.len() > 3 {
        assert(u.skip(3).len() != 1);
    }
}

/// The device to reset is picked by its serial number before its location, and the only one is meant where neither
/// is given.
pub proof fn law_a_reset_is_for_the_device_named(
    serial: Option<String>,
    location: Option<u64>,
    r: ResetSelection,
)
    requires
        call_ensures(reset::reset_selection, (&serial, location), r),
    ensures
        serial matches Some(s) ==> (r matches ResetSelection::Serial(t) && t@ == s@),
        serial is None ==> (location matches Some(l) ==> r == ResetSelection::Location(l)),
        r is Only <==> serial is None && location is None,
{
}

/// The only device is reset exactly where there is one and no other; several are told apart from none.
pub proof fn law_only_the_only_device_is_reset(locations: Vec<u64>, r: Result<u64, CliError>)
    requires
        call_ensures(reset::find_only_device, (Ok::<Vec<u64>, Error>(locations),), r),
    ensures
        r is Ok <==> locations@.len() == 1,
        r matches Ok(l) ==> l == locations@[0],
        locations@.len() == 0 ==> (r matches Err(CliError::Plain { kind, .. }) && kind is NoDevice),
        locations@.len() > 1 ==> (r matches Err(CliError::Plain { kind, .. }) && kind is AmbiguousSelection),
{
}

/// What failed a reset, or a list of devices, is passed on.
pub proof fn law_a_failed_reset_keeps_its_reason(
    step: ResetStep,
    e: Error,
    r: CliError,
    listed: Result<u64, CliError>,
)
    requires
        call_ensures(reset::reset_failure, (step, e), r),
        call_ensures(reset::find_only_device, (Err::<Vec<u64>, Error>(e),), listed),
    ensures
        r matches CliError::Device { source, .. } && source@ == e@,
        listed matches Err(CliError::Device { source, .. }) && source@ == e@,
{
}

/// A reset that was sent is reported as sent, with the model exactly where the device answered.
pub proof fn law_a_reset_reports_who_answered(answer: Result<String, Error>, r: ResetRow)
    requires
        call_ensures(ResetRow::new, (answer,), r),
    ensures
        r.reset,
        r.responding_model is Some <==> answer is Ok,
        r.responding_model matches Some(model) ==> model@ == answer->Ok_0@,
{
}

/// A listing has a row for each object, in order, with its handle, its size, its name and whether it is a folder, and
/// a row for each object that could not be read, with its handle.
pub proof fn law_a_listing_has_a_row_for_each_object(
    path: String,
    recursive: bool,
    found: ObjectCollection,
    r: Result<LsRow, CliError>,
)
    requires
        call_ensures(LsRow::new, (path, recursive, Ok::<ObjectCollection, Error>(found)), r),
    ensures
        r matches Ok(row) && {
            &&& row.path@ == path@
            &&& row.recursive == recursive
            &&& row.objects@.len() == found.objects@.len()
            &&& forall|i: int|
                0 <= i < row.objects@.len() ==> {
                    &&& (#[trigger] row.objects@[i]).handle == found.objects@[i].handle.0
                    &&& row.objects@[i].size == found.objects@[i].size
                    &&& row.objects@[i].filename@ == found.objects@[i].filename@
                    &&& row.objects@[i].is_folder <==> found.objects@[i].format == 0x3001
                }
            &&& row.skipped@.len() == found.skipped@.len()
            &&& forall|i: int|
                0 <= i < row.skipped@.len() ==> {
                    &&& (#[trigger] row.skipped@[i]).handle == found.skipped@[i].handle.0
                    &&& row.skipped@[i].error@ == error::error_text(found.skipped@[i].error@)
                }
        },
{
    let row = r->Ok_0;
    assert(row@.objects.len() == row.objects@.len());
    assert(row@.skipped.len() == row.skipped@.len());
    assert(found@.objects.len() == found.objects@.len());
    assert(found@.skipped.len() == found.skipped@.len());
    assert forall|i: int| 0 <= i < row.objects@.len() implies {
        &&& (#[trigger] row.objects@[i]).handle == found.objects@[i].handle.0
        &&& row.objects@[i].size == found.objects@[i].size
        &&& row.objects@[i].filename@ == found.objects@[i].filename@
        &&& row.objects@[i].is_folder <==> found.objects@[i].format == 0x3001
    } by {
        assert(row@.objects[i] == row.objects@[i]@);
        assert(found@.objects[i] == found.objects@[i]@);
    }
    assert forall|i: int| 0 <= i < row.skipped@.len() implies {
        &&& (#[trigger] row.skipped@[i]).handle == found.skipped@[i].handle.0
        &&& row.skipped@[i].error@ == error::error_text(found.skipped@[i].error@)
    } by {
        assert(row@.skipped[i] == row.skipped@[i]@);
        assert(found@.skipped[i] == found.skipped@[i]@);
    }
}

/// A line of a listing tells a folder from a file by its first letter and ends with the name.
pub proof fn law_a_line_tells_folders_from_files(row: ls::ObjectRowView)
    ensures
        ls::object_line(row)[0] == (if row.is_folder {
            'D'
        } else {
            'F'
        }),
        row.filename.is_suffix_of(ls::object_line(row)),
        text::contains_text(ls::object_line(row), text::decimal(row.size as nat)),
        text::contains_text(ls::object_line(row), " handle="@ + text::decimal(row.handle as nat) + " "@),
{
    reveal_strlit("DIR ");
    reveal_strlit("FILE");
    reveal_strlit(" ");
    let line = ls::object_line(row);
    let size = text::padded(text::decimal(row.size as nat), ' ', 12);
    let handle = " handle="@ + text::decimal(row.handle as nat) + " "@;
    let kind = if row.is_folder {
        "DIR "@
    } else {
        "FILE"@
    };
    let head = kind + " "@;
    assert(line =~= head + size + handle + row.filename);
    assert(line[0] == kind[0]);
    let front = head + size + handle;
    assert(line.subrange(line.len() - row.filename.len(), line.len() as int) =~= row.filename);
    let number = text::decimal(row.size as nat);
    crate::laws::law_padding_comes_in_front(number, ' ', 12);
    let at = (head.len() + size.len() - number.len()) as int;
    assert(line.subrange(at, at + number.len()) =~= size.skip(size.len() - number.len()));
    assert(text::stands_at(line, number, at));
    let place = (head.len() + size.len()) as int;
    assert(line.subrange(place, place + handle.len()) =~= handle);
    assert(text::stands_at(line, handle, place));
}

/// Vendor and product are read back as they were written, each in hexadecimal, in whatever case and with or without a
/// prefix.
pub proof fn law_vendor_and_product_read_back(vid: u16, pid: u16, a: Seq<char>, b: Seq<char>)
    requires
        text::same_digits(a, text::numeral(vid as nat, 16)),
        text::same_digits(b, text::numeral(pid as nat, 16)),
    ensures
        args::vid_pid(a + seq![':'] + b) == Ok::<(u16, u16), Seq<char>>((vid, pid)),
        args::u16_hex(a) == Ok::<u16, Seq<char>>(vid),
        args::u16_hex(seq!['0', 'x'] + a) == Ok::<u16, Seq<char>>(vid),
        args::u16_hex(seq!['0', 'X'] + a) == Ok::<u16, Seq<char>>(vid),
{
    text::law_any_case_reads_back(vid as nat, 16, a);
    text::law_any_case_reads_back(pid as nat, 16, b);
    lemma_no_prefix(a);
    lemma_no_prefix(b);
    let s = a + seq![':'] + b;
    let colon = |c: char| c == ':';
    let at = a.len() as int;
    assert(colon(s[at]));
    assert forall|i: int| 0 <= i < at implies !colon(#[trigger] s[i]) by {
        assert(text::is_digit(a[i], 16));
    }
    search::lemma_first_where_at(s, colon, at);
    assert(s.take(at) =~= a);
    assert(s.skip(at + 1) =~= b);
    let small = seq!['0', 'x'] + a;
    let big = seq!['0', 'X'] + a;
    assert(small.skip(2) =~= a);
    assert(big.skip(2) =~= a);
}

proof fn lemma_no_prefix(digits: Seq<char>)
    requires
        forall|i: int| 0 <= i < digits.len() ==> #[trigger] text::is_digit(digits[i], 16),
    ensures
        !args::has_hex_prefix(digits),
{
    if digits.len() >= 2 {
        assert(text::is_digit(digits[1], 16));
    }
}

/// What is no pair, or holds a number too large for its half, is refused.
pub proof fn law_a_pair_has_a_colon_and_two_numbers(input: &str, r: Result<(u16, u16), String>)
    requires
        call_ensures(args::parse_vid_pid, (input,), r),
    ensures
        (forall|i: int| 0 <= i < input@.len() ==> #[trigger] input@[i] != ':') ==> r is Err,
{
    let colon = |c: char| c == ':';
    if forall|i: int| 0 <= i < input@.len() ==> #[trigger] input@[i] != ':' {
        search::lemma_first_where_none(input@, colon);
    }
}

/// A number that does not fit is refused, and so is what holds a character that is no digit.
pub proof fn law_a_number_that_does_not_fit_is_refused(n: nat, digits: Seq<char>)
    requires
        text::same_digits(digits, text::numeral(n, 16)),
    ensures
        n > 0xFFFF ==> args::u16_hex(digits) is Err,
        n > u64::MAX ==> args::u64_hex_or_dec(seq!['0', 'x'] + digits) is Err,
        n > u64::MAX ==> args::u64_hex_or_dec(text::decimal(n)) is Err,
{
    text::law_any_case_reads_back(n, 16, digits);
    lemma_no_prefix(digits);
    let small = seq!['0', 'x'] + digits;
    assert(small.skip(2) =~= digits);
    assert(args::has_hex_prefix(small));
    let dec = text::decimal(n);
    text::law_numeral_reads_back(n, 10);
    text::lemma_numeral_digits(n, 10);
    assert forall|i: int| 0 <= i < dec.len() implies !args::is_hex_letter(#[trigger] dec[i]) && dec[i] != 'x'
        && dec[i] != 'X' by {
        assert(text::is_digit(dec[i], 10));
    }
}

/// The white space around a text is taken off, and nothing else: what is left is a stretch of the text that neither
/// begins nor ends with white space, and what was taken off was white space.
pub proof fn law_only_the_white_space_around_is_taken_off(s: Seq<char>) -> (at: (int, int))
    ensures
        0 <= at.0 <= at.1 <= s.len(),
        test_device::trimmed(s) == s.subrange(at.0, at.1),
        at.0 < at.1 ==> !test_device::is_white_space(s[at.0]) && !test_device::is_white_space(s[at.1 - 1]),
        forall|i: int| 0 <= i < at.0 ==> test_device::is_white_space(#[trigger] s[i]),
        forall|i: int| at.1 <= i < s.len() ==> test_device::is_white_space(#[trigger] s[i]),
    decreases s.len(),
{
    if s.len() == 0 {
        assert(s.subrange(0, 0) =~= s);
        (0, 0)
    } else if test_device::is_white_space(s[0]) {
        let rest = s.skip(1);
        let at = law_only_the_white_space_around_is_taken_off(rest);
        assert(s.subrange(at.0 + 1, at.1 + 1) =~= rest.subrange(at.0, at.1));
        assert forall|i: int| 0 <= i < at.0 + 1 implies test_device::is_white_space(#[trigger] s[i]) by {
            if i > 0 {
                assert(test_device::is_white_space(rest[i - 1]));
            }
        }
        assert forall|i: int| at.1 + 1 <= i < s.len() implies test_device::is_white_space(#[trigger] s[i]) by {
            assert(test_device::is_white_space(rest[i - 1]));
        }
        (at.0 + 1, at.1 + 1)
    } else if test_device::is_white_space(s.last()) {
        let rest = s.drop_last();
        let at = law_only_the_white_space_around_is_taken_off(rest);
        assert(s.subrange(at.0, at.1) =~= rest.subrange(at.0, at.1));
        assert forall|i: int| 0 <= i < at.0 implies test_device::is_white_space(#[trigger] s[i]) by {
            assert(test_device::is_white_space(rest[i]));
        }
        assert forall|i: int| at.1 <= i < s.len() implies test_device::is_white_space(#[trigger] s[i]) by {
            if i < rest.len() {
                assert(test_device::is_white_space(rest[i]));
            }
        }
        (at.0, at.1)
    } else {
        assert(s.subrange(0, s.len() as int) =~= s);
        (0, s.len() as int)
    }
}

/// White space is what separates words, and not what they are made of.
pub proof fn law_letters_and_digits_are_no_white_space(c: char)
    ensures
        c == ' ' || c == '\t' || c == '\n' || c == '\r' ==> test_device::is_white_space(c),
        '!' <= c <= '~' ==> !test_device::is_white_space(c),
{
}

/// Parts that are joined by commas are found again, in their order, where each is a text without commas and without
/// white space around it.
pub proof fn law_a_list_is_split_at_its_commas(part: Seq<char>, rest: Seq<char>)
    requires
        part.len() > 0,
        forall|i: int| 0 <= i < part.len() ==> #[trigger] part[i] != ',',
        !test_device::is_white_space(part[0]),
        !test_device::is_white_space(part.last()),
    ensures
        test_device::list_parts(part) == seq![part],
        test_device::list_parts(part + seq![','] + rest) == seq![part] + test_device::list_parts(rest),
        test_device::list_parts(seq![','] + rest) == test_device::list_parts(rest),
{
    let comma = |c: char| c == ',';
    assert forall|i: int| 0 <= i < part.len() implies !comma(#[trigger] part[i]) by {}
    search::lemma_first_where_none(part, comma);
    assert(test_device::trimmed(part) == part);
    let s = part + seq![','] + rest;
    let at = part.len() as int;
    assert(comma(s[at]));
    assert forall|i: int| 0 <= i < at implies !comma(#[trigger] s[i]) by {
        assert(s[i] == part[i]);
    }
    search::lemma_first_where_at(s, comma, at);
    assert(s.take(at) =~= part);
    assert(s.skip(at + 1) =~= rest);
    let t = seq![','] + rest;
    assert(comma(t[0]));
    search::lemma_first_where_at(t, comma, 0);
    assert(t.take(0) =~= Seq::empty());
    assert(t.skip(1) =~= rest);
    assert(test_device::kept(test_device::trimmed(t.take(0))) =~= Seq::empty());
    assert(test_device::list_parts(t) =~= test_device::list_parts(rest));
}

/// The test device has one storage, over the directory that was given and writable, and the serial number that was
/// given.
pub proof fn law_the_test_device_is_over_the_directory_given(
    root: &str,
    serial: &str,
    r: VirtualDeviceConfig,
)
    requires
        call_ensures(test_device::test_device_config, (root, Some(serial), None::<&str>), r),
    ensures
        r.serial@ == serial@,
        r.storages@.len() == 1,
        r.storages@[0].backing_dir@ == root@,
        !r.storages@[0].read_only,
        r.storages@[0].capacity == 64 * 1024 * 1024,
        r.undescribable_objects@.len() == 0,
        !r.watch_backing_dirs,
{
    assert(r@.storages.len() == r.storages@.len());
    assert(r@.storages[0] == r.storages@[0]@);
    assert(r@.undescribable_objects.len() == r.undescribable_objects@.len());
}

/// A file that the user names is probed under its path, by its handle; a folder is not.
pub proof fn law_a_named_file_is_probed_by_its_handle(
    path: &str,
    object: ObjectInfo,
    r: Result<ProbeTarget, String>,
)
    requires
        call_ensures(probe::explicit_target, (path, &object), r),
    ensures
        r is Ok <==> object.format != 0x3001,
        r matches Ok(t) ==> t.handle == object.handle && t.path@ == path@ && t.size == object.size,
{
}

/// A file is good enough to stop at exactly where it holds between a hundred thousand and ten million bytes.
pub proof fn law_which_files_are_preferred(t: ProbeTargetView)
    ensures
        probe::is_preferred(t) <==> 100_000 <= t.size <= 10_000_000,
{
}

/// How soon a folder is searched: the user's pictures and downloads first, other media next, then everything else, and
/// the `Android` tree last.
pub proof fn law_how_soon_a_folder_is_searched(name: &str, r: u8)
    requires
        call_ensures(probe::folder_priority, (name,), r),
    ensures
        r <= 3,
        r == 3 <==> name@ == "Android"@,
        r == 0 <==> name@ == "DCIM"@ || name@ == "Camera"@ || name@ == "Download"@ || name@ == "Downloads"@
            || name@ == "Pictures"@,
        r == 1 <==> name@ == "Movies"@ || name@ == "Music"@ || name@ == "Documents"@ || name@
            == "Audiobooks"@ || name@ == "Podcasts"@,
{
    lemma_folder_words();
    assert(is_other_media(name@) <==> name@ == "Movies"@ || name@ == "Music"@ || name@ == "Documents"@ || name@
        == "Audiobooks"@ || name@ == "Podcasts"@);
}

proof fn lemma_folder_words()
    ensures
        "Android"@ != "DCIM"@,
        "Android"@ != "Camera"@,
        "Android"@ != "Download"@,
        "Android"@ != "Downloads"@,
        "Android"@ != "Pictures"@,
        "Android"@ != "Movies"@,
        "Android"@ != "Music"@,
        "Android"@ != "Documents"@,
        "Android"@ != "Audiobooks"@,
        "Android"@ != "Podcasts"@,
        forall|a: Seq<char>|
            a == "DCIM"@ || a == "Camera"@ || a == "Download"@ || a == "Downloads"@ || a == "Pictures"@ ==> !(
            #[trigger] is_other_media(a)),
{
    reveal_strlit("Android");
    reveal_strlit("DCIM");
    reveal_strlit("Camera");
    reveal_strlit("Download");
    reveal_strlit("Downloads");
    reveal_strlit("Pictures");
    reveal_strlit("Movies");
    reveal_strlit("Music");
    reveal_strlit("Documents");
    reveal_strlit("Audiobooks");
    reveal_strlit("Podcasts");
    assert("Android"@[0] == 'A' && "Android"@.len() == 7);
    assert("DCIM"@[1] == 'C' && "Camera"@[0] == 'C' && "Download"@.len() == 8 && "Downloads"@[2] == 'w'
        && "Pictures"@[0] == 'P' && "Pictures"@[1] == 'i');
    assert("Movies"@[0] == 'M' && "Music"@[0] == 'M' && "Documents"@[2] == 'c' && "Documents"@.len() == 9
        && "Audiobooks"@.len() == 10 && "Podcasts"@[1] == 'o' && "Podcasts"@[0] == 'P');
    assert("DCIM"@.len() == 4 && "Camera"@.len() == 6 && "Downloads"@.len() == 9 && "Pictures"@.len() == 8);
    assert("Movies"@.len() == 6 && "Music"@.len() == 5 && "Podcasts"@.len() == 8);
    assert("Download"@[0] == 'D');
}

/// Whether a name is that of one of the other folders for media.
pub open spec fn is_other_media(name: Seq<char>) -> bool {
    name == "Movies"@ || name == "Music"@ || name == "Documents"@ || name == "Audiobooks"@ || name
        == "Podcasts"@
}

/// Every file in a listing is offered to the probe, in order, by its handle, under its folder's path and its name and
/// with its size; no folder is.
pub proof fn law_every_file_is_offered(objects: Seq<ObjectInfoView>, prefix: Seq<char>, i: int)
    requires
        0 <= i < objects.len(),
    ensures
        probe::file_targets(objects, prefix).len() <= objects.len(),
        objects[i].format != 0x3001 ==> exists|k: int|
            0 <= k < probe::file_targets(objects, prefix).len() && ({
                let t = #[trigger] probe::file_targets(objects, prefix)[k];
                t.handle == objects[i].handle && t.size == objects[i].size && t.path == prefix + seq!['/']
                    + objects[i].filename
            }),
    decreases objects.len(),
{
    reveal_strlit("/");
    assert("/"@ =~= seq!['/']);
    let fewer = objects.drop_last();
    let before = probe::file_targets(fewer, prefix);
    let now = probe::file_targets(objects, prefix);
    if fewer.len() > 0 {
        law_every_file_is_offered(fewer, prefix, 0);
    }
    if i < fewer.len() {
        assert(fewer[i] == objects[i]);
        law_every_file_is_offered(fewer, prefix, i);
        if objects[i].format != 0x3001 {
            let k = choose|k: int|
                0 <= k < before.len() && ({
                    let t = #[trigger] before[k];
                    t.handle == objects[i].handle && t.size == objects[i].size && t.path == prefix + seq!['/']
                        + objects[i].filename
                });
            assert(now[k] == before[k]);
        }
    } else if objects[i].format != 0x3001 {
        assert(now[before.len() as int].handle == objects[i].handle);
    }
}

/// Where a folder stands in the search depends on its name before its place in the listing: all that are searched
/// sooner come before all that are searched later.
pub proof fn law_folders_are_searched_by_their_names(
    objects: Seq<ObjectInfoView>,
    folder: ProbeFolderView,
    a: int,
    b: int,
)
    requires
        folder.depth < 3,
        0 <= a < b < probe::folders_to_list(objects, folder).len(),
    ensures
        ({
            let list = probe::folders_to_list(objects, folder);
            exists|i: int, j: int|
                0 <= i < objects.len() && 0 <= j < objects.len() && objects[i].format == 0x3001
                    && objects[j].format == 0x3001 && list[a].parent == Some((#[trigger] objects[i]).handle)
                    && list[b].parent == Some((#[trigger] objects[j]).handle) && probe::priority_of(
                    objects[i].filename,
                ) <= probe::priority_of(objects[j].filename)
        }),
{
    let i = lemma_where_searched(objects, folder, a);
    let j = lemma_where_searched(objects, folder, b);
    let list = probe::folders_to_list(objects, folder);
    assert(list[a].parent == Some(objects[i.0].handle));
    assert(list[b].parent == Some(objects[j.0].handle));
    assert(i.1 <= j.1);
}

/// Which object a folder to list is, and which of the four groups it stands in.
proof fn lemma_where_searched(objects: Seq<ObjectInfoView>, folder: ProbeFolderView, k: int) -> (at: (int, int))
    requires
        folder.depth < 3,
        0 <= k < probe::folders_to_list(objects, folder).len(),
    ensures
        0 <= at.0 < objects.len(),
        objects[at.0].format == 0x3001,
        probe::folders_to_list(objects, folder)[k].parent == Some(objects[at.0].handle),
        probe::priority_of(objects[at.0].filename) == at.1,
        ({
            let first = probe::folders_at(objects, folder, 0).len();
            let second = first + probe::folders_at(objects, folder, 1).len();
            let third = second + probe::folders_at(objects, folder, 2).len();
            at.1 == (if k < first {
                0int
            } else if k < second {
                1
            } else if k < third {
                2
            } else {
                3
            })
        }),
{
    let f0 = probe::folders_at(objects, folder, 0);
    let f1 = probe::folders_at(objects, folder, 1);
    let f2 = probe::folders_at(objects, folder, 2);
    let f3 = probe::folders_at(objects, folder, 3);
    let list = probe::folders_to_list(objects, folder);
    if k < f0.len() {
        assert(list[k] == f0[k]);
        (lemma_group_member(objects, folder, 0, k), 0)
    } else if k < f0.len() + f1.len() {
        assert(list[k] == f1[k - f0.len()]);
        (lemma_group_member(objects, folder, 1, k - f0.len()), 1)
    } else if k < f0.len() + f1.len() + f2.len() {
        assert(list[k] == f2[k - f0.len() - f1.len()]);
        (lemma_group_member(objects, folder, 2, k - f0.len() - f1.len()), 2)
    } else {
        assert(list[k] == f3[k - f0.len() - f1.len() - f2.len()]);
        (lemma_group_member(objects, folder, 3, k - f0.len() - f1.len() - f2.len()), 3)
    }
}

proof fn lemma_group_member(
    objects: Seq<ObjectInfoView>,
    folder: ProbeFolderView,
    priority: u8,
    k: int,
) -> (i: int)
    requires
        0 <= k < probe::folders_at(objects, folder, priority).len(),
    ensures
        0 <= i < objects.len(),
        objects[i].format == 0x3001,
        probe::priority_of(objects[i].filename) == priority,
        probe::folders_at(objects, folder, priority)[k].parent == Some(objects[i].handle),
    decreases objects.len(),
{
    let fewer = objects.drop_last();
    if k < probe::folders_at(fewer, folder, priority).len() {
        let i = lemma_group_member(fewer, folder, priority, k);
        assert(fewer[i] == objects[i]);
        i
    } else {
        objects.len() - 1
    }
}

/// A folder is hinted at exactly where it is one that is usually writable and the root holds a folder of that name.
pub proof fn law_which_folders_are_hinted_at(root: Vec<ObjectInfo>, r: Vec<String>, name: Seq<char>)
    requires
        call_ensures(doctor::writable_folder_hints, (&root,), r),
    ensures
        text::views(r@).contains(name) <==> doctor::hint_names().contains(name) && exists|i: int|
            0 <= i < root@.len() && (#[trigger] root@[i]).format == 0x3001 && root@[i].filename@ == name,
{
    broadcast use vstd::seq_lib::group_filter_ensures;

    let views = crate::mtp::storage::object_views(root@);
    assert(views.len() == root@.len());
    let p = |n: Seq<char>| doctor::has_folder(views, n);
    let hints = text::views(r@);
    assert(hints == doctor::hint_names().filter(p));
    assert(doctor::has_folder(views, name) <==> exists|i: int|
        0 <= i < root@.len() && (#[trigger] root@[i]).format == 0x3001 && root@[i].filename@ == name) by {
        if doctor::has_folder(views, name) {
            let i = choose|i: int|
                0 <= i < views.len() && (#[trigger] views[i]).is_folder() && views[i].filename == name;
            assert(root@[i].format == 0x3001);
        }
        if exists|i: int|
            0 <= i < root@.len() && (#[trigger] root@[i]).format == 0x3001 && root@[i].filename@ == name {
            let i = choose|i: int|
                0 <= i < root@.len() && (#[trigger] root@[i]).format == 0x3001 && root@[i].filename@ == name;
            assert(views[i] == root@[i]@);
            assert(views[i].is_folder());
        }
    }
    if hints.contains(name) {
        doctor::hint_names().lemma_filter_contains_rev(p, name);
        let k = choose|k: int| 0 <= k < hints.len() && hints[k] == name;
        doctor::hint_names().lemma_filter_pred(p, k);
        assert(p(name));
    }
    if doctor::hint_names().contains(name) && p(name) {
        let k = choose|k: int| 0 <= k < doctor::hint_names().len() && doctor::hint_names()[k] == name;
        doctor::hint_names().lemma_filter_contains(p, k);
    }
}

/// The folders that are usually writable, and the order in which they are hinted at.
pub proof fn law_the_usually_writable_folders(name: Seq<char>)
    ensures
        doctor::hint_names().contains(name) <==> name == "Download"@ || name == "Downloads"@ || name
            == "Documents"@ || name == "Music"@ || name == "Pictures"@ || name == "Audiobooks"@ || name
            == "Podcasts"@ || name == "GARMIN"@,
        doctor::hint_names()[0] == "Download"@,
        doctor::hint_names().last() == "GARMIN"@,
{
    let names = doctor::hint_names();
    assert(names[0] == "Download"@ && names[1] == "Downloads"@ && names[2] == "Documents"@ && names[3]
        == "Music"@);
    assert(names[4] == "Pictures"@ && names[5] == "Audiobooks"@ && names[6] == "Podcasts"@ && names[7]
        == "GARMIN"@);
}

/// The run goes on from the devices to the one selected exactly where a device is visible. The report then holds them
/// all; without one, or where they could not be listed, the command fails.
pub proof fn law_a_run_goes_on_where_a_device_is_visible(
    json: bool,
    row: doctor::DoctorRowView,
    devices: Result<Seq<crate::mtp::device::MtpDeviceInfoView>, ErrorView>,
)
    ensures
        ({
            let (after, reply) = doctor::after_devices(json, row, devices);
            &&& reply.next is Open <==> devices is Ok && devices->Ok_0.len() > 0
            &&& reply.next is Open ==> after.devices == devices->Ok_0
            &&& !(reply.next is Open) ==> reply.next is Fail
            &&& devices matches Err(e) ==> (reply.next->Fail_0 matches crate::cli::error::CliErrorView::Device {
                source,
                ..
            } && source == e)
            &&& devices is Ok && devices->Ok_0.len() == 0 ==> (reply.next->Fail_0 matches
                crate::cli::error::CliErrorView::Plain { kind, .. } && kind is NoDevice)
            &&& after.storages == row.storages && after.opened == row.opened
        }),
{
}

/// An open device is reported as it described itself, with what it supports; then its storages are listed. One that
/// would not open is reported with why, and fails the command.
pub proof fn law_an_open_device_is_reported(
    json: bool,
    row: doctor::DoctorRowView,
    opened: doctor::OpenedDeviceRowView,
    failure: doctor::OpenFailure,
)
    ensures
        ({
            let (after, reply) = doctor::after_open(json, row, opened);
            let (failed, refusal) = doctor::after_open_failure(json, row, failure);
            &&& after.opened == Some(opened)
            &&& after.devices == row.devices
            &&& reply.next is ListStorages
            &&& failed.open_error == Some(failure.message@)
            &&& failure.help is Some <==> failed.open_help is Some
            &&& failed.open_help matches Some(help) ==> help == failure.help->0@
            &&& failed.opened == row.opened
            &&& refusal.next == doctor::DoctorNextView::Fail(failure.error@)
        }),
{
}

/// The report of a storage names it by its place, says that its root was listed, and holds each object there that could
/// not be read, with its handle and its error.
pub proof fn law_a_storage_is_reported_with_what_could_not_be_read(
    index: int,
    root: crate::mtp::storage::ObjectCollectionView,
    i: int,
)
    requires
        0 <= i < root.skipped.len(),
    ensures
        ({
            let row = doctor::storage_row(index, root);
            &&& row.index == index
            &&& row.root_listed
            &&& row.unreadable_root_objects.len() == root.skipped.len()
            &&& row.unreadable_root_objects[i].handle == root.skipped[i].handle.0
            &&& row.unreadable_root_objects[i].error == error::error_text(root.skipped[i].error)
        }),
{
}

/// The line about a storage holds its description and its free space, and tells whether it can be written.
pub proof fn law_a_storage_is_shown_with_its_free_space(index: int, info: crate::mtp::types::StorageInfo)
    ensures
        text::contains_text(doctor::storage_line(index, info), info.description@),
        text::contains_text(
            doctor::storage_line(index, info),
            " free="@ + text::decimal(info.free_space as nat) + " "@,
        ),
        info.is_writable ==> "ReadWrite"@.is_suffix_of(doctor::storage_line(index, info)),
        !info.is_writable ==> "ReadOnly"@.is_suffix_of(doctor::storage_line(index, info)),
{
    let line = doctor::storage_line(index, info);
    let access = if info.is_writable {
        "ReadWrite"@
    } else {
        "ReadOnly"@
    };
    let a = "  ["@ + text::decimal(index as nat) + "] "@;
    let number = text::decimal(info.free_space as nat);
    reveal_strlit(" ");
    reveal_strlit(" access=");
    let free = " free="@ + number + " "@;
    let tail = " access="@.skip(1);
    assert(" access="@ =~= " "@ + tail);
    assert(line =~= a + info.description@ + free + tail + access);
    let at = a.len() as int;
    assert(line.subrange(at, at + info.description@.len()) =~= info.description@);
    assert(text::stands_at(line, info.description@, at));
    let place = at + info.description@.len();
    assert(line.subrange(place, place + free.len()) =~= free);
    assert(text::stands_at(line, free, place));
    assert(line.subrange(line.len() - access.len(), line.len() as int) =~= access);
}

/// What the probe says of a cancel that the device survived, or had to be reset after, holds the path and the size of
/// the file; any other failure says what the device said.
pub proof fn law_the_probe_says_what_it_probed(target: ProbeTargetView, e: ErrorView)
    ensures
        text::contains_text(probe::probe_verdict(target, Ok(())).detail, target.path),
        text::contains_text(probe::probe_verdict(target, Err(ErrorView::DeviceReset)).detail, target.path),
        text::contains_text(probe::probe_verdict(target, Ok(())).detail, text::decimal(target.size as nat)),
        !(e is DeviceReset) ==> error::error_text(e).is_suffix_of(probe::probe_verdict(target, Err(e)).detail),
        probe::probe_verdict(target, Ok(())).outcome == "healthy"@,
        probe::probe_verdict(target, Err(ErrorView::DeviceReset)).outcome == "wedged_recovered"@,
        !(e is DeviceReset) ==> probe::probe_verdict(target, Err(e)).outcome == "errored"@,
{
    let fine = probe::probe_verdict(target, Ok(())).detail;
    let a = "cancelled '"@;
    assert(fine.subrange(a.len() as int, (a.len() + target.path.len()) as int) =~= target.path);
    assert(text::stands_at(fine, target.path, a.len() as int));
    let b = a + target.path + "' ("@;
    let size = text::decimal(target.size as nat);
    assert(fine.subrange(b.len() as int, (b.len() + size.len()) as int) =~= size);
    assert(text::stands_at(fine, size, b.len() as int));
    let wedged = probe::probe_verdict(target, Err(ErrorView::DeviceReset)).detail;
    let c = "cancel wedged the device on '"@;
    assert(wedged.subrange(c.len() as int, (c.len() + target.path.len()) as int) =~= target.path);
    assert(text::stands_at(wedged, target.path, c.len() as int));
    if !(e is DeviceReset) {
        let failed = probe::probe_verdict(target, Err(e)).detail;
        let words = error::error_text(e);
        assert(failed.subrange(failed.len() - words.len(), failed.len() as int) =~= words);
    }
}

/// The probe's outcome is in the report, and the run ends well whatever it was.
pub proof fn law_the_outcome_of_the_probe_is_reported(
    json: bool,
    row: doctor::DoctorRowView,
    outcome: probe::CancelProbeRowView,
)
    ensures
        ({
            let (after, reply) = doctor::after_probe(json, row, outcome);
            &&& after.cancel_probe == Some(outcome)
            &&& after.storages == row.storages && after.opened == row.opened && after.devices == row.devices
            &&& reply.next is Finish
            &&& reply.emit == json
            &&& json ==> reply.lines.len() == 0
            &&& !json ==> reply.lines.len() == 1 && text::contains_text(reply.lines[0], outcome.outcome)
        }),
{
    let line = doctor::probe_line(outcome);
    let a = "cancel-probe: "@;
    assert(line.subrange(a.len() as int, (a.len() + outcome.outcome.len()) as int) =~= outcome.outcome);
    assert(text::stands_at(line, outcome.outcome, a.len() as int));
}

/// A run of `doctor` probes exactly where it was asked to: for a probe, or with a file to probe.
pub proof fn law_a_run_probes_where_it_was_asked_to(json: bool, args: args::DoctorArgs, r: Doctor)
    requires
        call_ensures(Doctor::new, (json, &args), r),
    ensures
        r.json == json,
        r.probe() is Some <==> args.probe_cancel || args.probe_path is Some,
        args.probe_path matches Some(path) ==> r.probe() == Some(probe::CancelActionView::ResolvePath(path@)),
        r.row@.storages.len() == 0,
        r.row@.devices.len() == 0,
        r.row@.cancel_probe is None,
{
}

/// A search goes on for as long as a folder is left and fewer than forty-eight were listed, and it queues the folders of
/// a listing down to three levels below the root.
pub proof fn law_how_far_a_search_goes(
    s: probe::ProbeSearchView,
    objects: Seq<ObjectInfoView>,
    folder: ProbeFolderView,
    i: int,
)
    requires
        0 <= i < objects.len(),
        objects[i].format == 0x3001,
    ensures
        probe::lists_another(s) <==> s.queue.len() > 0 && s.folders_listed < 48,
        folder.depth < 3 ==> exists|k: int|
            0 <= k < probe::folders_to_list(objects, folder).len() && ({
                let f = #[trigger] probe::folders_to_list(objects, folder)[k];
                f.parent == Some(objects[i].handle) && f.depth == folder.depth + 1 && f.prefix == folder.prefix
                    + seq!['/'] + objects[i].filename
            }),
        folder.depth >= 3 ==> probe::folders_to_list(objects, folder).len() == 0,
{
    if folder.depth < 3 {
        let f0 = probe::folders_at(objects, folder, 0);
        let f1 = probe::folders_at(objects, folder, 1);
        let f2 = probe::folders_at(objects, folder, 2);
        let f3 = probe::folders_at(objects, folder, 3);
        let list = probe::folders_to_list(objects, folder);
        let priority = probe::priority_of(objects[i].filename);
        let k = lemma_is_grouped(objects, folder, i);
        if priority == 0 {
            assert(list[k] == f0[k]);
        } else if priority == 1 {
            assert(list[f0.len() + k] == f1[k]);
        } else if priority == 2 {
            assert(list[f0.len() + f1.len() + k] == f2[k]);
        } else {
            assert(list[f0.len() + f1.len() + f2.len() + k] == f3[k]);
        }
    }
}

proof fn lemma_is_grouped(objects: Seq<ObjectInfoView>, folder: ProbeFolderView, i: int) -> (k: int)
    requires
        0 <= i < objects.len(),
        objects[i].format == 0x3001,
    ensures
        ({
            let group = probe::folders_at(objects, folder, probe::priority_of(objects[i].filename));
            &&& 0 <= k < group.len()
            &&& group[k].parent == Some(objects[i].handle)
            &&& group[k].depth == folder.depth + 1
            &&& group[k].prefix == folder.prefix + seq!['/'] + objects[i].filename
        }),
    decreases objects.len(),
{
    reveal_strlit("/");
    assert("/"@ =~= seq!['/']);
    let fewer = objects.drop_last();
    let priority = probe::priority_of(objects[i].filename);
    if i < fewer.len() {
        assert(fewer[i] == objects[i]);
        let k = lemma_is_grouped(fewer, folder, i);
        assert(probe::folders_at(objects, folder, priority)[k] == probe::folders_at(fewer, folder, priority)[k]);
        k
    } else {
        probe::folders_at(fewer, folder, priority).len() as int
    }
}

} // verus!
