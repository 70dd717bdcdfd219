//! The virtual device that the command line can be tried out on.

use vstd::prelude::*;

use crate::outside;
use crate::search;
use crate::text;
use crate::transport::virtual_device::config::{
    VirtualDeviceConfig, VirtualDeviceConfigView, VirtualStorageConfig, VirtualStorageConfigView,
};

verus! {

/// Whether a character is white space, by Unicode's property of that name.
pub open spec fn is_white_space(c: char) -> bool {
    ||| '\u{9}' <= c <= '\u{d}'
    ||| c == ' '
    ||| c == '\u{85}'
    ||| c == '\u{a0}'
    ||| c == '\u{1680}'
    ||| '\u{2000}' <= c <= '\u{200a}'
    ||| c == '\u{2028}'
    ||| c == '\u{2029}'
    ||| c == '\u{202f}'
    ||| c == '\u{205f}'
    ||| c == '\u{3000}'
}

/// Whether a character is white space.
fn white_space(c: char) -> (r: bool)
    ensures
        r == is_white_space(c),
{
    ('\u{9}' <= c && c <= '\u{d}') || c == ' ' || c == '\u{85}' || c == '\u{a0}' || c == '\u{1680}'
        || ('\u{2000}' <= c && c <= '\u{200a}') || c == '\u{2028}' || c == '\u{2029}' || c
        == '\u{202f}' || c == '\u{205f}' || c == '\u{3000}'
}

/// A text without the white space around it.
pub open spec fn trimmed(s: Seq<char>) -> Seq<char>
    decreases s.len(),
{
    if s.len() == 0 {
        s
    } else if is_white_space(s[0]) {
        trimmed(s.skip(1))
    } else if is_white_space(s.last()) {
        trimmed(s.drop_last())
    } else {
        s
    }
}

/// A part of a list, unless it is empty.
pub open spec fn kept(part: Seq<char>) -> Seq<Seq<char>> {
    if part.len() == 0 {
        Seq::empty()
    } else {
        seq![part]
    }
}

/// The parts of a comma-separated list that hold more than white space, without the white space around
/// them.
pub open spec fn list_parts(s: Seq<char>) -> Seq<Seq<char>>
    decreases s.len(),
{
    match search::first_where(s, |c: char| c == ',') {
        Some(i) => if 0 <= i < s.len() {
            kept(trimmed(s.take(i))) + list_parts(s.skip(i + 1))
        } else {
            Seq::empty()
        },
        None => kept(trimmed(s)),
    }
}

/// The characters `from` up to `to` of a text, without the white space around them.
fn trimmed_part(s: &str, chars: &Vec<char>, from: usize, to: usize) -> (r: String)
    requires
        chars@ == s@,
        from <= to <= s@.len(),
    ensures
        r@ == trimmed(s@.subrange(from as int, to as int)),
{
    let mut first: usize = from;
    let mut end: usize = to;
    while first < end && white_space(chars[first])
        invariant
            chars@ == s@,
            from <= first <= end <= to <= s@.len(),
            end == to,
            trimmed(s@.subrange(first as int, end as int)) == trimmed(
                s@.subrange(from as int, to as int),
            ),
        decreases end - first,
    {
        assert(s@.subrange(first as int, end as int).skip(1) =~= s@.subrange(first + 1, end as int));
        first = first + 1;
    }
    while first < end && white_space(chars[end - 1])
        invariant
            chars@ == s@,
            from <= first <= end <= to <= s@.len(),
            first < end ==> !is_white_space(s@[first as int]),
            trimmed(s@.subrange(first as int, end as int)) == trimmed(
                s@.subrange(from as int, to as int),
            ),
        decreases end - first,
    {
        assert(s@.subrange(first as int, end as int).drop_last() =~= s@.subrange(
            first as int,
            end - 1,
        ));
        end = end - 1;
    }
    s.substring_char(first, end).to_owned()
}

/// Keep a part of a list, unless it is empty.
fn keep(parts: &mut Vec<String>, part: String)
    ensures
        text::views(final(parts)@) == text::views(old(parts)@) + kept(part@),
{
    if part.as_str().unicode_len() > 0 {
        text::push_text(parts, part);
        assert(text::views(parts@) =~= text::views(old(parts)@) + kept(part@));
    } else {
        assert(text::views(parts@) =~= text::views(old(parts)@) + kept(part@));
    }
}

/// Split a comma-separated list into its parts.
pub fn split_list(s: &str) -> (r: Vec<String>)
    ensures
        text::views(r@) == list_parts(s@),
{
    let chars = text::chars_of(s);
    let ghost comma = |c: char| c == ',';
    let mut parts: Vec<String> = Vec::new();
    let mut start: usize = 0;
    let mut i: usize = 0;
    proof {
        assert(s@.skip(0) =~= s@);
        assert(text::views(parts@) + list_parts(s@.skip(0)) =~= list_parts(s@));
    }
    while i < chars.len()
        invariant
            chars@ == s@,
            start <= i <= chars@.len(),
            comma == (|c: char| c == ','),
            forall|k: int| start <= k < i ==> #[trigger] s@[k] != ',',
            text::views(parts@) + list_parts(s@.skip(start as int)) == list_parts(s@),
        decreases chars.len() - i,
    {
        if chars[i] == ',' {
            let ghost rest = s@.skip(start as int);
            let ghost before = text::views(parts@);
            proof {
                assert(comma(rest[i - start]));
                assert forall|k: int| 0 <= k < i - start implies !comma(#[trigger] rest[k]) by {
                    assert(rest[k] == s@[start + k]);
                }
                search::lemma_first_where_at(rest, comma, i - start);
                assert(rest.take(i - start) =~= s@.subrange(start as int, i as int));
                assert(rest.skip(i - start + 1) =~= s@.skip(i + 1));
            }
            let part = trimmed_part(s, &chars, start, i);
            let ghost piece = kept(part@);
            keep(&mut parts, part);
            start = i + 1;
            assert(text::views(parts@) + list_parts(s@.skip(start as int)) =~= before + (piece
                + list_parts(s@.skip(start as int))));
        }
        i = i + 1;
    }
    let ghost rest = s@.skip(start as int);
    proof {
        assert forall|k: int| 0 <= k < rest.len() implies !comma(#[trigger] rest[k]) by {
            assert(rest[k] == s@[start + k]);
        }
        search::lemma_first_where_none(rest, comma);
        assert(rest =~= s@.subrange(start as int, i as int));
    }
    let part = trimmed_part(s, &chars, start, i);
    keep(&mut parts, part);
    parts
}

/// How much the test device's storage holds.
pub const TEST_STORAGE_CAPACITY: u64 = 67_108_864;

/// The test device: one writable storage over a directory, under a serial number of its own unless one is
/// given, with the objects it refuses to describe in a comma-separated list.
pub fn test_device_config(root: &str, serial: Option<&str>, unreadable: Option<&str>) -> (r:
    VirtualDeviceConfig)
    ensures
        r@ == (VirtualDeviceConfigView {
            manufacturer: "TestCorp"@,
            model: "CLI Test Device"@,
            serial: match serial {
                Some(serial) => serial@,
                None => "mtp-rs-cli-test"@,
            },
            storages: seq![
                VirtualStorageConfigView {
                    description: "Internal Storage"@,
                    capacity: TEST_STORAGE_CAPACITY,
                    backing_dir: root@,
                    read_only: false,
                },
            ],
            supports_rename: true,
            supports_partial_object_64: true,
            event_poll_interval: outside::milliseconds(0),
            watch_backing_dirs: false,
            undescribable_objects: match unreadable {
                Some(list) => list_parts(list@),
                None => Seq::empty(),
            },
        }),
{
    let storage = VirtualStorageConfig {
        description: "Internal Storage".to_owned(),
        capacity: TEST_STORAGE_CAPACITY,
        backing_dir: root.to_owned(),
        read_only: false,
    };
    let ghost view = storage@;
    let mut storages: Vec<VirtualStorageConfig> = Vec::new();
    storages.push(storage);
    let undescribable_objects = match unreadable {
        Some(list) => split_list(list),
        None => Vec::new(),
    };
    let mut r = VirtualDeviceConfig::default();
    r.manufacturer = "TestCorp".to_owned();
    r.model = "CLI Test Device".to_owned();
    r.serial = match serial {
        Some(serial) => serial.to_owned(),
        None => "mtp-rs-cli-test".to_owned(),
    };
    r.storages = storages;
    r.event_poll_interval = outside::from_millis(0);
    r.watch_backing_dirs = false;
    r.undescribable_objects = undescribable_objects;
    assert(r@.storages =~= seq![view]);
    assert(unreadable is None ==> r@.undescribable_objects =~= Seq::empty());
    r
}

} // verus!
