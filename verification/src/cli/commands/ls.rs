//! `ls`: listing a remote folder.

use vstd::prelude::*;

use crate::cli::error::{CliError, CliErrorView};
use crate::mtp::error;
use crate::mtp::error::Error;
use crate::mtp::storage::{ObjectCollection, ObjectCollectionView, SkippedObjectView};
use crate::mtp::types::ObjectInfoView;
use crate::text;

verus! {

/// An object as it is listed.
#[derive(Debug)]
pub struct ObjectRow {
    pub handle: u64,
    pub is_folder: bool,
    pub size: u64,
    pub filename: String,
}

/// An [`ObjectRow`] with its name as a sequence of characters.
pub struct ObjectRowView {
    pub handle: u64,
    pub is_folder: bool,
    pub size: u64,
    pub filename: Seq<char>,
}

impl View for ObjectRow {
    type V = ObjectRowView;

    open spec fn view(&self) -> ObjectRowView {
        ObjectRowView {
            handle: self.handle,
            is_folder: self.is_folder,
            size: self.size,
            filename: self.filename@,
        }
    }
}

/// One object the device listed but refused to describe.
#[derive(Debug)]
pub struct UnreadRow {
    pub handle: u64,
    pub error: String,
}

/// An [`UnreadRow`] with its text as a sequence of characters.
pub struct UnreadRowView {
    pub handle: u64,
    pub error: Seq<char>,
}

impl View for UnreadRow {
    type V = UnreadRowView;

    open spec fn view(&self) -> UnreadRowView {
        UnreadRowView { handle: self.handle, error: self.error@ }
    }
}

/// A folder's listing.
#[derive(Debug)]
pub struct LsRow {
    pub path: String,
    pub recursive: bool,
    pub objects: Vec<ObjectRow>,
    /// Handles the device enumerated but would not describe.
    pub skipped: Vec<UnreadRow>,
}

/// An [`LsRow`] with its parts as views.
pub struct LsRowView {
    pub path: Seq<char>,
    pub recursive: bool,
    pub objects: Seq<ObjectRowView>,
    pub skipped: Seq<UnreadRowView>,
}

/// Rows as views.
pub open spec fn row_views(rows: Seq<ObjectRow>) -> Seq<ObjectRowView> {
    rows.map_values(|row: ObjectRow| row@)
}

/// Rows about unread objects as views.
pub open spec fn unread_views(rows: Seq<UnreadRow>) -> Seq<UnreadRowView> {
    rows.map_values(|row: UnreadRow| row@)
}

impl View for LsRow {
    type V = LsRowView;

    open spec fn view(&self) -> LsRowView {
        LsRowView {
            path: self.path@,
            recursive: self.recursive,
            objects: row_views(self.objects@),
            skipped: unread_views(self.skipped@),
        }
    }
}

/// An object as it is listed.
pub open spec fn row_of(o: ObjectInfoView) -> ObjectRowView {
    ObjectRowView {
        handle: o.handle.0,
        is_folder: o.is_folder(),
        size: o.size,
        filename: o.filename,
    }
}

/// An object that could not be read, as it is listed.
pub open spec fn unread_of(s: SkippedObjectView) -> UnreadRowView {
    UnreadRowView { handle: s.handle.0, error: error::error_text(s.error) }
}

/// A listing's rows.
pub open spec fn ls_row(path: Seq<char>, recursive: bool, found: ObjectCollectionView) -> LsRowView {
    LsRowView {
        path,
        recursive,
        objects: found.objects.map_values(|o: ObjectInfoView| row_of(o)),
        skipped: found.skipped.map_values(|s: SkippedObjectView| unread_of(s)),
    }
}

impl LsRow {
    /// The rows of a folder's listing, or why it would not list.
    pub fn new(path: String, recursive: bool, listing: Result<ObjectCollection, Error>) -> (r: Result<
        Self,
        CliError,
    >)
        ensures
            match listing {
                Ok(found) => r matches Ok(row) && row@ == ls_row(path@, recursive, found@),
                Err(e) => r matches Err(x) && x@ == (CliErrorView::Device {
                    context: "list remote folder"@,
                    source: e@,
                }),
            },
    {
        let found = match listing {
            Ok(found) => found,
            Err(e) => {
                return Err(CliError::from_mtp("list remote folder", e));
            },
        };
        let ghost expected = ls_row(path@, recursive, found@);
        let mut objects: Vec<ObjectRow> = Vec::new();
        let mut i: usize = 0;
        while i < found.objects.len()
            invariant
                i <= found.objects@.len(),
                objects@.len() == i,
                expected == ls_row(path@, recursive, found@),
                forall|k: int| 0 <= k < i ==> (#[trigger] objects@[k])@ == expected.objects[k],
            decreases found.objects.len() - i,
        {
            let o = &found.objects[i];
            assert(o@ == found@.objects[i as int]);
            objects.push(
                ObjectRow {
                    handle: o.handle.0,
                    is_folder: o.is_folder(),
                    size: o.size,
                    filename: o.filename.clone(),
                },
            );
            i = i + 1;
        }
        let mut skipped: Vec<UnreadRow> = Vec::new();
        let mut k: usize = 0;
        while k < found.skipped.len()
            invariant
                k <= found.skipped@.len(),
                skipped@.len() == k,
                expected == ls_row(path@, recursive, found@),
                forall|j: int| 0 <= j < k ==> (#[trigger] skipped@[j])@ == expected.skipped[j],
            decreases found.skipped.len() - k,
        {
            assert(found.skipped@[k as int]@ == found@.skipped[k as int]);
            skipped.push(
                UnreadRow {
                    handle: found.skipped[k].handle.0,
                    error: found.skipped[k].error.describe(),
                },
            );
            k = k + 1;
        }
        assert(row_views(objects@) =~= expected.objects);
        assert(unread_views(skipped@) =~= expected.skipped);
        Ok(LsRow { path, recursive, objects, skipped })
    }

    /// The warning about objects that could not be read, for both forms of output.
    pub fn warnings(&self) -> (r: Vec<String>)
        ensures
            text::views(r@) == warning_lines(self@.skipped),
    {
        let ghost rows = self@.skipped;
        let mut r: Vec<String> = Vec::new();
        if self.skipped.len() == 0 {
            assert(text::views(r@) =~= warning_lines(rows));
            return r;
        }
        let one = self.skipped.len() == 1;
        let mut first = "warning: ".to_owned();
        first.append(text::write_count(self.skipped.len()).as_str());
        first.append(" object");
        if one {
            first.append("");
        } else {
            first.append("s");
        }
        first.append(" could not be read and ");
        if one {
            first.append("was");
        } else {
            first.append("were");
        }
        first.append(" left out:");
        text::push_text(&mut r, first);
        assert(text::views(r@) =~= warning_lines(rows).take(1));
        let mut i: usize = 0;
        while i < self.skipped.len()
            invariant
                i <= self.skipped@.len(),
                self.skipped@.len() > 0,
                rows == self@.skipped,
                text::views(r@) == warning_lines(rows).take(1 + i),
            decreases self.skipped.len() - i,
        {
            let mut line = "  handle=".to_owned();
            line.append(text::write_decimal(self.skipped[i].handle).as_str());
            line.append(" ");
            line.append(self.skipped[i].error.as_str());
            assert(rows[i as int] == self.skipped@[i as int]@);
            assert(line@ == warning_lines(rows)[1 + i]);
            text::push_text(&mut r, line);
            i = i + 1;
            assert(text::views(r@) =~= warning_lines(rows).take(1 + i));
        }
        assert(warning_lines(rows).take(1 + i) =~= warning_lines(rows));
        r
    }

    /// The listing itself, a line for each object.
    pub fn lines(&self) -> (r: Vec<String>)
        ensures
            text::views(r@) == self@.objects.map_values(|row: ObjectRowView| object_line(row)),
    {
        let ghost expected = self@.objects.map_values(|row: ObjectRowView| object_line(row));
        let mut r: Vec<String> = Vec::new();
        let mut i: usize = 0;
        assert(text::views(r@) =~= expected.take(0));
        while i < self.objects.len()
            invariant
                i <= self.objects@.len(),
                expected == self@.objects.map_values(|row: ObjectRowView| object_line(row)),
                text::views(r@) == expected.take(i as int),
            decreases self.objects.len() - i,
        {
            let row = &self.objects[i];
            proof {
                reveal_strlit(" ");
            }
            let mut line = if row.is_folder {
                "DIR ".to_owned()
            } else {
                "FILE".to_owned()
            };
            line.append(" ");
            line.append(text::pad_left(text::write_decimal(row.size).as_str(), " ", 12).as_str());
            line.append(" handle=");
            line.append(text::write_decimal(row.handle).as_str());
            line.append(" ");
            line.append(row.filename.as_str());
            assert(row@ == self@.objects[i as int]);
            assert(line@ == expected[i as int]);
            text::push_text(&mut r, line);
            i = i + 1;
            assert(text::views(r@) =~= expected.take(i as int));
        }
        assert(expected.take(i as int) =~= expected);
        r
    }
}

/// The warning about objects that could not be read: how many, and then each.
pub open spec fn warning_lines(rows: Seq<UnreadRowView>) -> Seq<Seq<char>> {
    if rows.len() == 0 {
        Seq::empty()
    } else {
        seq![
            "warning: "@ + text::decimal(rows.len()) + " object"@ + (if rows.len() == 1 {
                ""@
            } else {
                "s"@
            }) + " could not be read and "@ + (if rows.len() == 1 {
                "was"@
            } else {
                "were"@
            }) + " left out:"@,
        ] + rows.map_values(
            |row: UnreadRowView|
                "  handle="@ + text::decimal(row.handle as nat) + " "@ + row.error,
        )
    }
}

/// The line that lists an object: its size stands flush right in twelve columns.
pub open spec fn object_line(row: ObjectRowView) -> Seq<char> {
    (if row.is_folder {
        "DIR "@
    } else {
        "FILE"@
    }) + " "@ + text::padded(text::decimal(row.size as nat), ' ', 12) + " handle="@ + text::decimal(
        row.handle as nat,
    ) + " "@ + row.filename
}

/// A listing is never short without saying so: as many rows and reported objects as the device
/// enumerated.
pub proof fn law_a_short_listing_says_so(path: Seq<char>, recursive: bool, found: ObjectCollectionView)
    ensures
        ls_row(path, recursive, found).objects.len() == found.objects.len(),
        ls_row(path, recursive, found).skipped.len() == found.skipped.len(),
        found.skipped.len() > 0 ==> warning_lines(ls_row(path, recursive, found).skipped).len() == 1
            + found.skipped.len(),
{
}

} // verus!
