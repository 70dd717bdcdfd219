//! `get`: downloading a file, or a folder and everything below it.

use vstd::prelude::*;

use crate::cli::commands::folder_plan;
use crate::cli::commands::folder_plan::{SkippedRow, SkippedRowView};
use crate::cli::error;
use crate::cli::error::{CliError, CliErrorKind, CliErrorView};
use crate::mtp::error::{Error, ErrorView};
use crate::mtp::types::ObjectInfo;
use crate::text;

verus! {

/// What stands at a local path.
#[derive(Debug)]
pub enum Destination {
    Missing,
    File,
    Directory,
    /// It could not be found out, and why.
    Unknown(String),
}

/// A [`Destination`] with its text as a sequence of characters.
pub enum DestinationView {
    Missing,
    File,
    Directory,
    Unknown(Seq<char>),
}

impl View for Destination {
    type V = DestinationView;

    open spec fn view(&self) -> DestinationView {
        match self {
            Destination::Missing => DestinationView::Missing,
            Destination::File => DestinationView::File,
            Destination::Directory => DestinationView::Directory,
            Destination::Unknown(reason) => DestinationView::Unknown(reason@),
        }
    }
}

/// A local file operation that failed: the path as shown, and why.
#[derive(Debug)]
pub struct LocalFailure {
    pub path: String,
    pub reason: String,
}

/// A [`LocalFailure`] with its texts as sequences of characters.
pub struct LocalFailureView {
    pub path: Seq<char>,
    pub reason: Seq<char>,
}

impl View for LocalFailure {
    type V = LocalFailureView;

    open spec fn view(&self) -> LocalFailureView {
        LocalFailureView { path: self.path@, reason: self.reason@ }
    }
}

/// A failure that is about local files.
pub open spec fn local_error(message: Seq<char>) -> CliErrorView {
    CliErrorView::Plain { kind: CliErrorKind::Other, message }
}

/// A failure in the middle of a transfer.
pub open spec fn transfer_error(message: Seq<char>) -> CliErrorView {
    CliErrorView::Plain { kind: CliErrorKind::Transfer, message }
}

/// A text with a reason behind it.
fn with_reason(what: &str, reason: &str) -> (r: String)
    ensures
        r@ == what@ + reason@,
{
    let mut r = what.to_owned();
    r.append(reason);
    r
}

/// A text with a path and a reason behind it.
fn about_path(what: &str, path: &str, reason: &str) -> (r: String)
    ensures
        r@ == what@ + path@ + ": "@ + reason@,
{
    let mut r = what.to_owned();
    r.append(path);
    r.append(": ");
    r.append(reason);
    r
}

/// Whether the destination of the whole command may be written, before a device is opened.
pub open spec fn new_destination(exists: Result<bool, Seq<char>>, replace: bool) -> Result<
    (),
    CliErrorView,
> {
    match exists {
        Err(reason) => Err(local_error("check local path: "@ + reason)),
        Ok(exists) => if exists && !replace {
            Err(local_error("local path already exists; pass --replace to overwrite it"@))
        } else {
            Ok(())
        },
    }
}

/// Refuse a destination that exists, unless it may be replaced.
pub fn check_new_destination(exists: Result<bool, String>, replace: bool) -> (r: Result<
    (),
    CliError,
>)
    ensures
        error::cli_outcome(r) == new_destination(
            match exists {
                Ok(b) => Ok(b),
                Err(reason) => Err(reason@),
            },
            replace,
        ),
{
    match exists {
        Err(reason) => Err(
            CliError::Plain {
                kind: CliErrorKind::Other,
                message: with_reason("check local path: ", reason.as_str()),
            },
        ),
        Ok(exists) => {
            if exists && !replace {
                Err(
                    CliError::new(
                        CliErrorKind::Other,
                        "local path already exists; pass --replace to overwrite it",
                    ),
                )
            } else {
                Ok(())
            }
        },
    }
}

/// Whether what was found, `None` for the storage root, is downloaded as a folder.
pub fn is_folder_download(object: &Option<ObjectInfo>) -> (r: bool)
    ensures
        r == (match object {
            None => true,
            Some(object) => object@.is_folder(),
        }),
{
    match object {
        None => true,
        Some(object) => object.is_folder(),
    }
}

/// Whether the folder to download into exists already. Only a file in its place is refused: a path that
/// cannot be read counts as missing, and creating it then says why.
pub fn root_existed(at: &Destination) -> (r: Result<bool, CliError>)
    ensures
        error::cli_outcome(r) == (match at@ {
            DestinationView::File => Err(
                local_error("remote path is a folder but the local path is not a directory"@),
            ),
            DestinationView::Directory => Ok(true),
            _ => Ok(false),
        }),
{
    match at {
        Destination::File => Err(
            CliError::new(
                CliErrorKind::Other,
                "remote path is a folder but the local path is not a directory",
            ),
        ),
        Destination::Directory => Ok(true),
        Destination::Missing => Ok(false),
        Destination::Unknown(_) => Ok(false),
    }
}

/// The remote path that a folder's own paths start with.
pub open spec fn remote_root_of(components: Seq<Seq<char>>) -> Seq<char> {
    if components.len() == 0 {
        "/"@
    } else {
        "/"@ + text::joined(components, "/"@)
    }
}

/// Write the remote path that a folder's own paths start with, from its components; the storage root has
/// none.
pub fn remote_root(components: &Vec<String>) -> (r: String)
    ensures
        r@ == remote_root_of(text::views(components@)),
{
    let mut r = "/".to_owned();
    if components.len() > 0 {
        r.append(text::join(components, "/").as_str());
    }
    r
}

/// The warning about objects that could not be read: how many, and then each.
pub open spec fn skipped_lines(rows: Seq<SkippedRowView>) -> Seq<Seq<char>> {
    if rows.len() == 0 {
        Seq::empty()
    } else {
        seq![
            "warning: "@ + folder_plan::counted(rows.len(), "object"@) + " could not be read and "@
                + (if rows.len() == 1 {
                "was"@
            } else {
                "were"@
            }) + " not downloaded:"@,
        ] + rows.map_values(
            |row: SkippedRowView|
                "  "@ + row.remote_folder + " handle="@ + text::decimal(row.handle as nat) + " "@
                    + row.error,
        )
    }
}

/// Write the warning about objects that could not be read.
pub fn skipped_warning(rows: &Vec<SkippedRow>) -> (r: Vec<String>)
    ensures
        text::views(r@) == skipped_lines(folder_plan::skipped_row_views(rows@)),
{
    let ghost views = folder_plan::skipped_row_views(rows@);
    let mut r: Vec<String> = Vec::new();
    if rows.len() == 0 {
        assert(text::views(r@) =~= skipped_lines(views));
        return r;
    }
    let mut first = "warning: ".to_owned();
    first.append(folder_plan::count(rows.len(), "object").as_str());
    first.append(" could not be read and ");
    if rows.len() == 1 {
        first.append("was");
    } else {
        first.append("were");
    }
    first.append(" not downloaded:");
    text::push_text(&mut r, first);
    assert(text::views(r@) =~= skipped_lines(views).take(1));
    let mut i: usize = 0;
    while i < rows.len()
        invariant
            i <= rows@.len(),
            rows@.len() > 0,
            views == folder_plan::skipped_row_views(rows@),
            text::views(r@) == skipped_lines(views).take(1 + i),
        decreases rows.len() - i,
    {
        let mut line = "  ".to_owned();
        line.append(rows[i].remote_folder.as_str());
        line.append(" handle=");
        line.append(text::write_decimal(rows[i].handle).as_str());
        line.append(" ");
        line.append(rows[i].error.as_str());
        assert(views[i as int] == rows@[i as int]@);
        assert(line@ == skipped_lines(views)[1 + i]);
        text::push_text(&mut r, line);
        i = i + 1;
        assert(text::views(r@) =~= skipped_lines(views).take(1 + i));
    }
    assert(skipped_lines(views).take(1 + i) =~= skipped_lines(views));
    r
}

/// The name of the temporary file that a download is written to, beside its destination.
pub fn temp_file_name(name: Option<&str>, nonce: u128, process: u32) -> (r: String)
    ensures
        r@ == "."@ + (match name {
            Some(name) => name@,
            None => "download"@,
        }) + ".mtp-rs-"@ + text::decimal(nonce as nat) + "-"@ + text::decimal(process as nat)
            + ".tmp"@,
{
    let mut r = ".".to_owned();
    match name {
        Some(name) => {
            r.append(name);
        },
        None => {
            r.append("download");
        },
    }
    r.append(".mtp-rs-");
    r.append(text::write_numeral(nonce, 10).as_str());
    r.append("-");
    r.append(text::write_decimal(process as u64).as_str());
    r.append(".tmp");
    r
}

/// What follows the words in the name of the case probe.
pub open spec fn probe_suffix(nonce: nat, process: nat) -> Seq<char> {
    text::decimal(nonce) + "-"@ + text::decimal(process)
}

/// The name of the file that shows whether a folder tells names apart by case.
pub open spec fn probe_name(nonce: nat, process: nat) -> Seq<char> {
    ".mtp-rs-case-probe-"@ + probe_suffix(nonce, process)
}

/// A probe's number stays as it is in upper case.
proof fn lemma_suffix_has_no_case(nonce: nat, process: nat)
    ensures
        text::ascii_uppercase(probe_suffix(nonce, process)) == probe_suffix(nonce, process),
{
    text::lemma_numeral_digits(nonce, 10);
    text::lemma_numeral_digits(process, 10);
    reveal_strlit("-");
    let s = probe_suffix(nonce, process);
    let a = text::decimal(nonce);
    let b = text::decimal(process);
    assert forall|i: int| 0 <= i < s.len() implies text::ascii_upper(#[trigger] s[i]) == s[i] by {
        if i < a.len() {
            assert(text::is_digit(text::numeral(nonce, 10)[i], 10));
            assert(s[i] == a[i]);
        } else if i > a.len() {
            assert(text::is_digit(text::numeral(process, 10)[i - a.len() - 1], 10));
            assert(s[i] == b[i - a.len() - 1]);
        }
    }
    assert(text::ascii_uppercase(s) =~= s);
}

/// Write the part of a probe's name that follows the words.
fn write_probe_suffix(nonce: u128, process: u32) -> (r: String)
    ensures
        r@ == probe_suffix(nonce as nat, process as nat),
{
    let mut r = text::write_numeral(nonce, 10);
    r.append("-");
    r.append(text::write_decimal(process as u64).as_str());
    r
}

/// The name of the file that shows whether a folder tells names apart by case.
pub fn case_probe_name(nonce: u128, process: u32) -> (r: String)
    ensures
        r@ == probe_name(nonce as nat, process as nat),
{
    let mut r = ".mtp-rs-case-probe-".to_owned();
    r.append(write_probe_suffix(nonce, process).as_str());
    r
}

/// The same name in upper case, which is looked for while the file is there.
pub fn case_probe_upper_name(nonce: u128, process: u32) -> (r: String)
    ensures
        r@ == text::ascii_uppercase(probe_name(nonce as nat, process as nat)),
{
    let mut r = ".MTP-RS-CASE-PROBE-".to_owned();
    r.append(write_probe_suffix(nonce, process).as_str());
    proof {
        reveal_strlit(".mtp-rs-case-probe-");
        reveal_strlit(".MTP-RS-CASE-PROBE-");
        let suffix = probe_suffix(nonce as nat, process as nat);
        lemma_suffix_has_no_case(nonce as nat, process as nat);
        assert(text::ascii_uppercase(".mtp-rs-case-probe-"@) =~= ".MTP-RS-CASE-PROBE-"@);
        assert(text::ascii_uppercase(".mtp-rs-case-probe-"@ + suffix) =~= text::ascii_uppercase(
            ".mtp-rs-case-probe-"@,
        ) + text::ascii_uppercase(suffix));
    }
    r
}

/// The case probe asks a real question: its two names differ, though only in case.
pub proof fn law_case_probe_names_differ(nonce: nat, process: nat)
    ensures
        text::ascii_uppercase(probe_name(nonce, process)) != probe_name(nonce, process),
{
    reveal_strlit(".mtp-rs-case-probe-");
    let name = probe_name(nonce, process);
    assert(name[1] == 'm');
    assert(text::ascii_uppercase(name)[1] == 'M');
}

/// What the case probe found, once its file was made: whether the upper-case name was there too, unless
/// the file could not be removed again or the look itself failed.
pub fn case_probe_result(upper_exists: Result<bool, String>, removed: Result<(), String>) -> (r:
    Result<bool, String>)
    ensures
        r == (match removed {
            Err(reason) => Err(reason),
            Ok(_) => upper_exists,
        }),
{
    match removed {
        Err(reason) => Err(reason),
        Ok(_) => upper_exists,
    }
}

/// Whether a file's destination may be written, and whether something is there to be replaced.
pub open spec fn file_destination(at: DestinationView, path: Seq<char>, replace: bool) -> Result<
    bool,
    CliErrorView,
> {
    match at {
        DestinationView::Directory => Err(local_error("local path is a directory: "@ + path)),
        DestinationView::Unknown(reason) => Err(
            local_error("check local path "@ + path + ": "@ + reason),
        ),
        DestinationView::File => if replace {
            Ok(true)
        } else {
            Err(
                local_error(
                    "local file already exists; pass --replace to overwrite it: "@ + path,
                ),
            )
        },
        DestinationView::Missing => Ok(false),
    }
}

/// Refuse a file's destination that may not be written.
pub fn check_file_destination(at: &Destination, path: &str, replace: bool) -> (r: Result<
    bool,
    CliError,
>)
    ensures
        error::cli_outcome(r) == file_destination(at@, path@, replace),
{
    match at {
        Destination::Directory => Err(
            CliError::Plain {
                kind: CliErrorKind::Other,
                message: with_reason("local path is a directory: ", path),
            },
        ),
        Destination::Unknown(reason) => Err(
            CliError::Plain {
                kind: CliErrorKind::Other,
                message: about_path("check local path ", path, reason.as_str()),
            },
        ),
        Destination::File => {
            if replace {
                Ok(true)
            } else {
                Err(
                    CliError::Plain {
                        kind: CliErrorKind::Other,
                        message: with_reason(
                            "local file already exists; pass --replace to overwrite it: ",
                            path,
                        ),
                    },
                )
            }
        },
        Destination::Missing => Ok(false),
    }
}

/// What a file's download does next.
#[derive(Debug)]
pub enum FileAction {
    /// Create the temporary file. It comes before the download starts: failing after that would abandon
    /// a transfer the device is still sending.
    CreateTemp,
    StartDownload,
    NextChunk,
    WriteChunk,
    Flush,
    RemoveDestination,
    RenameTemp,
    /// Remove the temporary file, and fail.
    RemoveTemp(CliError),
    Fail(CliError),
    Done { bytes: u64 },
}

/// A [`FileAction`] with its errors as views.
pub enum FileActionView {
    CreateTemp,
    StartDownload,
    NextChunk,
    WriteChunk,
    Flush,
    RemoveDestination,
    RenameTemp,
    RemoveTemp(CliErrorView),
    Fail(CliErrorView),
    Done { bytes: u64 },
}

impl View for FileAction {
    type V = FileActionView;

    open spec fn view(&self) -> FileActionView {
        match self {
            FileAction::CreateTemp => FileActionView::CreateTemp,
            FileAction::StartDownload => FileActionView::StartDownload,
            FileAction::NextChunk => FileActionView::NextChunk,
            FileAction::WriteChunk => FileActionView::WriteChunk,
            FileAction::Flush => FileActionView::Flush,
            FileAction::RemoveDestination => FileActionView::RemoveDestination,
            FileAction::RenameTemp => FileActionView::RenameTemp,
            FileAction::RemoveTemp(e) => FileActionView::RemoveTemp(e@),
            FileAction::Fail(e) => FileActionView::Fail(e@),
            FileAction::Done { bytes } => FileActionView::Done { bytes: *bytes },
        }
    }
}

/// How a step of a file's download went.
#[derive(Debug)]
pub enum FileEvent {
    TempCreated(Result<(), LocalFailure>),
    Started(Result<(), Error>),
    Chunk(Result<(), Error>),
    /// No chunk is left; so many bytes were received.
    Ended { bytes: u64 },
    Written(Result<(), String>),
    Flushed(Result<(), String>),
    Removed(Result<(), String>),
    Renamed(Result<(), String>),
}

/// A [`FileEvent`] with its errors as views.
pub enum FileEventView {
    TempCreated(Result<(), LocalFailureView>),
    Started(Result<(), ErrorView>),
    Chunk(Result<(), ErrorView>),
    Ended { bytes: u64 },
    Written(Result<(), Seq<char>>),
    Flushed(Result<(), Seq<char>>),
    Removed(Result<(), Seq<char>>),
    Renamed(Result<(), Seq<char>>),
}

/// A step's result with its reason as a sequence of characters.
pub open spec fn reason_view(r: Result<(), String>) -> Result<(), Seq<char>> {
    match r {
        Ok(_) => Ok(()),
        Err(reason) => Err(reason@),
    }
}

impl View for FileEvent {
    type V = FileEventView;

    open spec fn view(&self) -> FileEventView {
        match self {
            FileEvent::TempCreated(r) => FileEventView::TempCreated(
                match r {
                    Ok(_) => Ok(()),
                    Err(e) => Err(e@),
                },
            ),
            FileEvent::Started(r) => FileEventView::Started(crate::mtp::error::outcome(*r)),
            FileEvent::Chunk(r) => FileEventView::Chunk(crate::mtp::error::outcome(*r)),
            FileEvent::Ended { bytes } => FileEventView::Ended { bytes: *bytes },
            FileEvent::Written(r) => FileEventView::Written(reason_view(*r)),
            FileEvent::Flushed(r) => FileEventView::Flushed(reason_view(*r)),
            FileEvent::Removed(r) => FileEventView::Removed(reason_view(*r)),
            FileEvent::Renamed(r) => FileEventView::Renamed(reason_view(*r)),
        }
    }
}

/// The download of one file through a temporary sibling, so that an interrupted transfer never destroys
/// a file that was already there.
#[derive(Debug)]
pub struct FileDownload {
    pub remote_path: String,
    /// Something stands at the destination, and is replaced once the download is complete.
    pub replaces: bool,
    pub bytes: u64,
    pub action: FileAction,
}

/// A [`FileDownload`] with its parts as views.
pub struct FileDownloadView {
    pub remote_path: Seq<char>,
    pub replaces: bool,
    pub bytes: u64,
    pub action: FileActionView,
}

impl View for FileDownload {
    type V = FileDownloadView;

    open spec fn view(&self) -> FileDownloadView {
        FileDownloadView {
            remote_path: self.remote_path@,
            replaces: self.replaces,
            bytes: self.bytes,
            action: self.action@,
        }
    }
}

/// Whether an event answers an action.
pub open spec fn answers(action: FileActionView, event: FileEventView) -> bool {
    match action {
        FileActionView::CreateTemp => event is TempCreated,
        FileActionView::StartDownload => event is Started,
        FileActionView::NextChunk => event is Chunk || event is Ended,
        FileActionView::WriteChunk => event is Written,
        FileActionView::Flush => event is Flushed,
        FileActionView::RemoveDestination => event is Removed,
        FileActionView::RenameTemp => event is Renamed,
        _ => false,
    }
}

/// The action after an event.
pub open spec fn after_event(d: FileDownloadView, event: FileEventView) -> FileActionView {
    match event {
        FileEventView::TempCreated(Ok(_)) => FileActionView::StartDownload,
        FileEventView::TempCreated(Err(e)) => FileActionView::Fail(
            local_error("create local file "@ + e.path + ": "@ + e.reason),
        ),
        FileEventView::Started(Ok(_)) => FileActionView::NextChunk,
        FileEventView::Started(Err(e)) => FileActionView::RemoveTemp(
            CliErrorView::Device { context: "start download of "@ + d.remote_path, source: e },
        ),
        FileEventView::Chunk(Ok(_)) => FileActionView::WriteChunk,
        FileEventView::Chunk(Err(e)) => FileActionView::RemoveTemp(
            CliErrorView::Device { context: "download "@ + d.remote_path, source: e },
        ),
        FileEventView::Ended { bytes } => FileActionView::Flush,
        FileEventView::Written(Ok(_)) => FileActionView::NextChunk,
        FileEventView::Written(Err(reason)) => FileActionView::RemoveTemp(
            transfer_error("write local file: "@ + reason),
        ),
        FileEventView::Flushed(Ok(_)) => if d.replaces {
            FileActionView::RemoveDestination
        } else {
            FileActionView::RenameTemp
        },
        FileEventView::Flushed(Err(reason)) => FileActionView::RemoveTemp(
            transfer_error("flush local file: "@ + reason),
        ),
        FileEventView::Removed(Ok(_)) => FileActionView::RenameTemp,
        FileEventView::Removed(Err(reason)) => FileActionView::Fail(
            local_error("replace local file: "@ + reason),
        ),
        FileEventView::Renamed(Ok(_)) => FileActionView::Done { bytes: d.bytes },
        FileEventView::Renamed(Err(reason)) => FileActionView::Fail(
            local_error("replace local file: "@ + reason),
        ),
    }
}

/// The download after an event.
pub open spec fn file_step(d: FileDownloadView, event: FileEventView) -> FileDownloadView {
    FileDownloadView {
        remote_path: d.remote_path,
        replaces: d.replaces,
        bytes: match event {
            FileEventView::Ended { bytes } => bytes,
            _ => d.bytes,
        },
        action: after_event(d, event),
    }
}

/// A download as it starts.
pub open spec fn fresh_download(remote_path: Seq<char>, replaces: bool) -> FileDownloadView {
    FileDownloadView { remote_path, replaces, bytes: 0, action: FileActionView::CreateTemp }
}

impl FileDownload {
    /// A download whose destination may be written.
    pub fn new(remote_path: String, replaces: bool) -> (r: Self)
        ensures
            r@ == fresh_download(remote_path@, replaces),
    {
        FileDownload { remote_path, replaces, bytes: 0, action: FileAction::CreateTemp }
    }

    /// Take how the action went, and settle the next one.
    pub fn step(&mut self, event: FileEvent)
        requires
            answers(old(self)@.action, event@),
        ensures
            final(self)@ == file_step(old(self)@, event@),
    {
        self.action = match event {
            FileEvent::TempCreated(r) => match r {
                Ok(_) => FileAction::StartDownload,
                Err(e) => FileAction::Fail(
                    CliError::Plain {
                        kind: CliErrorKind::Other,
                        message: about_path(
                            "create local file ",
                            e.path.as_str(),
                            e.reason.as_str(),
                        ),
                    },
                ),
            },
            FileEvent::Started(r) => match r {
                Ok(_) => FileAction::NextChunk,
                Err(e) => FileAction::RemoveTemp(
                    CliError::Device {
                        context: with_reason("start download of ", self.remote_path.as_str()),
                        source: e,
                    },
                ),
            },
            FileEvent::Chunk(r) => match r {
                Ok(_) => FileAction::WriteChunk,
                Err(e) => FileAction::RemoveTemp(
                    CliError::Device {
                        context: with_reason("download ", self.remote_path.as_str()),
                        source: e,
                    },
                ),
            },
            FileEvent::Ended { bytes } => {
                self.bytes = bytes;
                FileAction::Flush
            },
            FileEvent::Written(r) => match r {
                Ok(_) => FileAction::NextChunk,
                Err(reason) => FileAction::RemoveTemp(
                    CliError::Plain {
                        kind: CliErrorKind::Transfer,
                        message: with_reason("write local file: ", reason.as_str()),
                    },
                ),
            },
            FileEvent::Flushed(r) => match r {
                Ok(_) => if self.replaces {
                    FileAction::RemoveDestination
                } else {
                    FileAction::RenameTemp
                },
                Err(reason) => FileAction::RemoveTemp(
                    CliError::Plain {
                        kind: CliErrorKind::Transfer,
                        message: with_reason("flush local file: ", reason.as_str()),
                    },
                ),
            },
            FileEvent::Removed(r) => match r {
                Ok(_) => FileAction::RenameTemp,
                Err(reason) => FileAction::Fail(
                    CliError::Plain {
                        kind: CliErrorKind::Other,
                        message: with_reason("replace local file: ", reason.as_str()),
                    },
                ),
            },
            FileEvent::Renamed(r) => match r {
                Ok(_) => FileAction::Done { bytes: self.bytes },
                Err(reason) => FileAction::Fail(
                    CliError::Plain {
                        kind: CliErrorKind::Other,
                        message: with_reason("replace local file: ", reason.as_str()),
                    },
                ),
            },
        };
    }

    /// What the download came to, once it is over: the bytes written, or why it failed. Before that there
    /// is nothing to say.
    pub fn finish(self) -> (r: Option<Result<u64, CliError>>)
        ensures
            match self@.action {
                FileActionView::Done { bytes } => r matches Some(Ok(n)) && n == bytes,
                FileActionView::RemoveTemp(e) => r matches Some(Err(x)) && x@ == e,
                FileActionView::Fail(e) => r matches Some(Err(x)) && x@ == e,
                _ => r is None,
            },
    {
        match self.action {
            FileAction::Done { bytes } => Some(Ok(bytes)),
            FileAction::RemoveTemp(e) => Some(Err(e)),
            FileAction::Fail(e) => Some(Err(e)),
            _ => None,
        }
    }
}

/// Whether events, one after another, each answer the action before them.
pub open spec fn is_file_run(start: FileDownloadView, events: Seq<FileEventView>) -> bool
    decreases events.len(),
{
    events.len() == 0 || (is_file_run(start, events.drop_last()) && answers(
        file_run(start, events.drop_last()).action,
        events.last(),
    ))
}

/// The download after events, one after another.
pub open spec fn file_run(start: FileDownloadView, events: Seq<FileEventView>) -> FileDownloadView
    decreases events.len(),
{
    if events.len() == 0 {
        start
    } else {
        file_step(file_run(start, events.drop_last()), events.last())
    }
}

/// Whether an event says that all that was received is safely in the temporary file.
pub open spec fn is_complete(event: FileEventView) -> bool {
    event matches FileEventView::Flushed(Ok(_))
}

/// The destination is touched only when the whole download is safely in the temporary file: to remove it
/// or to rename onto it, or to be done, takes that everything received was flushed. And whenever the
/// temporary file is given up, nothing was removed from the destination.
pub proof fn law_destination_survives_interruption(
    remote_path: Seq<char>,
    replaces: bool,
    events: Seq<FileEventView>,
)
    requires
        is_file_run(fresh_download(remote_path, replaces), events),
    ensures
        ({
            let action = file_run(fresh_download(remote_path, replaces), events).action;
            &&& (action is RemoveDestination || action is RenameTemp || action is Done)
                ==> exists|i: int| 0 <= i < events.len() && is_complete(#[trigger] events[i])
            &&& action is RemoveTemp ==> forall|i: int|
                0 <= i < events.len() ==> !((#[trigger] events[i]) is Removed) && !(events[i] is Renamed)
            &&& action is RemoveDestination ==> replaces
        }),
{
    lemma_file_history(remote_path, replaces, events);
}

/// What a download's events tell about its action.
proof fn lemma_file_history(remote_path: Seq<char>, replaces: bool, events: Seq<FileEventView>)
    requires
        is_file_run(fresh_download(remote_path, replaces), events),
    ensures
        ({
            let d = file_run(fresh_download(remote_path, replaces), events);
            let action = d.action;
            &&& d.replaces == replaces
            &&& d.remote_path == remote_path
            &&& (action is RemoveDestination || action is RenameTemp || action is Done)
                ==> exists|i: int| 0 <= i < events.len() && is_complete(#[trigger] events[i])
            &&& !(action is RenameTemp || action is Done || action is Fail) ==> forall|i: int|
                0 <= i < events.len() ==> !((#[trigger] events[i]) is Removed) && !(events[i] is Renamed)
            &&& action is RemoveDestination ==> replaces
        }),
    decreases events.len(),
{
    if events.len() > 0 {
        let front = events.drop_last();
        lemma_file_history(remote_path, replaces, front);
        let before = file_run(fresh_download(remote_path, replaces), front);
        assert(forall|i: int| 0 <= i < front.len() ==> #[trigger] events[i] == front[i]);
        let last = events.last();
        assert(events[events.len() - 1] == last);
        if before.action is RemoveDestination || before.action is RenameTemp {
            let i = choose|i: int| 0 <= i < front.len() && is_complete(#[trigger] front[i]);
            assert(is_complete(events[i]));
        }
    }
}

} // verus!
