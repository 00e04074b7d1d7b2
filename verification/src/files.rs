//! The decisions of the file manager.
//!
//! Every operation works on a path that was resolved under the root
//! before. The filesystem is probed and changed by the caller; what is
//! decided from the probes, and what is made of the results, stands here.

use vstd::prelude::*;
use crate::models::{DirectoryContents, FileItem};
use crate::order::{is_ranked, lemma_lex_total, lemma_lex_transitive, lex_le, ranked_order,
    sort_ranked, str_le, Ranked};
use crate::paths::{file_candidate, file_path_candidate, path_is};
use crate::text::{append_str, decimal, decimal_chars, string_of};
use crate::validation::ValidationError;

verus! {

/// Why a file operation is refused.
#[derive(Clone, Copy, Debug, PartialEq, Eq, Structural)]
pub enum FileError {
    /// The directory to list does not exist.
    DirectoryMissing,
    /// The path to list is not a directory.
    NotADirectory,
    /// The file or folder to delete does not exist.
    TargetMissing,
    /// The source of a rename or move does not exist.
    SourceMissing,
    /// The destination of a rename or move exists already.
    DestinationExists,
    /// An upload held no file.
    NoFilesUploaded,
    /// The file to download does not exist or is no regular file.
    FileMissing,
}

/// The message of a refusal.
pub open spec fn file_error_text(e: FileError) -> Seq<char> {
    match e {
        FileError::DirectoryMissing => "Directory does not exist"@,
        FileError::NotADirectory => "Path is not a directory"@,
        FileError::TargetMissing => "File or folder does not exist"@,
        FileError::SourceMissing => "Source file or folder does not exist"@,
        FileError::DestinationExists => "Destination already exists"@,
        FileError::NoFilesUploaded => "No files found in upload"@,
        FileError::FileMissing => "File does not exist"@,
    }
}

impl FileError {
    /// The message that the administrator is shown.
    pub fn message(&self) -> (m: String)
        ensures
            m@ == file_error_text(*self),
    {
        match self {
            FileError::DirectoryMissing => String::from_str("Directory does not exist"),
            FileError::NotADirectory => String::from_str("Path is not a directory"),
            FileError::TargetMissing => String::from_str("File or folder does not exist"),
            FileError::SourceMissing => String::from_str("Source file or folder does not exist"),
            FileError::DestinationExists => String::from_str("Destination already exists"),
            FileError::NoFilesUploaded => String::from_str("No files found in upload"),
            FileError::FileMissing => String::from_str("File does not exist"),
        }
    }
}

impl Ranked for FileItem {
    /// Directories stand before files; within each group the names ascend.
    open spec fn precedes(&self, other: &Self) -> bool {
        (self.is_directory && !other.is_directory) || (self.is_directory == other.is_directory
            && lex_le(self.name@, other.name@))
    }

    fn stands_before(&self, other: &Self) -> (r: bool) {
        if self.is_directory != other.is_directory {
            self.is_directory
        } else {
            str_le(self.name.as_str(), other.name.as_str())
        }
    }

    proof fn lemma_total(a: &Self, b: &Self) {
        lemma_lex_total(a.name@, b.name@);
    }

    proof fn lemma_transitive(a: &Self, b: &Self, c: &Self) {
        if a.is_directory == b.is_directory && b.is_directory == c.is_directory {
            lemma_lex_transitive(a.name@, b.name@, c.name@);
        }
    }
}

/// Lists a directory from what the filesystem told of it: whether the path
/// exists and is a directory, its parent, and its immediate children in any
/// order. The children come out with directories first and names ascending.
pub fn list_directory_contents(
    dir_path: &str,
    present: bool,
    is_directory: bool,
    parent_path: Option<String>,
    entries: Vec<FileItem>,
) -> (r: Result<DirectoryContents, FileError>)
    ensures
        !present ==> r == Err::<DirectoryContents, FileError>(FileError::DirectoryMissing),
        present && !is_directory ==> r == Err::<DirectoryContents, FileError>(
            FileError::NotADirectory,
        ),
        present && is_directory ==> (r matches Ok(listing) && listing.current_path@ == dir_path@
            && listing.parent_path == parent_path && listing.items@ == ranked_order(entries@)
            && is_ranked(listing.items@)
            && listing.items@.to_multiset() == entries@.to_multiset() && listing.items@.len()
            == entries@.len()),
{
    if !present {
        return Err(FileError::DirectoryMissing);
    }
    if !is_directory {
        return Err(FileError::NotADirectory);
    }
    Ok(
        DirectoryContents {
            current_path: String::from_str(dir_path),
            parent_path,
            items: sort_ranked(entries),
        },
    )
}

/// How a target is removed.
#[derive(Clone, Copy, Debug, PartialEq, Eq, Structural)]
pub enum DeleteAction {
    /// Remove the directory and everything under it.
    RemoveTree,
    /// Remove the file.
    RemoveFile,
}

/// Decides a deletion: a missing target is refused, a directory goes with
/// everything under it, anything else is removed as a file.
pub fn delete_file_or_folder(present: bool, is_directory: bool) -> (r: Result<
    DeleteAction,
    FileError,
>)
    ensures
        r == (if !present {
            Err::<DeleteAction, FileError>(FileError::TargetMissing)
        } else if is_directory {
            Ok::<DeleteAction, FileError>(DeleteAction::RemoveTree)
        } else {
            Ok::<DeleteAction, FileError>(DeleteAction::RemoveFile)
        }),
{
    if !present {
        Err(FileError::TargetMissing)
    } else if is_directory {
        Ok(DeleteAction::RemoveTree)
    } else {
        Ok(DeleteAction::RemoveFile)
    }
}

/// The verdict on a rename: it may go ahead only where the source exists
/// and the destination does not.
pub open spec fn rename_verdict(source_exists: bool, destination_exists: bool) -> Result<
    (),
    FileError,
> {
    if !source_exists {
        Err(FileError::SourceMissing)
    } else if destination_exists {
        Err(FileError::DestinationExists)
    } else {
        Ok(())
    }
}

/// Decides a rename. `Ok` tells the caller to rename; on `Err` nothing is
/// to be touched.
pub fn rename_file_or_folder(source_exists: bool, destination_exists: bool) -> (r: Result<
    (),
    FileError,
>)
    ensures
        r == rename_verdict(source_exists, destination_exists),
{
    if !source_exists {
        Err(FileError::SourceMissing)
    } else if destination_exists {
        Err(FileError::DestinationExists)
    } else {
        Ok(())
    }
}

/// What a move does next.
#[derive(Clone, Copy, Debug, PartialEq, Eq, Structural)]
pub enum MoveStep {
    /// Create the missing ancestors of the destination, then probe it.
    CreateAncestors,
    /// Rename the source to the destination.
    Rename,
}

/// The verdict on a move. The destination is probed only after its
/// ancestors were created: `None` stands for a destination not probed yet.
pub open spec fn move_verdict(source_exists: bool, destination_exists: Option<bool>) -> Result<
    MoveStep,
    FileError,
> {
    if !source_exists {
        Err(FileError::SourceMissing)
    } else {
        match destination_exists {
            None => Ok(MoveStep::CreateAncestors),
            Some(true) => Err(FileError::DestinationExists),
            Some(false) => Ok(MoveStep::Rename),
        }
    }
}

/// Decides the next step of a move; on `Err` the source is not to be
/// touched.
pub fn move_file_or_folder(source_exists: bool, destination_exists: Option<bool>) -> (r: Result<
    MoveStep,
    FileError,
>)
    ensures
        r == move_verdict(source_exists, destination_exists),
{
    if !source_exists {
        return Err(FileError::SourceMissing);
    }
    match destination_exists {
        None => Ok(MoveStep::CreateAncestors),
        Some(true) => Err(FileError::DestinationExists),
        Some(false) => Ok(MoveStep::Rename),
    }
}

/// A rename or a move onto an existing destination is refused, so the
/// source is never renamed away; a missing source is refused as well.
pub proof fn lemma_no_overwrite(source_exists: bool)
    ensures
        rename_verdict(source_exists, true) is Err,
        move_verdict(source_exists, Some(true)) is Err,
        rename_verdict(false, true) == Err::<(), FileError>(FileError::SourceMissing),
        rename_verdict(true, true) == Err::<(), FileError>(FileError::DestinationExists),
        move_verdict(true, Some(true)) == Err::<MoveStep, FileError>(FileError::DestinationExists),
{
}

/// Decides where an uploaded part is written: its file name is joined onto
/// the destination directory as a relative path is onto a root, so a name
/// with a traversal token or a NUL is refused and a leading slash does not
/// make the name absolute. On `Err` the part is not to be written.
pub fn upload_destination(destination_dir: &str, file_name: &str) -> (r: Result<
    String,
    ValidationError,
>)
    ensures
        path_is(r, file_candidate(destination_dir@, file_name@)),
{
    file_path_candidate(destination_dir, file_name)
}

/// What an upload reports: the name of the one file, or the number of files.
pub open spec fn upload_report(names: Seq<String>) -> Result<Seq<char>, FileError> {
    if names.len() == 0 {
        Err(FileError::NoFilesUploaded)
    } else if names.len() == 1 {
        Ok(names[0]@)
    } else {
        Ok(decimal(names.len()) + " files"@)
    }
}

/// Sums up an upload from the names of the files that were written.
pub fn handle_file_upload(uploaded_files: &Vec<String>) -> (r: Result<String, FileError>)
    ensures
        match r {
            Ok(s) => upload_report(uploaded_files@) == Ok::<Seq<char>, FileError>(s@),
            Err(e) => upload_report(uploaded_files@) == Err::<Seq<char>, FileError>(e),
        },
{
    if uploaded_files.len() == 0 {
        return Err(FileError::NoFilesUploaded);
    }
    if uploaded_files.len() == 1 {
        return Ok(uploaded_files[0].clone());
    }
    let mut out = decimal_chars(uploaded_files.len() as u64);
    append_str(&mut out, " files");
    Ok(string_of(out.as_slice()))
}

/// The headers of a download.
#[derive(Debug)]
pub struct DownloadHeaders {
    pub content_disposition: String,
    pub content_type: String,
}

/// The disposition of a download: an attachment under the file's name, or
/// under `download` where the name is not known.
pub open spec fn disposition_of(file_name: Option<Seq<char>>) -> Seq<char> {
    "attachment; filename=\""@ + (match file_name {
        Some(n) => n,
        None => "download"@,
    }) + "\""@
}

/// Decides a download: the target must exist and be a regular file; it is
/// then sent as an octet stream under its own name.
pub fn serve_file_download(present: bool, is_file: bool, file_name: Option<&str>) -> (r: Result<
    DownloadHeaders,
    FileError,
>)
    ensures
        !(present && is_file) ==> r == Err::<DownloadHeaders, FileError>(FileError::FileMissing),
        present && is_file ==> (r matches Ok(h) && h.content_type@ == "application/octet-stream"@
            && h.content_disposition@ == disposition_of(
            match file_name {
                Some(n) => Some(n@),
                None => None,
            },
        )),
{
    if !present || !is_file {
        return Err(FileError::FileMissing);
    }
    let mut d: Vec<char> = Vec::new();
    append_str(&mut d, "attachment; filename=\"");
    match file_name {
        Some(n) => append_str(&mut d, n),
        None => append_str(&mut d, "download"),
    }
    append_str(&mut d, "\"");
    Ok(
        DownloadHeaders {
            content_disposition: string_of(d.as_slice()),
            content_type: String::from_str("application/octet-stream"),
        },
    )
}

/// The pattern under which a modification time is shown: date and time of
/// day, to the second.
pub open spec fn time_pattern() -> Seq<char> {
    "%Y-%m-%d %H:%M:%S"@
}

/// The text that `chrono` makes of the UTC time `secs` seconds after the
/// epoch under a `strftime` pattern, `None` where `chrono` cannot hold the
/// time.
pub uninterp spec fn formatted_time(secs: i64, pattern: Seq<char>) -> Option<Seq<char>>;

/// Formats a UNIX timestamp in UTC: `chrono::DateTime::from_timestamp`
/// makes the time, `None` where the seconds are out of its range, and
/// `chrono::DateTime::format` writes it under the pattern. The one pattern
/// admitted is well formed, so writing cannot fail.
#[verifier::external_body]
fn format_time(secs: i64, pattern: &str) -> (text: Option<String>)
    requires
        pattern@ == time_pattern(),
    ensures
        match text {
            Some(t) => formatted_time(secs, pattern@) == Some(t@),
            None => formatted_time(secs, pattern@) is None,
        },
{
    chrono::DateTime::from_timestamp(secs, 0).map(|t| t.format(pattern).to_string())
}

/// Seconds counted without a sign, read as a signed count: a count beyond
/// the signed range wraps around.
pub open spec fn signed_secs(secs: u64) -> i64 {
    if secs <= i64::MAX as u64 {
        secs as i64
    } else {
        (secs - 0x1_0000_0000_0000_0000) as i64
    }
}

/// The text of a modification time `secs` seconds after the epoch; a time
/// that cannot be held is shown as the epoch.
pub open spec fn modified_text(secs: u64) -> Seq<char> {
    match formatted_time(signed_secs(secs), time_pattern()) {
        Some(text) => text,
        None => "1970-01-01 00:00:00"@,
    }
}

/// Writes a modification time as date and time of day in UTC.
pub fn format_modified(secs: u64) -> (text: String)
    ensures
        text@ == modified_text(secs),
{
    let signed: i64 = if secs <= i64::MAX as u64 {
        secs as i64
    } else {
        (secs as i128 - 0x1_0000_0000_0000_0000) as i64
    };
    match format_time(signed, "%Y-%m-%d %H:%M:%S") {
        Some(text) => text,
        None => String::from_str("1970-01-01 00:00:00"),
    }
}

/// Makes the entry of a directory's child from what the filesystem told of
/// it: only a regular file has a size, and the modification time, where it
/// is known, is shown as text.
pub fn file_entry(
    name: String,
    path: String,
    is_directory: bool,
    is_file: bool,
    len: u64,
    modified_secs: Option<u64>,
) -> (item: FileItem)
    ensures
        item.name == name,
        item.path == path,
        item.is_directory == is_directory,
        item.size == (if is_file {
            Some(len)
        } else {
            None
        }),
        match modified_secs {
            Some(secs) => item.modified matches Some(text) && text@ == modified_text(secs),
            None => item.modified is None,
        },
{
    let modified = match modified_secs {
        Some(secs) => Some(format_modified(secs)),
        None => None,
    };
    FileItem {
        name,
        path,
        is_directory,
        size: if is_file {
            Some(len)
        } else {
            None
        },
        modified,
    }
}

} // verus!
