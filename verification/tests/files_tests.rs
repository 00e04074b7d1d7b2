use portfolio_backend::files::{
    delete_file_or_folder, file_entry, format_modified, handle_file_upload, list_directory_contents, move_file_or_folder,
    rename_file_or_folder, serve_file_download, upload_destination, DeleteAction, FileError,
    MoveStep,
};
use portfolio_backend::validation::FaultKind;
use portfolio_backend::models::FileItem;
use portfolio_backend::order::str_le;

fn entry(name: &str, is_directory: bool) -> FileItem {
    FileItem {
        name: name.to_string(),
        path: name.to_string(),
        is_directory,
        size: if is_directory { None } else { Some(3) },
        modified: Some("2024-01-01 00:00:00".to_string()),
    }
}

#[test]
fn listing_puts_directories_first_then_names_ascending() {
    let entries = vec![
        entry("zeta.md", false),
        entry("blog", true),
        entry("alpha.md", false),
        entry("assets", true),
        entry("Readme", false),
    ];
    let listing =
        list_directory_contents("/srv/content", true, true, Some("/srv".to_string()), entries)
            .unwrap();
    assert_eq!(listing.current_path, "/srv/content");
    assert_eq!(listing.parent_path, Some("/srv".to_string()));
    let names: Vec<&str> = listing.items.iter().map(|i| i.name.as_str()).collect();
    assert_eq!(names, vec!["assets", "blog", "Readme", "alpha.md", "zeta.md"]);
    assert_eq!(listing.items[0].size, None);
    assert_eq!(listing.items[2].size, Some(3));
}

#[test]
fn listing_needs_an_existing_directory() {
    assert_eq!(
        list_directory_contents("/x", false, false, None, Vec::new()).unwrap_err(),
        FileError::DirectoryMissing
    );
    assert_eq!(
        list_directory_contents("/x", true, false, None, Vec::new()).unwrap_err(),
        FileError::NotADirectory
    );
    assert!(list_directory_contents("/x", true, true, None, Vec::new()).unwrap().items.is_empty());
}

#[test]
fn strings_are_ordered_by_their_characters() {
    assert!(str_le("", ""));
    assert!(str_le("", "a"));
    assert!(!str_le("a", ""));
    assert!(str_le("abc", "abd"));
    assert!(str_le("ab", "abc"));
    assert!(!str_le("b", "abc"));
    assert!(str_le("Z", "a"));
    assert!(str_le("2023-12-31", "2024-01-01"));
}

#[test]
fn delete_goes_by_the_kind_of_target() {
    assert_eq!(delete_file_or_folder(false, false), Err(FileError::TargetMissing));
    assert_eq!(delete_file_or_folder(false, true), Err(FileError::TargetMissing));
    assert_eq!(delete_file_or_folder(true, true), Ok(DeleteAction::RemoveTree));
    assert_eq!(delete_file_or_folder(true, false), Ok(DeleteAction::RemoveFile));
}

#[test]
fn rename_never_overwrites() {
    assert_eq!(rename_file_or_folder(true, true), Err(FileError::DestinationExists));
    assert_eq!(rename_file_or_folder(false, true), Err(FileError::SourceMissing));
    assert_eq!(rename_file_or_folder(false, false), Err(FileError::SourceMissing));
    assert_eq!(rename_file_or_folder(true, false), Ok(()));
}

#[test]
fn move_creates_ancestors_then_never_overwrites() {
    assert_eq!(move_file_or_folder(false, None), Err(FileError::SourceMissing));
    assert_eq!(move_file_or_folder(false, Some(false)), Err(FileError::SourceMissing));
    assert_eq!(move_file_or_folder(true, None), Ok(MoveStep::CreateAncestors));
    assert_eq!(move_file_or_folder(true, Some(true)), Err(FileError::DestinationExists));
    assert_eq!(move_file_or_folder(true, Some(false)), Ok(MoveStep::Rename));
}

#[test]
fn refusals_have_their_messages() {
    assert_eq!(FileError::DirectoryMissing.message(), "Directory does not exist");
    assert_eq!(FileError::NotADirectory.message(), "Path is not a directory");
    assert_eq!(FileError::TargetMissing.message(), "File or folder does not exist");
    assert_eq!(FileError::SourceMissing.message(), "Source file or folder does not exist");
    assert_eq!(FileError::DestinationExists.message(), "Destination already exists");
    assert_eq!(FileError::NoFilesUploaded.message(), "No files found in upload");
    assert_eq!(FileError::FileMissing.message(), "File does not exist");
}

#[test]
fn upload_reports_a_name_or_a_count() {
    assert_eq!(handle_file_upload(&Vec::new()), Err(FileError::NoFilesUploaded));
    assert_eq!(handle_file_upload(&vec!["a.png".to_string()]), Ok("a.png".to_string()));
    let three = vec!["a".to_string(), "b".to_string(), "c".to_string()];
    assert_eq!(handle_file_upload(&three), Ok("3 files".to_string()));
    let twelve: Vec<String> = (0..12).map(|i| format!("f{}", i)).collect();
    assert_eq!(handle_file_upload(&twelve), Ok("12 files".to_string()));
}

#[test]
fn download_is_an_attachment_under_the_file_name() {
    let h = serve_file_download(true, true, Some("notes.md")).unwrap();
    assert_eq!(h.content_disposition, "attachment; filename=\"notes.md\"");
    assert_eq!(h.content_type, "application/octet-stream");
    let h = serve_file_download(true, true, None).unwrap();
    assert_eq!(h.content_disposition, "attachment; filename=\"download\"");
    assert_eq!(serve_file_download(false, false, Some("x")).unwrap_err(), FileError::FileMissing);
    assert_eq!(serve_file_download(true, false, Some("x")).unwrap_err(), FileError::FileMissing);
}

#[test]
fn modification_time_is_shown_in_utc() {
    assert_eq!(format_modified(0), "1970-01-01 00:00:00");
    assert_eq!(format_modified(86399), "1970-01-01 23:59:59");
    assert_eq!(format_modified(1431648000), "2015-05-15 00:00:00");
    assert_eq!(format_modified(1709210096), "2024-02-29 12:34:56");
}

#[test]
fn time_out_of_range_is_shown_as_the_epoch() {
    assert_eq!(format_modified(u64::MAX), "1969-12-31 23:59:59");
    assert_eq!(format_modified(1 << 62), "1970-01-01 00:00:00");
    assert_eq!(format_modified(1 << 63), "1970-01-01 00:00:00");
}

#[test]
fn only_files_have_a_size() {
    let f = file_entry("a.md".to_string(), "a.md".to_string(), false, true, 120, Some(0));
    assert_eq!(f.name, "a.md");
    assert_eq!(f.path, "a.md");
    assert!(!f.is_directory);
    assert_eq!(f.size, Some(120));
    assert_eq!(f.modified, Some("1970-01-01 00:00:00".to_string()));
    let d = file_entry("blog".to_string(), "blog".to_string(), true, false, 4096, None);
    assert!(d.is_directory);
    assert_eq!(d.size, None);
    assert_eq!(d.modified, None);
}

#[test]
fn uploaded_part_is_written_under_the_destination() {
    assert_eq!(upload_destination("/srv/up", "a.png").unwrap(), "/srv/up/a.png");
    assert_eq!(upload_destination("/srv/up", "sub/a.png").unwrap(), "/srv/up/sub/a.png");
    assert_eq!(upload_destination("/srv/up", "/tmp/x").unwrap(), "/srv/up/tmp/x");
}

#[test]
fn uploaded_name_that_would_leave_the_destination_is_refused() {
    for bad in ["../x", "a/../../x", "..", "a\0b"] {
        let e = upload_destination("/srv/up", bad).unwrap_err();
        assert_eq!(e.kind(), FaultKind::PathTraversal);
        assert_eq!(e.detail().as_str(), "Path contains dangerous characters");
    }
}
