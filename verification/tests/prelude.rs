use archive_me_plz::prelude::{ARCHIVE_FOLDER_NAME, HELP_TEXT, SUPPORTED_EXTENSIONS};
use archive_me_plz::W;

#[test]
fn archive_folder_is_named_archive() {
    assert_eq!(ARCHIVE_FOLDER_NAME, "_archive");
}

#[test]
fn supported_extensions_are_the_spreadsheet_kinds() {
    assert_eq!(SUPPORTED_EXTENSIONS, ["xlsx", "csv", "xls", "xlsm"]);
}

#[test]
fn help_text_shows_usage_and_example() {
    assert!(HELP_TEXT.contains("Usage: archive_me_plz [qualifier oldest_to_keep folder_path]"));
    assert!(HELP_TEXT.contains("archive_me_plz 5 2024-01-01 /home/user/folder_with_lots_of_files"));
}

#[test]
fn wrapper_holds_its_value() {
    let w = W(41);
    assert_eq!(w.0 + 1, 42);
}
