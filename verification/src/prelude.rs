use vstd::prelude::*;

pub use crate::error::Error;

verus! {

/// The result of the library's fallible operations.
pub type Result<T> = std::result::Result<T, Error>;

/// A wrapper around a value.
pub struct W<T>(pub T);

/// The name of the folder, inside the folder being archived, that receives the archived files.
pub const ARCHIVE_FOLDER_NAME: &'static str = "_archive";

/// The file extensions that the archiver handles.
pub const SUPPORTED_EXTENSIONS: [&'static str; 4] = ["xlsx", "csv", "xls", "xlsm"];

/// The usage text of the command-line tool.
pub const HELP_TEXT: &'static str = r#"
Usage: archive_me_plz [qualifier oldest_to_keep folder_path] -> [output]

    info:
    qualifier:          The minimum qualifier of files required to qualify a folder for archiving
    oldest_to_keep:     A date (YYYY-MM-DD), from today backwards to the date given. 
                        Files within that range won't be archived.
                    
    folder_path:        The path to the folder to be archived
    output:             The path to the output folder, default is 'folder_path/_archive'

    help:               Display this help text"
    -------------------------
    Example: (Current date: 2024-02-01)
    
    archive_me_plz 5 2024-01-01 /home/user/folder_with_lots_of_files
    
    -------------------------
    In the Example above, files from 2024-01-01 to the earliest date available
    will be archived. 
    Leaving any files from 2024-01-01 to current (2024-02-01) in the folder.
    The folder /home/user/folder_with_lots_of_files will be
    archived if it contains 5 or more files.

"#;

} // verus!
