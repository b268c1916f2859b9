pub mod mover;
pub mod pre_processor;
pub mod processor;

pub use mover::Mover;
pub use pre_processor::PreProcessor;

use crate::date::Date;
use crate::prelude::Error;
use vstd::prelude::*;

verus! {

/// One entry of the folder being archived: its path, and the UTC date on
/// which it was last changed where that was asked for and could be read.
#[derive(Debug)]
pub struct EntryInfo {
    pub path: String,
    pub modified: Option<Date>,
}

/// What reading the folder being archived gave.
#[derive(Debug)]
pub enum DirScan {
    /// The path does not name a directory.
    NotADirectory,
    /// Reading the directory failed with this error.
    Unreadable(Error),
    /// The entries of the directory, in the order in which they were examined.
    Entries(Vec<EntryInfo>),
}

/// The text of the name of the archive folder.
pub open spec fn archive_folder_name() -> Seq<char> {
    seq!['_', 'a', 'r', 'c', 'h', 'i', 'v', 'e']
}

/// The texts of a list of strings.
pub open spec fn path_texts(paths: Seq<String>) -> Seq<Seq<char>> {
    paths.map_values(|s: String| s@)
}

} // verus!
