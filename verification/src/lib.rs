//! Mass file archiver: the rules that decide which files of a folder are
//! archived, how the command line is read, and when a run counts as a success.

pub mod date;
pub mod error;
pub mod file_handling;
pub mod filetypes;
pub mod parser;
pub mod paths;
pub mod prelude;
pub mod text;

pub use date::Date;
pub use file_handling::{DirScan, EntryInfo, Mover, PreProcessor};
pub use parser::{Command, UserInput};
pub use prelude::{Error, Result, W};
