use vstd::prelude::*;

verus! {

/// Everything that can go wrong while archiving a folder.
#[derive(Debug)]
pub enum Error {
    /// Any other failure, with its message.
    Generic(String),
    /// The input was empty.
    EmptyInput,
    /// One argument was given where three are needed.
    OnlyProvidedOneArgument,
    /// Two arguments were given where three are needed.
    OnlyProvideTwoArguments,
    /// An input that the tool does not accept.
    InvalidInput,
    /// The integer argument could not be read.
    ParsInt(std::num::ParseIntError),
    /// The date argument could not be read.
    DateFormat(chrono::ParseError),
    /// More than three arguments were given.
    TooManyArguments,
    /// The entries of a directory could not be read.
    ReadDir,
    /// A directory could not be created.
    CreateDir,
    /// A task of the runtime failed.
    TokioJoinError(tokio::task::JoinError),
    /// The names of the copied files and of the files to delete differ.
    CopiedFilesDontMatch,
    /// The folder holds no file to archive.
    NoFilesFoundInGivenDir,
    /// Fewer files are old enough than the minimum asks for.
    NoFilesOutsideOfGivenBounds,
}

/// tokio's `JoinError`, the failure of a spawned task.
#[verifier::external_type_specification]
#[verifier::external_body]
pub struct ExJoinError(tokio::task::JoinError);

} // verus!
