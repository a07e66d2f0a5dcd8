use vstd::prelude::*;

verus! {

/// Represents the possible errors that can occur in the program.
#[derive(Debug, Clone, Copy, PartialEq, Eq, Structural)]
pub enum Errors {
    /// Error when the current path could not be retrieved.
    CouldNotGetPath,
    /// Error when Docker is not found.
    DockerNotFound,
    /// Error when a command execution fails.
    CommandExecutionFailed,
    /// Error thrown when reading STDIN from spawned process.
    STDINError,
    /// I/O error.
    IOError,
    /// Error for an invalid option.
    InvalidOption,
    /// Error related to UTF-8 encoding/decoding.
    UTF8Error,
    /// Error when a required argument is missing.
    MissingArgument,
    /// Error when loading the configuration File
    ConfigLoadFailed,
    /// Error when saving the configuration File
    ConfigSaveFailed,
    /// Error when the rights of the current user do not suffice.
    InsufficientRights,
    /// Error when no source lists the requested program.
    ProgramNotFound,
    /// Error when the downloaded sources file could not be written.
    SavingSourcesFileFailed,
    /// Error when the sources file could not be downloaded.
    HTTPRequestFailed,
}

} // verus!
