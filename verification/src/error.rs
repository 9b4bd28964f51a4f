//! The error taxonomy of the agent.

use vstd::prelude::*;

verus! {

/// Everything that can go wrong inside the engine.
///
/// Registration-time: `FileIsDirectory`, `DuplicateTransfer`, `MissingConf`.
/// Install-time integrity gates: `FileSizeMismatch`, `FileHashMismatch`.
/// Transient chunk IO: `Io` (retried up to the budget).
/// Malformed internal-protocol messages: `TooFewFrames`, `TooManyFrames`,
/// `InvalidNumber` (a frame that should be a decimal index is not).
#[derive(Clone, Copy, Debug, PartialEq, Eq, Structural)]
pub enum Error {
    FileIsDirectory,
    FileSizeMismatch,
    FileHashMismatch,
    DuplicateTransfer,
    MissingConf,
    Io,
    TooFewFrames,
    TooManyFrames,
    InvalidNumber,
}

impl Error {
    /// A short human-readable account of the error, for terminal `Err`
    /// notifications.
    pub fn description(&self) -> (r: &'static str)
        ensures
            r@ == self.spec_description(),
    {
        match self {
            Error::FileIsDirectory => "Path is a directory",
            Error::FileSizeMismatch => "File size mismatch",
            Error::FileHashMismatch => "File hash mismatch",
            Error::DuplicateTransfer => "Transfer already in progress for path",
            Error::MissingConf => "Cannot find agent.json",
            Error::Io => "IO error",
            Error::TooFewFrames => "Too few frames",
            Error::TooManyFrames => "Too many frames",
            Error::InvalidNumber => "Invalid number",
        }
    }

    pub open spec fn spec_description(self) -> Seq<char> {
        match self {
            Error::FileIsDirectory => "Path is a directory"@,
            Error::FileSizeMismatch => "File size mismatch"@,
            Error::FileHashMismatch => "File hash mismatch"@,
            Error::DuplicateTransfer => "Transfer already in progress for path"@,
            Error::MissingConf => "Cannot find agent.json"@,
            Error::Io => "IO error"@,
            Error::TooFewFrames => "Too few frames"@,
            Error::TooManyFrames => "Too many frames"@,
            Error::InvalidNumber => "Invalid number"@,
        }
    }
}

} // verus!
