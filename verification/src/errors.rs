//! What can end a run early.

use vstd::prelude::*;

verus! {

/// The conditions that end a run. Each is final: nothing is retried.
#[derive(Clone, Copy, Debug, PartialEq, Eq, Structural)]
pub enum Errors {
    /// The user's home directory is not known.
    NoHomeDir,
    /// One of the reader's two databases is not there.
    NoDbFound,
    /// A row of the query could not be made into an annotation.
    ContextProcessingAnnotation,
    /// The directory for the program's own state is not known.
    UnableToFindProgramLocation,
    /// The marker of the last export could not be written.
    UnableToWriteSyncFile,
    /// The marker of the last export is there but cannot be read.
    UnableToReadSyncFile,
}

impl Errors {
    /// The message shown to the user.
    pub open spec fn message_text(self) -> Seq<char> {
        match self {
            Errors::NoHomeDir => "No home dir can be detected"@,
            Errors::NoDbFound => "iBooks database not found. Are you sure iBooks is installed?"@,
            Errors::ContextProcessingAnnotation => "Processing annotation"@,
            Errors::UnableToFindProgramLocation => "Unable to find program location"@,
            Errors::UnableToWriteSyncFile => "Unable to write sync-file"@,
            Errors::UnableToReadSyncFile => "Unable to read sync-file"@,
        }
    }

    /// The message shown to the user.
    pub fn message(&self) -> (text: String)
        ensures
            text@ == self.message_text(),
    {
        match self {
            Errors::NoHomeDir => "No home dir can be detected".to_owned(),
            Errors::NoDbFound => {
                "iBooks database not found. Are you sure iBooks is installed?".to_owned()
            },
            Errors::ContextProcessingAnnotation => "Processing annotation".to_owned(),
            Errors::UnableToFindProgramLocation => "Unable to find program location".to_owned(),
            Errors::UnableToWriteSyncFile => "Unable to write sync-file".to_owned(),
            Errors::UnableToReadSyncFile => "Unable to read sync-file".to_owned(),
        }
    }
}

} // verus!
