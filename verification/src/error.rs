//! Failures that the storage layer can report.

use vstd::prelude::*;

verus! {

/// The failures of the persistence layer. Malformed or empty file content is
/// never an error: loading degrades to an empty note collection instead.
#[derive(Clone, Copy, Debug, PartialEq, Eq, Structural)]
pub enum Error {
    /// The storage file or one of its parent directories could not be
    /// opened or created while loading.
    UnableToOpenFile,
    /// The storage file could not be created or truncated while saving.
    UnableToCreateFile,
    /// The serialized notes could not be written to the storage file.
    UnableToSaveFile,
}

impl Error {
    /// The description of this failure, one fixed text per variant.
    pub open spec fn spec_message(self) -> Seq<char> {
        match self {
            Error::UnableToOpenFile => "Unable to open file"@,
            Error::UnableToCreateFile => "Unable to create file"@,
            Error::UnableToSaveFile => "Unable to save file"@,
        }
    }

    /// A human-readable description of the failure.
    pub fn message(&self) -> (r: &'static str)
        ensures
            r@ == self.spec_message(),
    {
        match self {
            Error::UnableToOpenFile => "Unable to open file",
            Error::UnableToCreateFile => "Unable to create file",
            Error::UnableToSaveFile => "Unable to save file",
        }
    }
}

} // verus!
