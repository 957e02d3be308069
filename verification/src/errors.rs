//! The error taxonomy of the dictionary store.

use vstd::prelude::*;

verus! {

/// Every failure the dictionary store can report, as a typed value.
#[derive(Clone, Copy, Debug, PartialEq, Eq, Structural)]
pub enum DictError {
    /// The load target could not be opened or read.
    FileUnreadable,
    /// A category tag outside the fixed enumeration was met, at entry
    /// construction or during a load.
    InvalidCategory,
    /// A load completed but the dictionary holds no entry.
    NoRecordsLoaded,
    /// A lookup query matched no entry.
    NotFound,
    /// The headword of an entry to be added is already present.
    DuplicateWord,
    /// The destination file could not be created or written.
    WriteFailed,
}

/// What `DictError::message` returns for each variant.
pub open spec fn error_message(e: DictError) -> Seq<char> {
    match e {
        DictError::FileUnreadable => "File could not be loaded"@,
        DictError::InvalidCategory => "Invalid input"@,
        DictError::NoRecordsLoaded => "No objects loaded"@,
        DictError::NotFound => "Word not found"@,
        DictError::DuplicateWord => "Word already exists"@,
        DictError::WriteFailed => "Failed to create new dict file"@,
    }
}

impl DictError {
    /// A human-readable description of the error.
    pub fn message(&self) -> (r: String)
        ensures
            r@ == error_message(*self),
    {
        match self {
            DictError::FileUnreadable => String::from_str("File could not be loaded"),
            DictError::InvalidCategory => String::from_str("Invalid input"),
            DictError::NoRecordsLoaded => String::from_str("No objects loaded"),
            DictError::NotFound => String::from_str("Word not found"),
            DictError::DuplicateWord => String::from_str("Word already exists"),
            DictError::WriteFailed => String::from_str("Failed to create new dict file"),
        }
    }
}

} // verus!
