// Loading the visibility store: what can be found at its place, and what
// comes of each.

use crate::visibility_info::{entries_view, VisibilityEntry, VisibilityInfo};
use vstd::prelude::*;
use vstd::string::*;

verus! {

/// What is found at the place where the store is kept.
#[derive(Debug)]
pub enum StoredFile {
    /// There is no file.
    Missing,
    /// There is a file, and it cannot be written to.
    ReadOnly,
    /// There is a file that can be written to and cannot be read; the
    /// message says why.
    Unreadable(String),
    /// There is a file whose text is no list of entries; the message says
    /// why.
    Malformed(String),
    /// There is a file that holds these entries.
    Entries(Vec<VisibilityEntry>),
}

/// Why a store could not be loaded.
#[derive(Clone, Debug, PartialEq, Eq)]
pub enum LoadError {
    /// The file cannot be written to, so the store could not be saved at
    /// the end of the session.
    Permission,
    /// The file cannot be read, or does not hold a list of entries.
    Format(String),
}

/// The message of a load error.
pub open spec fn load_error_text(error: LoadError) -> Seq<char> {
    match error {
        LoadError::Permission => "visibility_info file must be writable."@,
        LoadError::Format(message) => message@,
    }
}

/// The outcome of loading a store from what was found at its place: no
/// file gives the empty store, a file that cannot be written to is
/// refused before it is read, and a file that cannot be read or
/// understood is an error of format.
pub open spec fn loaded(found: StoredFile) -> Result<Seq<(Seq<char>, bool)>, LoadError> {
    match found {
        StoredFile::Missing => Ok(Seq::empty()),
        StoredFile::ReadOnly => Err(LoadError::Permission),
        StoredFile::Unreadable(message) => Err(LoadError::Format(message)),
        StoredFile::Malformed(message) => Err(LoadError::Format(message)),
        StoredFile::Entries(entries) => Ok(entries_view(entries@)),
    }
}

impl LoadError {
    /// The message of this error.
    pub fn message(self) -> (text: String)
        ensures
            text@ == load_error_text(self),
    {
        match self {
            LoadError::Permission => String::from_str("visibility_info file must be writable."),
            LoadError::Format(message) => message,
        }
    }
}

impl VisibilityInfo {
    /// Loads the store from what was found at its place.
    pub fn try_new(found: StoredFile) -> (outcome: Result<Self, LoadError>)
        ensures
            match outcome {
                Ok(info) => loaded(found) == Ok::<Seq<(Seq<char>, bool)>, LoadError>(info@),
                Err(error) => loaded(found) == Err::<Seq<(Seq<char>, bool)>, LoadError>(error),
            },
    {
        match found {
            StoredFile::Missing => Ok(VisibilityInfo::default()),
            StoredFile::ReadOnly => Err(LoadError::Permission),
            StoredFile::Unreadable(message) => Err(LoadError::Format(message)),
            StoredFile::Malformed(message) => Err(LoadError::Format(message)),
            StoredFile::Entries(entries) => Ok(VisibilityInfo { entries }),
        }
    }
}

} // verus!
