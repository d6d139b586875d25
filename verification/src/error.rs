//! The errors of the repository.

use vstd::prelude::*;

verus! {

/// Why a repository operation failed.
#[derive(Clone, Copy, Debug, PartialEq, Eq, Structural)]
pub enum TodoError {
    /// The store could not be read.
    StoreUnavailable,
    /// The store holds nothing under the requested key.
    NotFound,
    /// The patch document names no record.
    MissingKey,
    /// Stored or merged data does not have the shape of a record.
    DecodeFailed,
    /// The store did not accept a write.
    WriteFailed,
}

impl TodoError {
    /// The text that describes this error to a caller.
    pub fn message(&self) -> (text: String)
        ensures
            text@ == self.message_text(),
    {
        match self {
            TodoError::StoreUnavailable => "Could not open database.".to_owned(),
            TodoError::NotFound => "Could not find the document.".to_owned(),
            TodoError::MissingKey => "Input document doesn't have a key.".to_owned(),
            TodoError::DecodeFailed => "Could not decode the document.".to_owned(),
            TodoError::WriteFailed => "Could not write new document to the database.".to_owned(),
        }
    }

    /// The characters of `message`.
    pub open spec fn message_text(&self) -> Seq<char> {
        match self {
            TodoError::StoreUnavailable => "Could not open database."@,
            TodoError::NotFound => "Could not find the document."@,
            TodoError::MissingKey => "Input document doesn't have a key."@,
            TodoError::DecodeFailed => "Could not decode the document."@,
            TodoError::WriteFailed => "Could not write new document to the database."@,
        }
    }
}

} // verus!
