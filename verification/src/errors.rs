//! What can go wrong.

use vstd::prelude::*;
use crate::store::NoteDir;

verus! {

/// Why an operation on the notes failed.
#[derive(Clone, Debug, PartialEq, Eq)]
pub enum NoteError {
    /// No note of that file name exists.
    NotFound { filename: String },
    /// A note of that file name exists already.
    AlreadyExists { filename: String },
    /// A note directory could not be listed; `message` is the system's text.
    DirectoryUnreadable { dir: NoteDir, message: String },
    /// A note's file could not be read; `message` is the system's text.
    FileUnreadable { dir: NoteDir, filename: String, message: String },
    /// A note's text was asked for, and the snapshot does not hold it.
    TextNotRead { dir: NoteDir, filename: String },
    /// The template for a note could not be had.
    Template { error: TemplateError },
}

/// Why an operation on the templates failed.
#[derive(Clone, Debug, PartialEq, Eq)]
pub enum TemplateError {
    /// No template has that identifier.
    NotFound { id: String },
    /// The stored template of that identifier could not be read; `message`
    /// says why.
    Unreadable { id: String, message: String },
    /// A custom template of that name exists already.
    NameTaken { name: String },
    /// The identifier is that of a built-in template, which stays as it is.
    BuiltIn { id: String },
}

} // verus!
