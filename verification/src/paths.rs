//! Where the notes live on disk.

use vstd::prelude::*;
use std::path::PathBuf;
use crate::store::NoteDir;

verus! {

/// `std::path::PathBuf`, carried through without a look inside.
#[verifier::external_type_specification]
#[verifier::external_body]
pub struct ExPathBuf(PathBuf);

/// What `Path::join` returns for `base` and a path of these characters.
pub uninterp spec fn joined(base: PathBuf, name: Seq<char>) -> PathBuf;

/// `Path::join`: `base` with `name` adjoined.  The result depends on nothing
/// but the two paths.
#[verifier::external_body]
fn join_path(base: &PathBuf, name: &str) -> (path: PathBuf)
    ensures
        path == joined(*base, name@),
{
    base.join(name)
}

/// The name of a note directory below the root of all notes.
pub open spec fn dir_name(dir: NoteDir) -> Seq<char> {
    match dir {
        NoteDir::Daily => "daily"@,
        NoteDir::Standalone => "notes"@,
    }
}

/// The root of all notes below the document directory.
pub open spec fn notes_dir_in(documents: PathBuf) -> PathBuf {
    joined(documents, "Notomattic"@)
}

/// A note directory below the document directory.
pub open spec fn note_dir_in(documents: PathBuf, dir: NoteDir) -> PathBuf {
    joined(notes_dir_in(documents), dir_name(dir))
}

/// The templates' directory below the document directory.
pub open spec fn templates_dir_in(documents: PathBuf) -> PathBuf {
    joined(notes_dir_in(documents), "templates"@)
}

impl NoteDir {
    /// The directory's name below the root of all notes.
    pub fn name(self) -> (name: &'static str)
        ensures
            name@ == dir_name(self),
    {
        match self {
            NoteDir::Daily => "daily",
            NoteDir::Standalone => "notes",
        }
    }
}

/// The root of all notes, given the document directory.
pub fn notes_dir_under(documents: &PathBuf) -> (root: PathBuf)
    ensures
        root == notes_dir_in(*documents),
{
    join_path(documents, "Notomattic")
}

/// One of the note directories, given the document directory.
pub fn note_dir_under(documents: &PathBuf, dir: NoteDir) -> (path: PathBuf)
    ensures
        path == note_dir_in(*documents, dir),
{
    let root = notes_dir_under(documents);
    join_path(&root, dir.name())
}

/// The templates' directory, given the document directory.
pub fn templates_dir_under(documents: &PathBuf) -> (path: PathBuf)
    ensures
        path == templates_dir_in(*documents),
{
    let root = notes_dir_under(documents);
    join_path(&root, "templates")
}

/// The root of all notes: `Notomattic` in the user's document directory.
/// `documents` is what the environment names as that directory; where it
/// names none, there is no root.
pub fn get_notes_dir(documents: Option<PathBuf>) -> (root: Option<PathBuf>)
    ensures
        root == match documents {
            Some(documents) => Some(notes_dir_in(documents)),
            None => None,
        },
{
    match documents {
        Some(documents) => Some(notes_dir_under(&documents)),
        None => None,
    }
}

/// The directory of the daily notes, given what the environment names as the
/// document directory.
pub fn get_daily_dir(documents: Option<PathBuf>) -> (dir: Option<PathBuf>)
    ensures
        dir == match documents {
            Some(documents) => Some(note_dir_in(documents, NoteDir::Daily)),
            None => None,
        },
{
    match documents {
        Some(documents) => Some(note_dir_under(&documents, NoteDir::Daily)),
        None => None,
    }
}

/// The directory of the standalone notes, given what the environment names as
/// the document directory.
pub fn get_standalone_dir(documents: Option<PathBuf>) -> (dir: Option<PathBuf>)
    ensures
        dir == match documents {
            Some(documents) => Some(note_dir_in(documents, NoteDir::Standalone)),
            None => None,
        },
{
    match documents {
        Some(documents) => Some(note_dir_under(&documents, NoteDir::Standalone)),
        None => None,
    }
}

/// The directory of the custom templates, given what the environment names as
/// the document directory.
pub fn get_templates_dir(documents: Option<PathBuf>) -> (dir: Option<PathBuf>)
    ensures
        dir == match documents {
            Some(documents) => Some(templates_dir_in(documents)),
            None => None,
        },
{
    match documents {
        Some(documents) => Some(templates_dir_under(&documents)),
        None => None,
    }
}

} // verus!
