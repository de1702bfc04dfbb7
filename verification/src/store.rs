//! A snapshot of the two note directories, as plain values.
//!
//! Everything the link logic asks of the file system is answered from such a
//! snapshot: which names exist in a directory, which of them are regular
//! files, and what text each file holds.

use vstd::prelude::*;

verus! {

/// One of the two directories that hold notes.
#[derive(Clone, Copy, Debug, PartialEq, Eq, Structural)]
pub enum NoteDir {
    /// Notes named by calendar date, `YYYY-MM-DD.md`.
    Daily,
    /// Free-form notes named by a slug of their title.
    Standalone,
}

/// What a directory entry holds.
#[derive(Clone, Debug, PartialEq, Eq)]
pub enum NoteContent {
    /// The entry is no regular file (a directory, for one).
    NotAFile,
    /// The file could not be read; the text is the system's message.
    Unreadable(String),
    /// A regular file whose text was not read: enough for every question but
    /// the search for backlinks.
    Unread,
    /// The file's full text.
    Text(String),
}

/// One entry of a note directory.
#[derive(Clone, Debug, PartialEq, Eq)]
pub struct NoteEntry {
    /// The entry's file name, without any directory.
    pub name: String,
    pub content: NoteContent,
}

/// The outcome of listing one note directory.  A directory that does not exist
/// is listed as empty.
#[derive(Clone, Debug, PartialEq, Eq)]
pub enum DirListing {
    /// The directory could not be listed; the text is the system's message.
    Unreadable(String),
    /// The entries in the order in which the directory gave them.
    Entries(Vec<NoteEntry>),
}

/// Both note directories at one moment.
#[derive(Clone, Debug, PartialEq, Eq)]
pub struct NoteStore {
    pub daily: DirListing,
    pub standalone: DirListing,
}

impl DirListing {
    /// The entries that were listed; none where listing failed.
    pub open spec fn entries(&self) -> Seq<NoteEntry> {
        match self {
            DirListing::Unreadable(_) => Seq::empty(),
            DirListing::Entries(entries) => entries@,
        }
    }

    /// Some entry is called `name`.
    pub open spec fn has_name(&self, name: Seq<char>) -> bool {
        exists|i: int| 0 <= i < self.entries().len() && #[trigger] self.entries()[i].name@ == name
    }

    /// Tells whether some entry is called `name`.
    pub fn contains(&self, name: &String) -> (found: bool)
        ensures
            found == self.has_name(name@),
    {
        match self {
            DirListing::Unreadable(_) => false,
            DirListing::Entries(entries) => {
                let mut i: usize = 0;
                while i < entries.len()
                    invariant
                        i <= entries.len(),
                        self.entries() == entries@,
                        forall|j: int| 0 <= j < i ==> (#[trigger] entries@[j]).name@ != name@,
                    decreases entries.len() - i,
                {
                    if entries[i].name == *name {
                        return true;
                    }
                    i += 1;
                }
                false
            },
        }
    }
}

impl NoteStore {
    /// A store in which both directories exist and are empty.
    pub fn new() -> (store: NoteStore)
        ensures
            store.daily is Entries,
            store.standalone is Entries,
            store.daily.entries().len() == 0,
            store.standalone.entries().len() == 0,
    {
        NoteStore {
            daily: DirListing::Entries(Vec::new()),
            standalone: DirListing::Entries(Vec::new()),
        }
    }

    /// The listing of one directory.
    pub open spec fn listing(&self, dir: NoteDir) -> DirListing {
        match dir {
            NoteDir::Daily => self.daily,
            NoteDir::Standalone => self.standalone,
        }
    }

    /// A file or directory called `name` exists in `dir`.
    pub open spec fn has_note(&self, dir: NoteDir, name: Seq<char>) -> bool {
        self.listing(dir).has_name(name)
    }

    /// Tells whether a file or directory called `name` exists in `dir`.
    pub fn file_exists(&self, dir: NoteDir, name: &String) -> (found: bool)
        ensures
            found == self.has_note(dir, name@),
    {
        match dir {
            NoteDir::Daily => self.daily.contains(name),
            NoteDir::Standalone => self.standalone.contains(name),
        }
    }
}

} // verus!
