//! The notes of a store as they are listed, and the making of a note for a
//! link that leads nowhere yet.

use vstd::prelude::*;
use vstd::string::*;
use crate::backlinks::{has_md_extension, is_markdown_name};
use crate::errors::{NoteError, TemplateError};
use crate::paths::dir_name;
use crate::resolve::{filename_of, note_name_to_filename, resolve};
use crate::store::{DirListing, NoteContent, NoteDir, NoteEntry, NoteStore};
use crate::templates::{filled_in, replace_template_variables, Moment, Template};
use crate::text::{chars_of, ends_with, string_of};

verus! {

/// A note as it is listed.
#[derive(Clone, Debug, PartialEq, Eq)]
pub struct NoteFile {
    /// The file name.
    pub name: String,
    /// The file's path below the root of all notes.
    pub path: String,
    pub is_daily: bool,
    /// For a daily note, the date it is named by.
    pub date: Option<String>,
}

/// A `NoteFile` as plain sequences.
pub struct NoteFileView {
    pub name: Seq<char>,
    pub path: Seq<char>,
    pub is_daily: bool,
    pub date: Option<Seq<char>>,
}

impl View for NoteFile {
    type V = NoteFileView;

    open spec fn view(&self) -> NoteFileView {
        NoteFileView {
            name: self.name@,
            path: self.path@,
            is_daily: self.is_daily,
            date: match self.date {
                Some(date) => Some(date@),
                None => None,
            },
        }
    }
}

/// The views of a sequence of listed notes.
pub open spec fn note_file_views(files: Seq<NoteFile>) -> Seq<NoteFileView> {
    Seq::new(files.len(), |i: int| files[i]@)
}

/// `name` without one `.md` at its end, if it ends so.
pub open spec fn date_of(name: Seq<char>) -> Option<Seq<char>> {
    if ends_with(name, ".md"@) {
        Some(name.take(name.len() - ".md"@.len()))
    } else {
        None
    }
}

/// How the note in file `name` of directory `dir` is listed.
pub open spec fn note_file_of(dir: NoteDir, name: Seq<char>) -> NoteFileView {
    NoteFileView {
        name,
        path: dir_name(dir) + "/"@ + name,
        is_daily: dir == NoteDir::Daily,
        date: if dir == NoteDir::Daily {
            date_of(name)
        } else {
            None
        },
    }
}

/// The notes among the entries of a directory: those with the extension `md`,
/// in the order of the listing.
pub open spec fn notes_in(dir: NoteDir, entries: Seq<NoteEntry>) -> Seq<NoteFileView> {
    entries.filter(|entry: NoteEntry| has_md_extension(entry.name@)).map_values(
        |entry: NoteEntry| note_file_of(dir, entry.name@),
    )
}

/// All notes of the store: the daily ones, then the standalone ones.  A
/// directory that could not be listed has none.
pub open spec fn notes_of(store: &NoteStore) -> Seq<NoteFileView> {
    notes_in(NoteDir::Daily, store.daily.entries()) + notes_in(
        NoteDir::Standalone,
        store.standalone.entries(),
    )
}

impl NoteFile {
    /// The listing of the note in file `name` of directory `dir`.
    pub fn new(dir: NoteDir, name: &str) -> (file: NoteFile)
        ensures
            file@ == note_file_of(dir, name@),
    {
        let mut path = String::from_str(dir.name());
        path.append("/");
        path.append(name);
        let date = match dir {
            NoteDir::Daily => {
                let chars = chars_of(name);
                let suffix = chars_of(".md");
                if chars.len() >= suffix.len() && crate::text::matches_at(
                    &chars,
                    &suffix,
                    chars.len() - suffix.len(),
                ) {
                    let date = string_of(&chars, 0, chars.len() - suffix.len());
                    assert(chars@.subrange(0, chars.len() - suffix.len()) == chars@.take(
                        chars.len() - suffix.len(),
                    ));
                    Some(date)
                } else {
                    None
                }
            },
            NoteDir::Standalone => None,
        };
        NoteFile { name: String::from_str(name), path, is_daily: dir == NoteDir::Daily, date }
    }
}

fn list_dir(dir: NoteDir, listing: &DirListing, files: &mut Vec<NoteFile>)
    ensures
        note_file_views(final(files)@) == note_file_views(old(files)@) + notes_in(
            dir,
            listing.entries(),
        ),
{
    let ghost before = note_file_views(files@);
    match listing {
        DirListing::Unreadable(_) => {
            assert(notes_in(dir, listing.entries()) == Seq::<NoteFileView>::empty());
            assert(before + Seq::<NoteFileView>::empty() == before);
        },
        DirListing::Entries(entries) => {
            let ghost is_note = |entry: NoteEntry| has_md_extension(entry.name@);
            let ghost to_file = |entry: NoteEntry| note_file_of(dir, entry.name@);
            let mut i: usize = 0;
            assert(entries@.take(0).filter(is_note) == Seq::<NoteEntry>::empty());
            assert(before + Seq::<NoteFileView>::empty() == before);
            while i < entries.len()
                invariant
                    i <= entries.len(),
                    is_note == |entry: NoteEntry| has_md_extension(entry.name@),
                    to_file == |entry: NoteEntry| note_file_of(dir, entry.name@),
                    note_file_views(files@) == before + entries@.take(i as int).filter(
                        is_note,
                    ).map_values(to_file),
                decreases entries.len() - i,
            {
                let entry = &entries[i];
                proof {
                    entries@.lemma_take_succ_push(i as int);
                    entries@.take(i as int).lemma_filter_push(*entry, is_note);
                    entries@.take(i as int).filter(is_note).lemma_push_map_commute(to_file, *entry);
                }
                if is_markdown_name(entry.name.as_str()) {
                    let file = NoteFile::new(dir, entry.name.as_str());
                    let ghost listed = note_file_views(files@);
                    files.push(file);
                    assert(note_file_views(files@) == listed.push(file@));
                }
                i += 1;
            }
            assert(entries@.take(entries.len() as int) == entries@);
        },
    }
}

/// Lists the notes of the store: every entry with the extension `md`, the
/// daily notes first.
pub fn list_notes(store: &NoteStore) -> (files: Vec<NoteFile>)
    ensures
        note_file_views(files@) == notes_of(store),
{
    let mut files: Vec<NoteFile> = Vec::new();
    list_dir(NoteDir::Daily, &store.daily, &mut files);
    list_dir(NoteDir::Standalone, &store.standalone, &mut files);
    files
}

/// The text that a note made for the reference `name` starts with: a
/// level-one heading of that name.
pub open spec fn seed_text(name: Seq<char>) -> Seq<char> {
    "# "@ + name + "\n\n"@
}

/// Makes the note for a reference that leads nowhere yet: an entry for the
/// standalone directory, named by the reference's slug, that holds a heading
/// of the reference.  Fails where the directory has that file name already.
pub fn create_note_from_link(store: &NoteStore, note_name: &str) -> (made: Result<
    NoteEntry,
    NoteError,
>)
    ensures
        match made {
            Ok(entry) => {
                &&& !store.has_note(NoteDir::Standalone, filename_of(note_name@))
                &&& entry.name@ == filename_of(note_name@)
                &&& entry.content matches NoteContent::Text(text)
                &&& text@ == seed_text(note_name@)
            },
            Err(e) => {
                &&& store.has_note(NoteDir::Standalone, filename_of(note_name@))
                &&& e matches NoteError::AlreadyExists { filename }
                &&& filename@ == filename_of(note_name@)
            },
        },
{
    let filename = note_name_to_filename(note_name);
    if store.file_exists(NoteDir::Standalone, &filename) {
        return Err(NoteError::AlreadyExists { filename });
    }
    let mut text = String::from_str("# ");
    text.append(note_name);
    text.append("\n\n");
    Ok(NoteEntry { name: filename, content: NoteContent::Text(text) })
}

/// Once the note made for a reference stands in the standalone directory, the
/// reference resolves to it.
pub proof fn lemma_made_note_is_found(store: &NoteStore, made: NoteEntry, name: Seq<char>)
    requires
        made.name@ == filename_of(name),
        store.standalone.entries().contains(made),
    ensures
        resolve(store, name) == (true, filename_of(name)),
{
    let at = choose|i: int|
        0 <= i < store.standalone.entries().len() && store.standalone.entries()[i] == made;
    assert(store.standalone.entries()[at].name@ == filename_of(name));
}

/// Makes an empty standalone note called `title`: an entry for the standalone
/// directory, named `title` with `.md` appended.  Fails where the directory
/// has that file name already.
pub fn create_note(store: &NoteStore, title: &str) -> (made: Result<NoteEntry, NoteError>)
    ensures
        match made {
            Ok(entry) => {
                &&& !store.has_note(NoteDir::Standalone, title@ + ".md"@)
                &&& entry.name@ == title@ + ".md"@
                &&& entry.content matches NoteContent::Text(text)
                &&& text@.len() == 0
            },
            Err(e) => {
                &&& store.has_note(NoteDir::Standalone, title@ + ".md"@)
                &&& e matches NoteError::AlreadyExists { filename }
                &&& filename@ == title@ + ".md"@
            },
        },
{
    let mut filename = String::from_str(title);
    filename.append(".md");
    if store.file_exists(NoteDir::Standalone, &filename) {
        return Err(NoteError::AlreadyExists { filename });
    }
    Ok(NoteEntry { name: filename, content: NoteContent::Text(String::new()) })
}

/// Makes a note from a template: an entry called `filename` for directory
/// `dir` that holds the template's text with its variables filled in for
/// `moment`.  `template` is what the search for the template gave.  Fails
/// where the directory has that file name already, whatever the template;
/// else where the template could not be had.
pub fn create_note_from_template(
    store: &NoteStore,
    dir: NoteDir,
    filename: &str,
    template: Result<Template, TemplateError>,
    moment: &Moment,
) -> (made: Result<NoteEntry, NoteError>)
    ensures
        match made {
            Ok(entry) => {
                &&& !store.has_note(dir, filename@)
                &&& template matches Ok(from)
                &&& entry.name@ == filename@
                &&& entry.content matches NoteContent::Text(text)
                &&& text@ == filled_in(
                    from.content@,
                    moment.date@,
                    moment.time@,
                    moment.day_of_week@,
                )
            },
            Err(NoteError::AlreadyExists { filename: taken }) => store.has_note(dir, filename@)
                && taken@ == filename@,
            Err(NoteError::Template { error }) => !store.has_note(dir, filename@) && template
                == Err::<Template, TemplateError>(error),
            Err(_) => false,
        },
{
    let name = String::from_str(filename);
    if store.file_exists(dir, &name) {
        return Err(NoteError::AlreadyExists { filename: name });
    }
    match template {
        Ok(from) => {
            let text = replace_template_variables(from.content, moment);
            Ok(NoteEntry { name, content: NoteContent::Text(text) })
        },
        Err(error) => Err(NoteError::Template { error }),
    }
}

/// Decides whether the note `old_filename` of directory `dir` may be renamed
/// to `new_filename`: it has to exist, and the new name has to be free.
pub fn rename_note(
    store: &NoteStore,
    dir: NoteDir,
    old_filename: &str,
    new_filename: &str,
) -> (allowed: Result<(), NoteError>)
    ensures
        match allowed {
            Ok(_) => store.has_note(dir, old_filename@) && !store.has_note(dir, new_filename@),
            Err(NoteError::NotFound { filename }) => !store.has_note(dir, old_filename@)
                && filename@ == old_filename@,
            Err(NoteError::AlreadyExists { filename }) => store.has_note(dir, old_filename@)
                && store.has_note(dir, new_filename@) && filename@ == new_filename@,
            Err(_) => false,
        },
{
    let old_name = String::from_str(old_filename);
    let new_name = String::from_str(new_filename);
    if !store.file_exists(dir, &old_name) {
        return Err(NoteError::NotFound { filename: old_name });
    }
    if store.file_exists(dir, &new_name) {
        return Err(NoteError::AlreadyExists { filename: new_name });
    }
    Ok(())
}

} // verus!
