//! From a link's target to a note's file name.

use vstd::prelude::*;
use vstd::string::*;
use crate::store::{NoteDir, NoteStore};
use crate::text::{
    char_is_alphanumeric, char_is_whitespace, chars_of, ends_with, is_alphanumeric, is_whitespace,
    lowercase_of, matches_at, push_char, to_lowercase,
};

verus! {

/// The first position at or after `from` that holds no whitespace.
pub open spec fn skip_whitespace(s: Seq<char>, from: int) -> int
    decreases s.len() - from,
{
    if 0 <= from < s.len() && is_whitespace(s[from]) {
        skip_whitespace(s, from + 1)
    } else {
        from
    }
}

/// The least position `end`, not below `floor`, from which `s` holds
/// whitespace only up to `to`.
pub open spec fn skip_whitespace_back(s: Seq<char>, to: int, floor: int) -> int
    decreases to,
{
    if 0 <= floor < to <= s.len() && is_whitespace(s[to - 1]) {
        skip_whitespace_back(s, to - 1, floor)
    } else {
        to
    }
}

/// `s` without its leading and trailing whitespace.
pub open spec fn trimmed(s: Seq<char>) -> Seq<char> {
    let start = skip_whitespace(s, 0);
    let end = skip_whitespace_back(s, s.len() as int, start);
    s.subrange(start, end)
}

/// A space becomes a dash; any other character stays.
pub open spec fn dash_for_space(c: char) -> char {
    if c == ' ' {
        '-'
    } else {
        c
    }
}

/// The characters a slug keeps: letters, numbers and the dash.
pub open spec fn is_slug_char(c: char) -> bool {
    is_alphanumeric(c) || c == '-'
}

/// The slug made of a name that is in lowercase already: trimmed, spaces
/// turned to dashes, and every character dropped that is neither alphanumeric
/// nor a dash.
pub open spec fn slug_of_lowered(lower: Seq<char>) -> Seq<char> {
    trimmed(lower).map_values(|c: char| dash_for_space(c)).filter(|c: char| is_slug_char(c))
}

/// The slug of a note's name: that of the name in lowercase.
pub open spec fn slug_of(name: Seq<char>) -> Seq<char> {
    slug_of_lowered(lowercase_of(name))
}

/// The file name of the standalone note called `name`.
pub open spec fn filename_of(name: Seq<char>) -> Seq<char> {
    slug_of(name) + ".md"@
}

/// The file name of the daily note that `name` refers to: `name` itself if it
/// already ends in `.md`, else `name` with `.md` appended.
pub open spec fn daily_name_of(name: Seq<char>) -> Seq<char> {
    if ends_with(name, ".md"@) {
        name
    } else {
        name + ".md"@
    }
}

/// What a reference resolves to: whether the note exists, and its file name.
/// A standalone note goes before a daily one; a note that does not exist yet
/// gets the standalone file name.
pub open spec fn resolve(store: &NoteStore, name: Seq<char>) -> (bool, Seq<char>) {
    if store.has_note(NoteDir::Standalone, filename_of(name)) {
        (true, filename_of(name))
    } else if store.has_note(NoteDir::Daily, daily_name_of(name)) {
        (true, daily_name_of(name))
    } else {
        (false, filename_of(name))
    }
}

proof fn lemma_skip_whitespace(s: Seq<char>, from: int)
    requires
        0 <= from <= s.len(),
    ensures
        from <= skip_whitespace(s, from) <= s.len(),
        forall|k: int| from <= k < skip_whitespace(s, from) ==> is_whitespace(s[k]),
        skip_whitespace(s, from) < s.len() ==> !is_whitespace(s[skip_whitespace(s, from)]),
    decreases s.len() - from,
{
    if from < s.len() && is_whitespace(s[from]) {
        lemma_skip_whitespace(s, from + 1);
    }
}

proof fn lemma_skip_whitespace_back(s: Seq<char>, to: int, floor: int)
    requires
        0 <= floor <= to <= s.len(),
    ensures
        floor <= skip_whitespace_back(s, to, floor) <= to,
        forall|k: int| skip_whitespace_back(s, to, floor) <= k < to ==> is_whitespace(s[k]),
        floor < skip_whitespace_back(s, to, floor) ==> !is_whitespace(
            s[skip_whitespace_back(s, to, floor) - 1],
        ),
    decreases to,
{
    if floor < to && is_whitespace(s[to - 1]) {
        lemma_skip_whitespace_back(s, to - 1, floor);
    }
}

/// Trimming cuts whitespace off both ends, and nothing else: what is left
/// neither begins nor ends with whitespace.
pub proof fn lemma_trimmed(s: Seq<char>)
    ensures
        ({
            let start = skip_whitespace(s, 0);
            let end = skip_whitespace_back(s, s.len() as int, start);
            &&& 0 <= start <= end <= s.len()
            &&& trimmed(s) == s.subrange(start, end)
            &&& forall|k: int| 0 <= k < start ==> is_whitespace(s[k])
            &&& forall|k: int| end <= k < s.len() ==> is_whitespace(s[k])
            &&& start < end ==> !is_whitespace(trimmed(s).first()) && !is_whitespace(
                trimmed(s).last(),
            )
        }),
{
    lemma_skip_whitespace(s, 0);
    lemma_skip_whitespace_back(s, s.len() as int, skip_whitespace(s, 0));
}

/// A standalone note goes before a daily note: where the standalone directory
/// holds the slug's file, the reference resolves to it, whatever the daily
/// directory holds.
pub proof fn lemma_standalone_goes_first(store: &NoteStore, name: Seq<char>)
    requires
        store.has_note(NoteDir::Standalone, filename_of(name)),
    ensures
        resolve(store, name) == (true, filename_of(name)),
{
}

/// Where no standalone note answers, the daily note of that name does.
pub proof fn lemma_daily_goes_second(store: &NoteStore, name: Seq<char>)
    requires
        !store.has_note(NoteDir::Standalone, filename_of(name)),
        store.has_note(NoteDir::Daily, daily_name_of(name)),
    ensures
        resolve(store, name) == (true, daily_name_of(name)),
{
}

/// A reference to a note that does not exist resolves to the file name that a
/// standalone note of that name would get.
pub proof fn lemma_missing_note_gets_slug(store: &NoteStore, name: Seq<char>)
    requires
        !store.has_note(NoteDir::Standalone, filename_of(name)),
        !store.has_note(NoteDir::Daily, daily_name_of(name)),
    ensures
        resolve(store, name) == (false, filename_of(name)),
{
}

/// What a reference resolves to depends on the store only through the names
/// that exist in it.
pub proof fn lemma_resolve_goes_by_names(first: &NoteStore, second: &NoteStore, name: Seq<char>)
    requires
        forall|dir: NoteDir, file: Seq<char>|
            first.has_note(dir, file) == second.has_note(dir, file),
    ensures
        resolve(first, name) == resolve(second, name),
{
}

/// A slug holds letters, numbers and dashes only, so a file name made from a
/// note's name never holds a path separator.
pub proof fn lemma_slug_chars(name: Seq<char>)
    ensures
        forall|k: int| 0 <= k < slug_of(name).len() ==> is_slug_char(#[trigger] slug_of(name)[k]),
{
    let dashed = trimmed(lowercase_of(name)).map_values(|c: char| dash_for_space(c));
    assert(slug_of(name) == dashed.filter(|c: char| is_slug_char(c)));
    let keep = |c: char| is_slug_char(c);
    assert forall|k: int| 0 <= k < slug_of(name).len() implies is_slug_char(
        #[trigger] slug_of(name)[k],
    ) by {
        dashed.lemma_filter_pred(keep, k);
    }
}

/// Turns a note's name into the file name of a standalone note:
/// `"Meeting Notes"` gives `"meeting-notes.md"`.
pub fn note_name_to_filename(note_name: &str) -> (filename: String)
    ensures
        filename@ == filename_of(note_name@),
{
    let lower = to_lowercase(note_name);
    filename_from_lowercase(lower.as_str())
}

/// Turns a note's name that is in lowercase already into the file name of a
/// standalone note: `"meeting notes"` gives `"meeting-notes.md"`.
pub fn filename_from_lowercase(lower: &str) -> (filename: String)
    ensures
        filename@ == slug_of_lowered(lower@) + ".md"@,
{
    let chars = chars_of(lower);
    let n = chars.len();
    let mut start: usize = 0;
    while start < n && char_is_whitespace(chars[start])
        invariant
            start <= n == chars.len(),
            skip_whitespace(chars@, start as int) == skip_whitespace(chars@, 0),
        decreases n - start,
    {
        start += 1;
    }
    let mut end: usize = n;
    while end > start && char_is_whitespace(chars[end - 1])
        invariant
            start <= end <= n == chars.len(),
            skip_whitespace_back(chars@, end as int, start as int) == skip_whitespace_back(
                chars@,
                n as int,
                start as int,
            ),
        decreases end,
    {
        end -= 1;
    }
    let ghost kept = trimmed(chars@);
    let ghost dashed = kept.map_values(|c: char| dash_for_space(c));
    assert(kept == chars@.subrange(start as int, end as int));
    let mut slug = String::new();
    let mut i: usize = start;
    while i < end
        invariant
            start <= i <= end <= chars.len(),
            kept == chars@.subrange(start as int, end as int),
            dashed == kept.map_values(|c: char| dash_for_space(c)),
            slug@ == dashed.take(i - start).filter(|c: char| is_slug_char(c)),
        decreases end - i,
    {
        let c = if chars[i] == ' ' {
            '-'
        } else {
            chars[i]
        };
        proof {
            let k = i - start;
            assert(dashed[k] == c);
            dashed.lemma_take_succ_push(k);
            dashed.take(k).lemma_filter_push(c, |c: char| is_slug_char(c));
        }
        if c == '-' || char_is_alphanumeric(c) {
            push_char(&mut slug, c);
        }
        i += 1;
    }
    assert(dashed.take(end - start) == dashed);
    slug.append(".md");
    slug
}

/// Resolves a reference against the store.  Returns whether the note exists
/// and the file name it has or, where it does not exist, would get.
pub fn note_exists(store: &NoteStore, note_name: &str) -> (found: (bool, String))
    ensures
        found.0 == resolve(store, note_name@).0,
        found.1@ == resolve(store, note_name@).1,
{
    let filename = note_name_to_filename(note_name);
    if store.file_exists(NoteDir::Standalone, &filename) {
        return (true, filename);
    }
    let name = chars_of(note_name);
    let suffix = chars_of(".md");
    let mut daily_filename = String::from_str(note_name);
    let ends_in_md = name.len() >= suffix.len() && matches_at(
        &name,
        &suffix,
        name.len() - suffix.len(),
    );
    if !ends_in_md {
        daily_filename.append(".md");
    }
    if store.file_exists(NoteDir::Daily, &daily_filename) {
        return (true, daily_filename);
    }
    (false, filename)
}

} // verus!
