//! Links out of a note, and the notes that link to a note.

use vstd::prelude::*;
use vstd::string::*;
use crate::context::{context_in, context_of};
use crate::errors::NoteError;
use crate::links::{links_of, parse_chars};
use crate::resolve::{lemma_resolve_goes_by_names, note_exists, resolve};
use crate::store::{DirListing, NoteContent, NoteDir, NoteEntry, NoteStore};
use crate::text::{
    chars_of, ends_with, matches_at, string_of, string_views, trailing_bound, without_trailing,
};
use crate::title::{note_title, title_of};

verus! {

/// A link as written in a note, resolved.
#[derive(Clone, Debug, PartialEq, Eq)]
pub struct WikiLink {
    /// The reference as written.
    pub text: String,
    /// The file name of the note referred to.
    pub target: String,
    /// Whether that note exists.
    pub exists: bool,
}

/// A `WikiLink` as plain sequences.
pub struct LinkView {
    pub text: Seq<char>,
    pub target: Seq<char>,
    pub exists: bool,
}

impl View for WikiLink {
    type V = LinkView;

    open spec fn view(&self) -> LinkView {
        LinkView { text: self.text@, target: self.target@, exists: self.exists }
    }
}

/// One note that links to another.
#[derive(Clone, Debug, PartialEq, Eq)]
pub struct BacklinkInfo {
    /// The file name of the note that holds the link.
    pub from_note: String,
    /// That note's title.
    pub from_title: String,
    /// The text around the link.
    pub context: String,
}

/// A `BacklinkInfo` as plain sequences.
pub struct BacklinkView {
    pub from_note: Seq<char>,
    pub from_title: Seq<char>,
    pub context: Seq<char>,
}

impl View for BacklinkInfo {
    type V = BacklinkView;

    open spec fn view(&self) -> BacklinkView {
        BacklinkView {
            from_note: self.from_note@,
            from_title: self.from_title@,
            context: self.context@,
        }
    }
}

/// The views of a sequence of links.
pub open spec fn link_views(links: Seq<WikiLink>) -> Seq<LinkView> {
    Seq::new(links.len(), |i: int| links[i]@)
}

/// The views of a sequence of backlinks.
pub open spec fn backlink_views(infos: Seq<BacklinkInfo>) -> Seq<BacklinkView> {
    Seq::new(infos.len(), |i: int| infos[i]@)
}

/// A reference, resolved against the store.
pub open spec fn resolved_link(store: &NoteStore, reference: Seq<char>) -> LinkView {
    LinkView {
        text: reference,
        target: resolve(store, reference).1,
        exists: resolve(store, reference).0,
    }
}

/// The links of a note's text, each resolved against the store.
pub open spec fn scan_of(store: &NoteStore, text: Seq<char>) -> Seq<LinkView> {
    links_of(text).map_values(|reference: Seq<char>| resolved_link(store, reference))
}

/// Finds the links in a note's text and resolves each: one entry for each
/// link, in the order of the text.
pub fn scan_note_links(store: &NoteStore, content: &str) -> (links: Vec<WikiLink>)
    ensures
        link_views(links@) == scan_of(store, content@),
{
    let text = chars_of(content);
    let names = parse_chars(&text);
    let mut links: Vec<WikiLink> = Vec::new();
    let mut i: usize = 0;
    while i < names.len()
        invariant
            i <= names.len(),
            string_views(names@) == links_of(content@),
            link_views(links@) == scan_of(store, content@).take(i as int),
        decreases names.len() - i,
    {
        let found = note_exists(store, names[i].as_str());
        assert(names[i as int]@ == string_views(names@)[i as int]);
        let link = WikiLink { text: names[i].clone(), target: found.1, exists: found.0 };
        let ghost before = link_views(links@);
        links.push(link);
        proof {
            let all = scan_of(store, content@);
            assert(link_views(links@) == before.push(link@));
            assert(all[i as int] == link@);
            assert(all.take(i + 1) == all.take(i as int).push(all[i as int]));
        }
        i += 1;
    }
    assert(scan_of(store, content@).take(names.len() as int) == scan_of(store, content@));
    links
}

/// The file name has the extension `md`.
pub open spec fn has_md_extension(name: Seq<char>) -> bool {
    name.len() > 3 && ends_with(name, ".md"@)
}

/// The name by which a note is referred to: its file name without `.md`.
pub open spec fn stem_of(filename: Seq<char>) -> Seq<char> {
    without_trailing(filename, ".md"@)
}

/// The reference leads to the note `target`: it resolves to that file name, or
/// it is the note's name as it stands.
pub open spec fn refers_to(store: &NoteStore, reference: Seq<char>, target: Seq<char>) -> bool {
    resolve(store, reference).1 == target || reference == stem_of(target)
}

/// The first of `references[from..]` that leads to `target`.
pub open spec fn first_referring(
    store: &NoteStore,
    references: Seq<Seq<char>>,
    target: Seq<char>,
    from: int,
) -> Option<Seq<char>>
    decreases references.len() - from,
{
    if from < 0 || from >= references.len() {
        None
    } else if refers_to(store, references[from], target) {
        Some(references[from])
    } else {
        first_referring(store, references, target, from + 1)
    }
}

/// The backlink that a note called `name` with this text gives for `target`,
/// if it links there: title and context go by the first link that does.
pub open spec fn backlink_in(
    store: &NoteStore,
    name: Seq<char>,
    text: Seq<char>,
    target: Seq<char>,
) -> Option<BacklinkView> {
    match first_referring(store, links_of(text), target, 0) {
        Some(reference) => Some(
            BacklinkView {
                from_note: name,
                from_title: title_of(text, name),
                context: context_of(text, reference),
            },
        ),
        None => None,
    }
}

/// The entry is searched for links to `target`: a regular file with the
/// extension `md` that is not the target itself.
pub open spec fn is_source(entry: NoteEntry, target: Seq<char>) -> bool {
    !(entry.content is NotAFile) && has_md_extension(entry.name@) && entry.name@ != target
}

/// The backlinks to `target` from `entries[from..]`, or the failure to read
/// the first of them that is searched and cannot be read or was not read.
pub open spec fn scan_entries(
    store: &NoteStore,
    dir: NoteDir,
    entries: Seq<NoteEntry>,
    target: Seq<char>,
    from: int,
) -> Result<Seq<BacklinkView>, NoteError>
    decreases entries.len() - from,
{
    if from < 0 || from >= entries.len() {
        Ok(Seq::empty())
    } else if !is_source(entries[from], target) {
        scan_entries(store, dir, entries, target, from + 1)
    } else {
        match entries[from].content {
            NoteContent::Text(text) => match scan_entries(store, dir, entries, target, from + 1) {
                Ok(rest) => Ok(
                    match backlink_in(store, entries[from].name@, text@, target) {
                        Some(backlink) => seq![backlink] + rest,
                        None => rest,
                    },
                ),
                Err(e) => Err(e),
            },
            NoteContent::Unreadable(message) => Err(
                NoteError::FileUnreadable { dir, filename: entries[from].name, message },
            ),
            NoteContent::Unread => Err(
                NoteError::TextNotRead { dir, filename: entries[from].name },
            ),
            NoteContent::NotAFile => scan_entries(store, dir, entries, target, from + 1),
        }
    }
}

/// The backlinks to `target` from one directory, or the first failure.
pub open spec fn scan_dir(store: &NoteStore, dir: NoteDir, target: Seq<char>) -> Result<
    Seq<BacklinkView>,
    NoteError,
> {
    match store.listing(dir) {
        DirListing::Unreadable(message) => Err(NoteError::DirectoryUnreadable { dir, message }),
        DirListing::Entries(entries) => scan_entries(store, dir, entries@, target, 0),
    }
}

/// The backlinks to the note `target`: those from the daily notes, then those
/// from the standalone notes, each directory in the order of its listing; or
/// the first failure met on the way.
pub open spec fn backlinks_of(store: &NoteStore, target: Seq<char>) -> Result<
    Seq<BacklinkView>,
    NoteError,
> {
    match scan_dir(store, NoteDir::Daily, target) {
        Ok(daily) => match scan_dir(store, NoteDir::Standalone, target) {
            Ok(standalone) => Ok(daily + standalone),
            Err(e) => Err(e),
        },
        Err(e) => Err(e),
    }
}

/// The outcome of a search, with the backlinks as plain sequences.
pub open spec fn outcome_view(outcome: Result<Vec<BacklinkInfo>, NoteError>) -> Result<
    Seq<BacklinkView>,
    NoteError,
> {
    match outcome {
        Ok(found) => Ok(backlink_views(found@)),
        Err(e) => Err(e),
    }
}

/// Scanning the same text against stores that hold the same names gives the
/// same links: the outcome depends on nothing else.
pub proof fn lemma_scan_goes_by_names(first: &NoteStore, second: &NoteStore, text: Seq<char>)
    requires
        forall|dir: NoteDir, file: Seq<char>|
            first.has_note(dir, file) == second.has_note(dir, file),
    ensures
        scan_of(first, text) == scan_of(second, text),
{
    assert forall|k: int| 0 <= k < links_of(text).len() implies scan_of(first, text)[k] == scan_of(
        second,
        text,
    )[k] by {
        lemma_resolve_goes_by_names(first, second, links_of(text)[k]);
    }
    assert(scan_of(first, text) =~= scan_of(second, text));
}

/// No two entries of the listing have the same name.
pub open spec fn distinct_names(entries: Seq<NoteEntry>) -> bool {
    forall|i: int, j: int|
        0 <= i < j < entries.len() ==> (#[trigger] entries[i]).name@ != (
        #[trigger] entries[j]).name@
}

/// One of `entries[from..]` is called `name` and is searched for links to
/// `target`.
pub open spec fn is_source_name(
    entries: Seq<NoteEntry>,
    target: Seq<char>,
    from: int,
    name: Seq<char>,
) -> bool {
    exists|j: int|
        from <= j < entries.len() && is_source(#[trigger] entries[j], target) && entries[j].name@
            == name
}

/// Every backlink comes from an entry that was searched, and there are no
/// more backlinks than entries.
pub proof fn lemma_backlinks_come_from_sources(
    store: &NoteStore,
    dir: NoteDir,
    entries: Seq<NoteEntry>,
    target: Seq<char>,
    from: int,
)
    requires
        0 <= from <= entries.len(),
    ensures
        scan_entries(store, dir, entries, target, from) matches Ok(found) ==> {
            &&& found.len() <= entries.len() - from
            &&& forall|k: int|
                0 <= k < found.len() ==> is_source_name(
                    entries,
                    target,
                    from,
                    (#[trigger] found[k]).from_note,
                )
        },
    decreases entries.len() - from,
{
    if from < entries.len() {
        lemma_backlinks_come_from_sources(store, dir, entries, target, from + 1);
        if let Ok(found) = scan_entries(store, dir, entries, target, from) {
            let later = scan_entries(store, dir, entries, target, from + 1);
            assert(later is Ok);
            let rest = later->Ok_0;
            let first = entries[from];
            let gives = is_source(first, target) && (first.content matches NoteContent::Text(text)
                && backlink_in(store, first.name@, text@, target) is Some);
            assert(!gives ==> found == rest);
            assert(gives ==> found.len() == rest.len() + 1 && found[0].from_note == first.name@);
            assert forall|k: int| 0 <= k < found.len() implies is_source_name(
                entries,
                target,
                from,
                (#[trigger] found[k]).from_note,
            ) by {
                if gives && k == 0 {
                    assert(is_source(entries[from], target));
                } else {
                    let r = if gives {
                        k - 1
                    } else {
                        k
                    };
                    assert(found[k] == rest[r]);
                    assert(is_source_name(entries, target, from + 1, rest[r].from_note));
                    let j = choose|j: int|
                        from + 1 <= j < entries.len() && is_source(#[trigger] entries[j], target)
                            && entries[j].name@ == rest[r].from_note;
                    assert(is_source(entries[j], target));
                }
            }
        }
    }
}

/// A note is never among its own backlinks.
pub proof fn lemma_no_self_backlink(store: &NoteStore, target: Seq<char>)
    ensures
        backlinks_of(store, target) matches Ok(found) ==> forall|k: int|
            0 <= k < found.len() ==> (#[trigger] found[k]).from_note != target,
{
    if let Ok(found) = backlinks_of(store, target) {
        let daily = scan_dir(store, NoteDir::Daily, target)->Ok_0;
        let standalone = scan_dir(store, NoteDir::Standalone, target)->Ok_0;
        lemma_backlinks_come_from_sources(
            store,
            NoteDir::Daily,
            store.daily.entries(),
            target,
            0,
        );
        lemma_backlinks_come_from_sources(
            store,
            NoteDir::Standalone,
            store.standalone.entries(),
            target,
            0,
        );
        assert forall|k: int| 0 <= k < found.len() implies (#[trigger] found[k]).from_note
            != target by {
            if k < daily.len() {
                assert(found[k] == daily[k]);
                assert(is_source_name(store.daily.entries(), target, 0, daily[k].from_note));
            } else {
                let r = k - daily.len();
                assert(found[k] == standalone[r]);
                assert(is_source_name(
                    store.standalone.entries(),
                    target,
                    0,
                    standalone[r].from_note,
                ));
            }
        }
    }
}

/// A note gives one backlink at most, however often it links to the target:
/// where no two entries of a listing share a name, no two backlinks from it
/// name the same note.
pub proof fn lemma_one_backlink_per_note(
    store: &NoteStore,
    dir: NoteDir,
    entries: Seq<NoteEntry>,
    target: Seq<char>,
    from: int,
)
    requires
        0 <= from <= entries.len(),
        distinct_names(entries),
    ensures
        scan_entries(store, dir, entries, target, from) matches Ok(found) ==> forall|
            a: int,
            b: int,
        |
            0 <= a < b < found.len() ==> (#[trigger] found[a]).from_note != (
            #[trigger] found[b]).from_note,
    decreases entries.len() - from,
{
    if from < entries.len() {
        lemma_one_backlink_per_note(store, dir, entries, target, from + 1);
        lemma_backlinks_come_from_sources(store, dir, entries, target, from + 1);
        if let Ok(found) = scan_entries(store, dir, entries, target, from) {
            let rest = scan_entries(store, dir, entries, target, from + 1)->Ok_0;
            assert forall|a: int, b: int| 0 <= a < b < found.len() implies (
            #[trigger] found[a]).from_note != (#[trigger] found[b]).from_note by {
                if found.len() == rest.len() {
                    assert(found == rest);
                } else if a == 0 {
                    assert(found[b] == rest[b - 1]);
                    assert(is_source_name(entries, target, from + 1, rest[b - 1].from_note));
                    let j = choose|j: int|
                        from + 1 <= j < entries.len() && is_source(#[trigger] entries[j], target)
                            && entries[j].name@ == rest[b - 1].from_note;
                    assert(entries[from].name@ != entries[j].name@);
                } else {
                    assert(found[a] == rest[a - 1]);
                    assert(found[b] == rest[b - 1]);
                }
            }
        }
    }
}

/// Tells whether a file name has the extension `md`.
pub fn is_markdown_name(name: &str) -> (yes: bool)
    ensures
        yes == has_md_extension(name@),
{
    let chars = chars_of(name);
    let suffix = chars_of(".md");
    proof {
        reveal_strlit(".md");
    }
    chars.len() > 3 && matches_at(&chars, &suffix, chars.len() - 3)
}

/// The name by which the note in file `filename` is referred to.
pub fn note_stem(filename: &str) -> (stem: String)
    ensures
        stem@ == stem_of(filename@),
{
    let chars = chars_of(filename);
    let suffix = chars_of(".md");
    let end = trailing_bound(&chars, &suffix, chars.len());
    assert(chars@.take(chars.len() as int) == chars@);
    assert(chars@.subrange(0, end as int) == chars@.take(end as int));
    string_of(&chars, 0, end)
}

fn find_referring(
    store: &NoteStore,
    references: &Vec<String>,
    target: &String,
    stem: &String,
) -> (found: Option<usize>)
    requires
        stem@ == stem_of(target@),
    ensures
        match found {
            Some(k) => k < references.len() && first_referring(
                store,
                string_views(references@),
                target@,
                0,
            ) == Some(references[k as int]@),
            None => first_referring(store, string_views(references@), target@, 0) is None,
        },
{
    let mut k: usize = 0;
    while k < references.len()
        invariant
            k <= references.len(),
            stem@ == stem_of(target@),
            first_referring(store, string_views(references@), target@, 0) == first_referring(
                store,
                string_views(references@),
                target@,
                k as int,
            ),
        decreases references.len() - k,
    {
        assert(references[k as int]@ == string_views(references@)[k as int]);
        let resolved = note_exists(store, references[k].as_str());
        if resolved.1 == *target || references[k] == *stem {
            return Some(k);
        }
        k += 1;
    }
    None
}

fn scan_listing(
    store: &NoteStore,
    dir: NoteDir,
    entries: &Vec<NoteEntry>,
    target: &String,
    stem: &String,
) -> (outcome: Result<Vec<BacklinkInfo>, NoteError>)
    requires
        stem@ == stem_of(target@),
    ensures
        outcome_view(outcome) == scan_entries(store, dir, entries@, target@, 0),
{
    let mut found: Vec<BacklinkInfo> = Vec::new();
    let mut i: usize = 0;
    while i < entries.len()
        invariant
            i <= entries.len(),
            stem@ == stem_of(target@),
            scan_entries(store, dir, entries@, target@, 0) == (match scan_entries(
                store,
                dir,
                entries@,
                target@,
                i as int,
            ) {
                Ok(rest) => Ok(backlink_views(found@) + rest),
                Err(e) => Err(e),
            }),
        decreases entries.len() - i,
    {
        let entry = &entries[i];
        let ghost before = backlink_views(found@);
        match &entry.content {
            NoteContent::NotAFile => {},
            NoteContent::Unreadable(message) => {
                if is_markdown_name(entry.name.as_str()) && entry.name != *target {
                    return Err(
                        NoteError::FileUnreadable {
                            dir,
                            filename: entry.name.clone(),
                            message: message.clone(),
                        },
                    );
                }
            },
            NoteContent::Unread => {
                if is_markdown_name(entry.name.as_str()) && entry.name != *target {
                    return Err(NoteError::TextNotRead { dir, filename: entry.name.clone() });
                }
            },
            NoteContent::Text(content) => {
                if is_markdown_name(entry.name.as_str()) && entry.name != *target {
                    let text = chars_of(content.as_str());
                    let references = parse_chars(&text);
                    match find_referring(store, &references, target, stem) {
                        Some(k) => {
                            let reference = chars_of(references[k].as_str());
                            let info = BacklinkInfo {
                                from_note: entry.name.clone(),
                                from_title: note_title(&text, &entry.name),
                                context: context_in(&text, &reference),
                            };
                            found.push(info);
                            assert(backlink_views(found@) == before + seq![info@]);
                            assert(backlink_in(store, entry.name@, content@, target@) == Some(
                                info@,
                            ));
                        },
                        None => {},
                    }
                    proof {
                        let rest = scan_entries(store, dir, entries@, target@, i + 1);
                        if rest is Ok {
                            match backlink_in(store, entry.name@, content@, target@) {
                                Some(backlink) => {
                                    assert(before + (seq![backlink] + rest->Ok_0) == (before
                                        + seq![backlink]) + rest->Ok_0);
                                },
                                None => {},
                            }
                        }
                    }
                }
            },
        }
        i += 1;
    }
    assert(backlink_views(found@) + Seq::<BacklinkView>::empty() == backlink_views(found@));
    Ok(found)
}

fn scan_directory(
    store: &NoteStore,
    dir: NoteDir,
    target: &String,
    stem: &String,
) -> (outcome: Result<Vec<BacklinkInfo>, NoteError>)
    requires
        stem@ == stem_of(target@),
    ensures
        outcome_view(outcome) == scan_dir(store, dir, target@),
{
    let listing = match dir {
        NoteDir::Daily => &store.daily,
        NoteDir::Standalone => &store.standalone,
    };
    match listing {
        DirListing::Unreadable(message) => Err(
            NoteError::DirectoryUnreadable { dir, message: message.clone() },
        ),
        DirListing::Entries(entries) => scan_listing(store, dir, entries, target, stem),
    }
}

/// Finds the notes that link to the note in file `filename`: one entry for
/// each note that does, with its title and the text around its first such
/// link.  The note itself is not searched.  Fails where a directory or a note
/// that has to be searched cannot be read, or was not read into the store.
pub fn get_backlinks(store: &NoteStore, filename: &str) -> (outcome: Result<
    Vec<BacklinkInfo>,
    NoteError,
>)
    ensures
        outcome_view(outcome) == backlinks_of(store, filename@),
{
    let target = String::from_str(filename);
    let stem = note_stem(filename);
    let mut found = match scan_directory(store, NoteDir::Daily, &target, &stem) {
        Ok(found) => found,
        Err(e) => {
            return Err(e);
        },
    };
    let ghost daily = backlink_views(found@);
    let mut more = match scan_directory(store, NoteDir::Standalone, &target, &stem) {
        Ok(more) => more,
        Err(e) => {
            return Err(e);
        },
    };
    let ghost standalone = backlink_views(more@);
    found.append(&mut more);
    assert(backlink_views(found@) == daily + standalone);
    Ok(found)
}

} // verus!
