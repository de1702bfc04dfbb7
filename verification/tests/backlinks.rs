use notomattic::backlinks::{
    get_backlinks, is_markdown_name, note_stem, scan_note_links, BacklinkInfo, WikiLink,
};
use notomattic::errors::NoteError;
use notomattic::store::{DirListing, NoteContent, NoteDir, NoteEntry, NoteStore};
use notomattic::title::title_from_text;

fn note(name: &str, text: &str) -> NoteEntry {
    NoteEntry { name: name.to_string(), content: NoteContent::Text(text.to_string()) }
}

fn unreadable(name: &str, message: &str) -> NoteEntry {
    NoteEntry { name: name.to_string(), content: NoteContent::Unreadable(message.to_string()) }
}

fn store(daily: Vec<NoteEntry>, standalone: Vec<NoteEntry>) -> NoteStore {
    NoteStore { daily: DirListing::Entries(daily), standalone: DirListing::Entries(standalone) }
}

fn backlink(from_note: &str, from_title: &str, context: &str) -> BacklinkInfo {
    BacklinkInfo {
        from_note: from_note.to_string(),
        from_title: from_title.to_string(),
        context: context.to_string(),
    }
}

#[test]
fn project_plan_links_to_daily_log() {
    let notes = store(
        vec![note("2024-01-01.md", "")],
        vec![note("project-plan.md", "# Project Plan\nSee [[Daily Log]] for details.")],
    );
    assert_eq!(
        get_backlinks(&notes, "daily-log.md"),
        Ok(vec![backlink(
            "project-plan.md",
            "Project Plan",
            "# Project Plan\nSee [[Daily Log]] for details."
        )])
    );
}

#[test]
fn a_note_is_not_among_its_own_backlinks() {
    let notes = store(
        vec![],
        vec![note("selfname.md", "[[SelfName]] and [[selfname]]"), note("other.md", "[[SelfName]]")],
    );
    assert_eq!(
        get_backlinks(&notes, "selfname.md"),
        Ok(vec![backlink("other.md", "other.md", "[[SelfName]]")])
    );
    let alone = store(vec![], vec![note("selfname.md", "[[SelfName]]")]);
    assert_eq!(get_backlinks(&alone, "selfname.md"), Ok(vec![]));
}

#[test]
fn three_links_from_one_note_give_one_backlink() {
    let notes = store(
        vec![],
        vec![
            note("target.md", ""),
            note("source.md", "# S\n[[Target]] one, [[target]] two, [[Shown|Target]] three"),
        ],
    );
    let found = get_backlinks(&notes, "target.md").unwrap();
    assert_eq!(found.len(), 1);
    assert_eq!(
        found[0],
        backlink("source.md", "S", "# S\n[[Target]] one, [[target]] two, [[Shown|Target]] three")
    );
}

#[test]
fn context_goes_by_the_first_link_that_matches() {
    let text = format!("[[Other]] {} [[target]] {} [[Target]]", "x".repeat(70), "y".repeat(70));
    let notes = store(vec![], vec![note("source.md", &text)]);
    let found = get_backlinks(&notes, "target.md").unwrap();
    let expected = format!("...{} [[target]] {}...", "x".repeat(49), "y".repeat(49));
    assert_eq!(found, vec![backlink("source.md", "source.md", &expected)]);
}

#[test]
fn daily_notes_come_before_standalone_notes() {
    let notes = store(
        vec![note("2024-01-02.md", "[[T]]"), note("2024-01-01.md", "[[T]]")],
        vec![note("b.md", "[[T]]"), note("a.md", "no link"), note("c.md", "[[T]]")],
    );
    let found = get_backlinks(&notes, "t.md").unwrap();
    let sources: Vec<&str> = found.iter().map(|info| info.from_note.as_str()).collect();
    assert_eq!(sources, vec!["2024-01-02.md", "2024-01-01.md", "b.md", "c.md"]);
}

#[test]
fn a_reference_matches_by_name_as_written() {
    let notes = store(vec![], vec![note("source.md", "on [[2024-01-01]]")]);
    let found = get_backlinks(&notes, "2024-01-01.md").unwrap();
    assert_eq!(found, vec![backlink("source.md", "source.md", "on [[2024-01-01]]")]);
    let notes = store(vec![], vec![note("source.md", "on [[My Day]]")]);
    assert_eq!(
        get_backlinks(&notes, "My Day.md"),
        Ok(vec![backlink("source.md", "source.md", "on [[My Day]]")])
    );
    assert_eq!(get_backlinks(&notes, "your-day.md"), Ok(vec![]));
}

#[test]
fn a_reference_matches_a_daily_note_it_resolves_to() {
    let notes = store(
        vec![note("Trip.md", "")],
        vec![note("source.md", "see [[Trip.md]]")],
    );
    assert_eq!(
        get_backlinks(&notes, "Trip.md"),
        Ok(vec![backlink("source.md", "source.md", "see [[Trip.md]]")])
    );
}

#[test]
fn entries_that_are_no_markdown_files_are_not_searched() {
    let notes = NoteStore {
        daily: DirListing::Entries(vec![
            note("notes.txt", "[[T]]"),
            note(".md", "[[T]]"),
            NoteEntry { name: "folder.md".to_string(), content: NoteContent::NotAFile },
            unreadable("picture.png", "not text"),
        ]),
        standalone: DirListing::Entries(vec![note("..md", "[[T]]")]),
    };
    assert_eq!(get_backlinks(&notes, "t.md"), Ok(vec![backlink("..md", "..md", "[[T]]")]));
}

#[test]
fn an_unreadable_note_fails_the_search() {
    let notes = store(
        vec![note("a.md", "[[T]]"), unreadable("b.md", "denied")],
        vec![unreadable("c.md", "later")],
    );
    assert_eq!(
        get_backlinks(&notes, "t.md"),
        Err(NoteError::FileUnreadable {
            dir: NoteDir::Daily,
            filename: "b.md".to_string(),
            message: "denied".to_string(),
        })
    );
}

#[test]
fn the_target_itself_need_not_be_readable() {
    let notes = store(vec![], vec![unreadable("t.md", "denied"), note("a.md", "[[T]]")]);
    assert_eq!(get_backlinks(&notes, "t.md"), Ok(vec![backlink("a.md", "a.md", "[[T]]")]));
}

#[test]
fn an_unreadable_directory_fails_the_search() {
    let notes = NoteStore {
        daily: DirListing::Unreadable("denied".to_string()),
        standalone: DirListing::Entries(vec![note("a.md", "[[T]]")]),
    };
    assert_eq!(
        get_backlinks(&notes, "t.md"),
        Err(NoteError::DirectoryUnreadable { dir: NoteDir::Daily, message: "denied".to_string() })
    );
    let notes = NoteStore {
        daily: DirListing::Entries(vec![unreadable("a.md", "first")]),
        standalone: DirListing::Unreadable("second".to_string()),
    };
    assert_eq!(
        get_backlinks(&notes, "t.md"),
        Err(NoteError::FileUnreadable {
            dir: NoteDir::Daily,
            filename: "a.md".to_string(),
            message: "first".to_string(),
        })
    );
    let notes = NoteStore {
        daily: DirListing::Entries(vec![note("a.md", "[[T]]")]),
        standalone: DirListing::Unreadable("second".to_string()),
    };
    assert_eq!(
        get_backlinks(&notes, "t.md"),
        Err(NoteError::DirectoryUnreadable {
            dir: NoteDir::Standalone,
            message: "second".to_string(),
        })
    );
}

#[test]
fn empty_store_has_no_backlinks() {
    assert_eq!(get_backlinks(&NoteStore::new(), "t.md"), Ok(vec![]));
}

#[test]
fn scan_resolves_each_link() {
    let notes = store(vec![note("2024-01-01.md", "")], vec![note("plan.md", "")]);
    let links = scan_note_links(&notes, "[[Plan]], [[2024-01-01]], [[Shown|Missing One]], [[Plan]]");
    let link = |text: &str, target: &str, exists: bool| WikiLink {
        text: text.to_string(),
        target: target.to_string(),
        exists,
    };
    assert_eq!(
        links,
        vec![
            link("Plan", "plan.md", true),
            link("2024-01-01", "2024-01-01.md", true),
            link("Missing One", "missing-one.md", false),
            link("Plan", "plan.md", true),
        ]
    );
}

#[test]
fn scanning_twice_gives_the_same() {
    let notes = store(vec![note("2024-01-01.md", "")], vec![note("plan.md", "")]);
    let text = "[[Plan]] [[Nowhere]] [[2024-01-01]]";
    assert_eq!(scan_note_links(&notes, text), scan_note_links(&notes, text));
    let same_names = store(vec![note("2024-01-01.md", "other text")], vec![note("plan.md", "x")]);
    assert_eq!(scan_note_links(&notes, text), scan_note_links(&same_names, text));
}

#[test]
fn scan_of_text_without_links_is_empty() {
    assert!(scan_note_links(&NoteStore::new(), "no links [[").is_empty());
}

#[test]
fn title_is_the_first_heading() {
    assert_eq!(title_from_text("# Project Plan\nbody", "f.md"), "Project Plan");
    assert_eq!(title_from_text("intro\n# One\n# Two", "f.md"), "One");
    assert_eq!(title_from_text("intro\r\n# One\r\nrest", "f.md"), "One");
    assert_eq!(title_from_text("# Last\r", "f.md"), "Last\r");
}

#[test]
fn title_falls_back_to_the_file_name() {
    assert_eq!(title_from_text("", "f.md"), "f.md");
    assert_eq!(title_from_text("no heading", "f.md"), "f.md");
    assert_eq!(title_from_text("## Second level", "f.md"), "f.md");
    assert_eq!(title_from_text("#No space", "f.md"), "f.md");
    assert_eq!(title_from_text(" # Indented", "f.md"), "f.md");
    assert_eq!(title_from_text("text # not at the start", "f.md"), "f.md");
}

#[test]
fn title_loses_every_leading_heading_mark() {
    assert_eq!(title_from_text("# # Twice", "f.md"), "Twice");
    assert_eq!(title_from_text("# ", "f.md"), "");
    assert_eq!(title_from_text("#  Two spaces", "f.md"), " Two spaces");
    assert_eq!(title_from_text("# \r\nnext", "f.md"), "");
}

#[test]
fn markdown_names() {
    assert!(is_markdown_name("a.md"));
    assert!(is_markdown_name("..md"));
    assert!(is_markdown_name("a.b.md"));
    assert!(!is_markdown_name(".md"));
    assert!(!is_markdown_name("md"));
    assert!(!is_markdown_name("a.MD"));
    assert!(!is_markdown_name("a.md.txt"));
    assert!(!is_markdown_name(""));
}

#[test]
fn stem_loses_every_trailing_extension() {
    assert_eq!(note_stem("daily-log.md"), "daily-log");
    assert_eq!(note_stem("a.md.md"), "a");
    assert_eq!(note_stem(".md"), "");
    assert_eq!(note_stem("plain"), "plain");
    assert_eq!(note_stem("a.mdx"), "a.mdx");
}

#[test]
fn a_note_that_was_not_read_fails_the_search() {
    let unread = |name: &str| NoteEntry { name: name.to_string(), content: NoteContent::Unread };
    let notes = store(vec![note("a.md", "[[T]]")], vec![unread("t.md"), unread("b.md")]);
    assert_eq!(
        get_backlinks(&notes, "t.md"),
        Err(NoteError::TextNotRead { dir: NoteDir::Standalone, filename: "b.md".to_string() })
    );
    let notes = store(vec![note("a.md", "[[T]]")], vec![unread("t.md"), unread("b.txt")]);
    assert_eq!(get_backlinks(&notes, "t.md"), Ok(vec![backlink("a.md", "a.md", "[[T]]")]));
}

#[test]
fn links_are_scanned_against_names_alone() {
    let unread = |name: &str| NoteEntry { name: name.to_string(), content: NoteContent::Unread };
    let by_names = store(vec![unread("2024-01-01.md")], vec![unread("plan.md")]);
    let with_text = store(vec![note("2024-01-01.md", "x")], vec![note("plan.md", "y")]);
    let text = "[[Plan]] [[Nowhere]] [[2024-01-01]]";
    assert_eq!(scan_note_links(&by_names, text), scan_note_links(&with_text, text));
}
