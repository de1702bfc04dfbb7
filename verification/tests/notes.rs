use notomattic::errors::{NoteError, TemplateError};
use notomattic::notes::{create_note_from_link, list_notes, NoteFile};
use notomattic::store::{DirListing, NoteContent, NoteDir, NoteEntry, NoteStore};
use notomattic::templates::{Moment, Template};

fn note(name: &str, text: &str) -> NoteEntry {
    NoteEntry { name: name.to_string(), content: NoteContent::Text(text.to_string()) }
}

fn store(daily: Vec<NoteEntry>, standalone: Vec<NoteEntry>) -> NoteStore {
    NoteStore { daily: DirListing::Entries(daily), standalone: DirListing::Entries(standalone) }
}

#[test]
fn daily_note_is_listed_with_its_date() {
    assert_eq!(
        NoteFile::new(NoteDir::Daily, "2024-01-01.md"),
        NoteFile {
            name: "2024-01-01.md".to_string(),
            path: "daily/2024-01-01.md".to_string(),
            is_daily: true,
            date: Some("2024-01-01".to_string()),
        }
    );
    assert_eq!(NoteFile::new(NoteDir::Daily, "a.md.md").date, Some("a.md".to_string()));
    assert_eq!(NoteFile::new(NoteDir::Daily, "plain").date, None);
}

#[test]
fn standalone_note_is_listed_without_date() {
    assert_eq!(
        NoteFile::new(NoteDir::Standalone, "plan.md"),
        NoteFile {
            name: "plan.md".to_string(),
            path: "notes/plan.md".to_string(),
            is_daily: false,
            date: None,
        }
    );
}

#[test]
fn notes_are_listed_daily_first() {
    let notes = NoteStore {
        daily: DirListing::Entries(vec![
            note("2024-01-02.md", ""),
            note("readme.txt", ""),
            NoteEntry { name: "folder.md".to_string(), content: NoteContent::NotAFile },
        ]),
        standalone: DirListing::Entries(vec![note(".md", ""), note("b.md", ""), note("a.md", "")]),
    };
    let names: Vec<(String, bool)> =
        list_notes(&notes).into_iter().map(|file| (file.path, file.is_daily)).collect();
    assert_eq!(
        names,
        vec![
            ("daily/2024-01-02.md".to_string(), true),
            ("daily/folder.md".to_string(), true),
            ("notes/b.md".to_string(), false),
            ("notes/a.md".to_string(), false),
        ]
    );
}

#[test]
fn unreadable_directory_lists_nothing() {
    let notes = NoteStore {
        daily: DirListing::Unreadable("denied".to_string()),
        standalone: DirListing::Entries(vec![note("a.md", "")]),
    };
    assert_eq!(list_notes(&notes), vec![NoteFile::new(NoteDir::Standalone, "a.md")]);
    assert!(list_notes(&NoteStore::new()).is_empty());
}

#[test]
fn note_for_a_link_starts_with_its_heading() {
    let notes = store(vec![note("daily-log.md", "")], vec![note("other.md", "")]);
    assert_eq!(
        create_note_from_link(&notes, "Daily Log"),
        Ok(note("daily-log.md", "# Daily Log\n\n"))
    );
}

#[test]
fn note_for_a_link_is_not_made_twice() {
    let notes = store(vec![], vec![note("daily-log.md", "")]);
    assert_eq!(
        create_note_from_link(&notes, "Daily Log"),
        Err(NoteError::AlreadyExists { filename: "daily-log.md".to_string() })
    );
    assert_eq!(
        create_note_from_link(&notes, " daily LOG"),
        Err(NoteError::AlreadyExists { filename: "daily-log.md".to_string() })
    );
}

#[test]
fn made_note_is_found_by_its_reference() {
    let mut standalone = vec![note("other.md", "")];
    let made = create_note_from_link(&store(vec![], standalone.clone()), "New Idea").unwrap();
    standalone.push(made);
    let notes = store(vec![], standalone);
    assert_eq!(
        notomattic::resolve::note_exists(&notes, "New Idea"),
        (true, "new-idea.md".to_string())
    );
    assert_eq!(
        notomattic::title::title_from_text("# New Idea\n\n", "new-idea.md"),
        "New Idea"
    );
}

#[test]
fn empty_note_is_named_by_its_title() {
    let notes = store(vec![note("Ideas.md", "")], vec![note("other.md", "")]);
    assert_eq!(notomattic::notes::create_note(&notes, "Ideas"), Ok(note("Ideas.md", "")));
    assert_eq!(
        notomattic::notes::create_note(&notes, "other"),
        Err(NoteError::AlreadyExists { filename: "other.md".to_string() })
    );
}

#[test]
fn rename_needs_the_old_name_and_not_the_new() {
    let notes = store(vec![note("d.md", "")], vec![note("a.md", ""), note("b.md", "")]);
    let rename = notomattic::notes::rename_note;
    assert_eq!(rename(&notes, NoteDir::Standalone, "a.md", "c.md"), Ok(()));
    assert_eq!(rename(&notes, NoteDir::Standalone, "a.md", "d.md"), Ok(()));
    assert_eq!(
        rename(&notes, NoteDir::Standalone, "x.md", "b.md"),
        Err(NoteError::NotFound { filename: "x.md".to_string() })
    );
    assert_eq!(
        rename(&notes, NoteDir::Standalone, "a.md", "b.md"),
        Err(NoteError::AlreadyExists { filename: "b.md".to_string() })
    );
    assert_eq!(
        rename(&notes, NoteDir::Daily, "a.md", "c.md"),
        Err(NoteError::NotFound { filename: "a.md".to_string() })
    );
}

fn moment() -> Moment {
    Moment {
        date: "2024-01-31".to_string(),
        time: "09:05".to_string(),
        day_of_week: "Wednesday".to_string(),
    }
}

fn template(content: &str) -> Template {
    Template {
        id: "weekly".to_string(),
        name: "Weekly".to_string(),
        description: String::new(),
        icon: String::new(),
        is_default: false,
        content: content.to_string(),
    }
}

#[test]
fn note_from_a_template_holds_its_text_filled_in() {
    let notes = store(vec![note("taken.md", "")], vec![note("other.md", "")]);
    assert_eq!(
        notomattic::notes::create_note_from_template(
            &notes,
            NoteDir::Daily,
            "2024-01-31.md",
            Ok(template("# {{date}}\n{{day_of_week}} {{time}}")),
            &moment()
        ),
        Ok(note("2024-01-31.md", "# 2024-01-31\nWednesday 09:05"))
    );
    assert_eq!(
        notomattic::notes::create_note_from_template(
            &notes,
            NoteDir::Standalone,
            "taken.md",
            Ok(template("plain")),
            &moment()
        ),
        Ok(note("taken.md", "plain"))
    );
}

#[test]
fn note_from_a_template_needs_a_free_name_first() {
    let notes = store(vec![note("taken.md", "")], vec![]);
    let missing = TemplateError::NotFound { id: "weekly".to_string() };
    assert_eq!(
        notomattic::notes::create_note_from_template(
            &notes,
            NoteDir::Daily,
            "taken.md",
            Ok(template("x")),
            &moment()
        ),
        Err(NoteError::AlreadyExists { filename: "taken.md".to_string() })
    );
    assert_eq!(
        notomattic::notes::create_note_from_template(
            &notes,
            NoteDir::Daily,
            "taken.md",
            Err(missing.clone()),
            &moment()
        ),
        Err(NoteError::AlreadyExists { filename: "taken.md".to_string() })
    );
    assert_eq!(
        notomattic::notes::create_note_from_template(
            &notes,
            NoteDir::Daily,
            "free.md",
            Err(missing.clone()),
            &moment()
        ),
        Err(NoteError::Template { error: missing })
    );
}

#[test]
fn notes_are_listed_by_names_alone() {
    let unread = |name: &str| NoteEntry { name: name.to_string(), content: NoteContent::Unread };
    let notes = store(vec![unread("2024-01-02.md")], vec![unread("a.md"), unread("b.txt")]);
    assert_eq!(
        list_notes(&notes),
        vec![
            NoteFile::new(NoteDir::Daily, "2024-01-02.md"),
            NoteFile::new(NoteDir::Standalone, "a.md")
        ]
    );
}
