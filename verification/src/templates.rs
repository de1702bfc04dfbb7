//! Note templates: the built-in ones, and the identifier derived from a
//! template's name.

use vstd::prelude::*;
use vstd::string::*;
use crate::errors::TemplateError;
use crate::text::{
    char_is_alphanumeric, chars_of, is_alphanumeric, lowercase_of, push_char, replace_all,
    replace_chars, string_of, to_lowercase,
};

verus! {

/// A template for new notes.
#[derive(Clone, Debug, PartialEq, Eq)]
pub struct Template {
    pub id: String,
    pub name: String,
    pub description: String,
    pub icon: String,
    /// Built-in templates cannot be changed or removed.
    pub is_default: bool,
    pub content: String,
}

/// The runs of alphanumeric characters in `s`, joined by single dashes:
/// whatever separates two runs becomes one dash, and what stands before the
/// first run or after the last is dropped.
pub open spec fn dashed_runs(s: Seq<char>) -> Seq<char>
    decreases s.len(),
{
    if s.len() == 0 {
        Seq::empty()
    } else if !is_alphanumeric(s.last()) {
        dashed_runs(s.drop_last())
    } else if s.len() > 1 && !is_alphanumeric(s[s.len() - 2]) && dashed_runs(s.drop_last()).len()
        > 0 {
        dashed_runs(s.drop_last()).push('-').push(s.last())
    } else {
        dashed_runs(s.drop_last()).push(s.last())
    }
}

/// The identifier of the template called `name`.
pub open spec fn template_id_of(name: Seq<char>) -> Seq<char> {
    dashed_runs(lowercase_of(name))
}

/// Derives a template's identifier from its name: lowercase, with every run
/// of other characters between letters and numbers turned into one dash.
pub fn generate_template_id(name: &str) -> (id: String)
    ensures
        id@ == template_id_of(name@),
{
    let lower = to_lowercase(name);
    template_id_from_lowercase(lower.as_str())
}

/// Derives a template's identifier from its name in lowercase.
pub fn template_id_from_lowercase(lower: &str) -> (id: String)
    ensures
        id@ == dashed_runs(lower@),
{
    let chars = chars_of(lower);
    let mut id = String::new();
    let mut started = false;
    let mut i: usize = 0;
    while i < chars.len()
        invariant
            i <= chars.len(),
            id@ == dashed_runs(chars@.take(i as int)),
            started == (id@.len() > 0),
        decreases chars.len() - i,
    {
        let c = chars[i];
        proof {
            let upto = chars@.take(i + 1);
            assert(upto.drop_last() == chars@.take(i as int));
            assert(upto.last() == c);
            if i > 0 {
                assert(upto[upto.len() - 2] == chars@[i - 1]);
            }
        }
        if char_is_alphanumeric(c) {
            if started && i > 0 && !char_is_alphanumeric(chars[i - 1]) {
                push_char(&mut id, '-');
            }
            push_char(&mut id, c);
            started = true;
        }
        i += 1;
    }
    assert(chars@.take(chars.len() as int) == chars@);
    id
}

/// The identifiers of the built-in templates.
pub open spec fn is_default_template_id(id: Seq<char>) -> bool {
    id == "meeting-notes"@ || id == "daily-log"@ || id == "project-plan"@
}

/// The three built-in templates, in the order in which they are offered.  Each
/// gets the body handed in for it.
pub fn get_default_templates(
    meeting_notes: String,
    daily_log: String,
    project_plan: String,
) -> (templates: Vec<Template>)
    ensures
        templates.len() == 3,
        forall|i: int| 0 <= i < 3 ==> (#[trigger] templates[i]).is_default,
        templates[0].id@ == "meeting-notes"@,
        templates[0].name@ == "Meeting Notes"@,
        templates[0].description@ == "Structured template for meeting documentation"@,
        templates[0].icon@ == "users"@,
        templates[0].content == meeting_notes,
        templates[1].id@ == "daily-log"@,
        templates[1].name@ == "Daily Log"@,
        templates[1].description@ == "Track your daily goals, accomplishments, and reflections"@,
        templates[1].icon@ == "calendar"@,
        templates[1].content == daily_log,
        templates[2].id@ == "project-plan"@,
        templates[2].name@ == "Project Plan"@,
        templates[2].description@ == "Plan and track project goals, timeline, and resources"@,
        templates[2].icon@ == "clipboard"@,
        templates[2].content == project_plan,
{
    let mut templates: Vec<Template> = Vec::new();
    templates.push(
        Template {
            id: String::from_str("meeting-notes"),
            name: String::from_str("Meeting Notes"),
            description: String::from_str("Structured template for meeting documentation"),
            icon: String::from_str("users"),
            is_default: true,
            content: meeting_notes,
        },
    );
    templates.push(
        Template {
            id: String::from_str("daily-log"),
            name: String::from_str("Daily Log"),
            description: String::from_str(
                "Track your daily goals, accomplishments, and reflections",
            ),
            icon: String::from_str("calendar"),
            is_default: true,
            content: daily_log,
        },
    );
    templates.push(
        Template {
            id: String::from_str("project-plan"),
            name: String::from_str("Project Plan"),
            description: String::from_str("Plan and track project goals, timeline, and resources"),
            icon: String::from_str("clipboard"),
            is_default: true,
            content: project_plan,
        },
    );
    templates
}

/// What a user hands in to make or change a template.
#[derive(Clone, Debug, PartialEq, Eq)]
pub struct SaveTemplateInput {
    pub name: String,
    pub description: String,
    pub icon: String,
    pub content: String,
}

/// Tells whether `id` is the identifier of a built-in template.
pub fn is_default_template(id: &str) -> (yes: bool)
    ensures
        yes == is_default_template_id(id@),
{
    let id = String::from_str(id);
    id == String::from_str("meeting-notes") || id == String::from_str("daily-log") || id
        == String::from_str("project-plan")
}

/// The custom template with this identifier and what the user handed in.
pub open spec fn is_custom_template(
    template: Template,
    id: String,
    input: SaveTemplateInput,
) -> bool {
    &&& template.id == id
    &&& template.name == input.name
    &&& template.description == input.description
    &&& template.icon == input.icon
    &&& !template.is_default
    &&& template.content == input.content
}

/// Makes a new custom template from what the user handed in.  Its identifier
/// is derived from its name.  `taken` says whether a custom template of that
/// identifier is stored already.  Fails where it is, and where the identifier
/// is that of a built-in template.
pub fn save_template(input: SaveTemplateInput, taken: bool) -> (made: Result<
    Template,
    TemplateError,
>)
    ensures
        match made {
            Ok(template) => {
                &&& !taken
                &&& !is_default_template_id(template_id_of(input.name@))
                &&& template.id@ == template_id_of(input.name@)
                &&& is_custom_template(template, template.id, input)
            },
            Err(TemplateError::NameTaken { name }) => taken && name == input.name,
            Err(TemplateError::BuiltIn { id }) => !taken && id@ == template_id_of(input.name@)
                && is_default_template_id(id@),
            Err(_) => false,
        },
{
    let id = generate_template_id(input.name.as_str());
    if taken {
        return Err(TemplateError::NameTaken { name: input.name });
    }
    if is_default_template(id.as_str()) {
        return Err(TemplateError::BuiltIn { id });
    }
    Ok(
        Template {
            id,
            name: input.name,
            description: input.description,
            icon: input.icon,
            is_default: false,
            content: input.content,
        },
    )
}

/// Changes the custom template `id` to what the user handed in.  `stored`
/// says whether a custom template of that identifier is stored.  Fails for a
/// built-in template, and where no such template is stored.
pub fn update_template(id: String, input: SaveTemplateInput, stored: bool) -> (changed: Result<
    Template,
    TemplateError,
>)
    ensures
        match changed {
            Ok(template) => !is_default_template_id(id@) && stored && is_custom_template(
                template,
                id,
                input,
            ),
            Err(TemplateError::BuiltIn { id: refused }) => is_default_template_id(id@) && refused
                == id,
            Err(TemplateError::NotFound { id: missing }) => !is_default_template_id(id@) && !stored
                && missing == id,
            Err(_) => false,
        },
{
    if is_default_template(id.as_str()) {
        return Err(TemplateError::BuiltIn { id });
    }
    if !stored {
        return Err(TemplateError::NotFound { id });
    }
    Ok(
        Template {
            id,
            name: input.name,
            description: input.description,
            icon: input.icon,
            is_default: false,
            content: input.content,
        },
    )
}

/// Decides whether the template `id` may be removed: a built-in one may not.
pub fn delete_template(id: String) -> (allowed: Result<(), TemplateError>)
    ensures
        match allowed {
            Ok(_) => !is_default_template_id(id@),
            Err(TemplateError::BuiltIn { id: refused }) => is_default_template_id(id@) && refused
                == id,
            Err(_) => false,
        },
{
    if is_default_template(id.as_str()) {
        return Err(TemplateError::BuiltIn { id });
    }
    Ok(())
}

/// A moment of local time, written out as templates show it.
#[derive(Clone, Debug, PartialEq, Eq)]
pub struct Moment {
    /// The date, as in `2024-01-31`.
    pub date: String,
    /// The time of day, as in `09:05`.
    pub time: String,
    /// The name of the day of the week, as in `Wednesday`.
    pub day_of_week: String,
}

/// `at` is the first of the templates that has the identifier `id`.
pub open spec fn is_first_with_id(templates: Seq<Template>, id: Seq<char>, at: int) -> bool {
    &&& 0 <= at < templates.len()
    &&& templates[at].id@ == id
    &&& forall|j: int| 0 <= j < at ==> (#[trigger] templates[j]).id@ != id
}

proof fn lemma_first_with_id_is(templates: Seq<Template>, id: Seq<char>, at: int)
    requires
        is_first_with_id(templates, id, at),
    ensures
        exists|k: int| is_first_with_id(templates, id, k),
        (choose|k: int| is_first_with_id(templates, id, k)) == at,
{
    let chosen = choose|k: int| is_first_with_id(templates, id, k);
    if chosen < at {
        assert(templates[chosen].id@ != id);
    } else if at < chosen {
        assert(templates[at].id@ == id);
    }
}

/// The template that the identifier `id` stands for: the first built-in one
/// of that identifier; where there is none, the stored one, if it was read;
/// the failure to read it, if it was not; and where nothing is stored, the
/// failure to find one.
pub open spec fn template_for(
    id: String,
    defaults: Seq<Template>,
    stored: Option<Result<Template, String>>,
) -> Result<Template, TemplateError> {
    if exists|at: int| is_first_with_id(defaults, id@, at) {
        Ok(defaults[choose|at: int| is_first_with_id(defaults, id@, at)])
    } else {
        match stored {
            Some(Ok(template)) => Ok(template),
            Some(Err(message)) => Err(TemplateError::Unreadable { id, message }),
            None => Err(TemplateError::NotFound { id }),
        }
    }
}

/// Finds the template that an identifier stands for.  `defaults` are the
/// built-in templates; `stored` is what reading the custom template of that
/// identifier gave, or nothing where none is stored.  A built-in template goes
/// before a stored one.
pub fn get_template(
    id: String,
    defaults: Vec<Template>,
    stored: Option<Result<Template, String>>,
) -> (found: Result<Template, TemplateError>)
    ensures
        found == template_for(id, defaults@, stored),
{
    let mut templates = defaults;
    let mut at: usize = 0;
    while at < templates.len()
        invariant
            at <= templates.len(),
            templates@ == defaults@,
            forall|j: int| 0 <= j < at ==> (#[trigger] defaults@[j]).id@ != id@,
        decreases templates.len() - at,
    {
        if templates[at].id == id {
            proof {
                lemma_first_with_id_is(defaults@, id@, at as int);
            }
            return Ok(templates.remove(at));
        }
        at += 1;
    }
    match stored {
        Some(Ok(template)) => Ok(template),
        Some(Err(message)) => Err(TemplateError::Unreadable { id, message }),
        None => Err(TemplateError::NotFound { id }),
    }
}

/// The pattern by which a moment's date is written out, in `strftime` terms.
pub const DATE_PATTERN: &'static str = "%Y-%m-%d";

/// The pattern by which a moment's time of day is written out.
pub const TIME_PATTERN: &'static str = "%H:%M";

/// The pattern by which a moment's day of the week is written out.
pub const DAY_OF_WEEK_PATTERN: &'static str = "%A";

/// A template's text with its variables filled in: first every `{{date}}`,
/// then every `{{time}}`, then every `{{day_of_week}}`.
pub open spec fn filled_in(
    content: Seq<char>,
    date: Seq<char>,
    time: Seq<char>,
    day_of_week: Seq<char>,
) -> Seq<char> {
    replace_all(
        replace_all(replace_all(content, "{{date}}"@, date), "{{time}}"@, time),
        "{{day_of_week}}"@,
        day_of_week,
    )
}

/// Fills in a template's variables for the given moment.
pub fn replace_template_variables(content: String, moment: &Moment) -> (text: String)
    ensures
        text@ == filled_in(content@, moment.date@, moment.time@, moment.day_of_week@),
{
    let text = chars_of(content.as_str());
    let dated = replace_chars(&text, &chars_of("{{date}}"), &chars_of(moment.date.as_str()));
    let timed = replace_chars(&dated, &chars_of("{{time}}"), &chars_of(moment.time.as_str()));
    let done = replace_chars(
        &timed,
        &chars_of("{{day_of_week}}"),
        &chars_of(moment.day_of_week.as_str()),
    );
    assert(done@.subrange(0, done.len() as int) == done@);
    string_of(&done, 0, done.len())
}

} // verus!
