use notomattic::errors::TemplateError;
use notomattic::templates::{
    generate_template_id, get_default_templates, get_template, replace_template_variables,
    template_id_from_lowercase, Moment, Template, DATE_PATTERN, DAY_OF_WEEK_PATTERN, TIME_PATTERN,
};

fn fill_template(content: &str, moment: &Moment) -> String {
    replace_template_variables(content.to_string(), moment)
}

fn moment() -> Moment {
    Moment {
        date: "2024-01-31".to_string(),
        time: "09:05".to_string(),
        day_of_week: "Wednesday".to_string(),
    }
}

#[test]
fn template_id_of_a_name() {
    assert_eq!(generate_template_id("Meeting Notes"), "meeting-notes");
    assert_eq!(generate_template_id("Daily Log"), "daily-log");
    assert_eq!(generate_template_id("  My -- Template!  "), "my-template");
    assert_eq!(generate_template_id("a_b.c"), "a-b-c");
    assert_eq!(generate_template_id("Über 9"), "über-9");
}

#[test]
fn template_id_of_nothing_alphanumeric_is_empty() {
    assert_eq!(generate_template_id(""), "");
    assert_eq!(generate_template_id("---"), "");
    assert_eq!(generate_template_id(" ! "), "");
}

#[test]
fn default_templates() {
    let templates =
        get_default_templates("meeting".to_string(), "daily".to_string(), "project".to_string());
    let seen: Vec<(&str, &str, &str, &str, bool, &str)> = templates
        .iter()
        .map(|t| {
            (
                t.id.as_str(),
                t.name.as_str(),
                t.description.as_str(),
                t.icon.as_str(),
                t.is_default,
                t.content.as_str(),
            )
        })
        .collect();
    assert_eq!(
        seen,
        vec![
            (
                "meeting-notes",
                "Meeting Notes",
                "Structured template for meeting documentation",
                "users",
                true,
                "meeting"
            ),
            (
                "daily-log",
                "Daily Log",
                "Track your daily goals, accomplishments, and reflections",
                "calendar",
                true,
                "daily"
            ),
            (
                "project-plan",
                "Project Plan",
                "Plan and track project goals, timeline, and resources",
                "clipboard",
                true,
                "project"
            ),
        ]
    );
}

#[test]
fn default_template_ids_are_those_of_their_names() {
    for template in get_default_templates(String::new(), String::new(), String::new()) {
        assert_eq!(generate_template_id(&template.name), template.id);
    }
}

#[test]
fn variables_are_filled_in() {
    assert_eq!(
        fill_template("# {{date}} ({{day_of_week}})\nStarted {{time}}, {{date}}.", &moment()),
        "# 2024-01-31 (Wednesday)\nStarted 09:05, 2024-01-31."
    );
}

#[test]
fn text_without_variables_stays() {
    assert_eq!(fill_template("", &moment()), "");
    assert_eq!(fill_template("{date} {{ time }} {{Date}}", &moment()), "{date} {{ time }} {{Date}}");
    assert_eq!(fill_template("{{{date}}}", &moment()), "{2024-01-31}");
}

#[test]
fn variables_are_filled_in_one_after_the_other() {
    let odd = Moment {
        date: "{{time}}".to_string(),
        time: "{{day_of_week}}".to_string(),
        day_of_week: "{{date}}".to_string(),
    };
    assert_eq!(fill_template("{{date}}", &odd), "{{date}}");
    assert_eq!(fill_template("{{day_of_week}}", &odd), "{{date}}");
}

#[test]
fn moments_are_written_by_these_patterns() {
    assert_eq!(DATE_PATTERN, "%Y-%m-%d");
    assert_eq!(TIME_PATTERN, "%H:%M");
    assert_eq!(DAY_OF_WEEK_PATTERN, "%A");
}

#[test]
fn template_id_of_a_name_in_lowercase() {
    assert_eq!(template_id_from_lowercase("meeting notes"), "meeting-notes");
    assert_eq!(template_id_from_lowercase("Meeting Notes"), "Meeting-Notes");
    assert_eq!(template_id_from_lowercase("--a--"), "a");
}

fn defaults() -> Vec<Template> {
    get_default_templates("meeting".to_string(), "daily".to_string(), "project".to_string())
}

#[test]
fn built_in_template_goes_before_a_stored_one() {
    let stored = custom("daily-log", "Mine");
    let found = get_template("daily-log".to_string(), defaults(), Some(Ok(stored))).unwrap();
    assert_eq!(found, defaults()[1]);
    let found =
        get_template("daily-log".to_string(), defaults(), Some(Err("broken".to_string())));
    assert_eq!(found, Ok(defaults()[1].clone()));
    assert_eq!(
        get_template("project-plan".to_string(), defaults(), None),
        Ok(defaults()[2].clone())
    );
}

#[test]
fn stored_template_is_found_where_no_built_in_one_is() {
    let stored = custom("weekly", "Weekly");
    assert_eq!(
        get_template("weekly".to_string(), defaults(), Some(Ok(stored.clone()))),
        Ok(stored)
    );
}

#[test]
fn template_that_is_missing_or_broken_is_not_found() {
    assert_eq!(
        get_template("weekly".to_string(), defaults(), None),
        Err(TemplateError::NotFound { id: "weekly".to_string() })
    );
    assert_eq!(
        get_template("weekly".to_string(), defaults(), Some(Err("broken".to_string()))),
        Err(TemplateError::Unreadable { id: "weekly".to_string(), message: "broken".to_string() })
    );
    assert_eq!(
        get_template("Daily Log".to_string(), Vec::new(), None),
        Err(TemplateError::NotFound { id: "Daily Log".to_string() })
    );
}

fn input(name: &str) -> notomattic::templates::SaveTemplateInput {
    notomattic::templates::SaveTemplateInput {
        name: name.to_string(),
        description: "what it is for".to_string(),
        icon: "star".to_string(),
        content: "# {{date}}".to_string(),
    }
}

fn custom(id: &str, name: &str) -> Template {
    Template {
        id: id.to_string(),
        name: name.to_string(),
        description: "what it is for".to_string(),
        icon: "star".to_string(),
        is_default: false,
        content: "# {{date}}".to_string(),
    }
}

#[test]
fn built_in_identifiers() {
    assert!(notomattic::templates::is_default_template("meeting-notes"));
    assert!(notomattic::templates::is_default_template("daily-log"));
    assert!(notomattic::templates::is_default_template("project-plan"));
    assert!(!notomattic::templates::is_default_template("Meeting Notes"));
    assert!(!notomattic::templates::is_default_template(""));
}

#[test]
fn saved_template_is_named_by_its_identifier() {
    assert_eq!(
        notomattic::templates::save_template(input("Weekly Review"), false),
        Ok(custom("weekly-review", "Weekly Review"))
    );
}

#[test]
fn template_is_not_saved_over_another() {
    assert_eq!(
        notomattic::templates::save_template(input("Weekly Review"), true),
        Err(TemplateError::NameTaken { name: "Weekly Review".to_string() })
    );
    assert_eq!(
        notomattic::templates::save_template(input("Daily  Log!"), false),
        Err(TemplateError::BuiltIn { id: "daily-log".to_string() })
    );
    assert_eq!(
        notomattic::templates::save_template(input("Daily Log"), true),
        Err(TemplateError::NameTaken { name: "Daily Log".to_string() })
    );
}

#[test]
fn only_stored_custom_templates_are_changed() {
    let update = notomattic::templates::update_template;
    assert_eq!(
        update("weekly".to_string(), input("Weekly Review"), true),
        Ok(custom("weekly", "Weekly Review"))
    );
    assert_eq!(
        update("weekly".to_string(), input("Weekly Review"), false),
        Err(TemplateError::NotFound { id: "weekly".to_string() })
    );
    assert_eq!(
        update("project-plan".to_string(), input("Mine"), true),
        Err(TemplateError::BuiltIn { id: "project-plan".to_string() })
    );
}

#[test]
fn built_in_templates_are_not_removed() {
    assert_eq!(notomattic::templates::delete_template("weekly".to_string()), Ok(()));
    assert_eq!(
        notomattic::templates::delete_template("meeting-notes".to_string()),
        Err(TemplateError::BuiltIn { id: "meeting-notes".to_string() })
    );
}
