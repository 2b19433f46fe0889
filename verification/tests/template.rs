use mdbook_typst_doc::error::Error;
use mdbook_typst_doc::template::{may_include, Field, TemplateData, TemplateSet};

#[test]
fn registered_template_is_rendered() {
    let mut set = TemplateSet::new();
    assert_eq!(set.register("greeting", "Hello {{input}}!"), Ok(()));
    assert_eq!(
        set.render("greeting", TemplateData::Program { input: "<world> & co".to_string() }),
        Ok("Hello <world> & co!".to_string())
    );
}

#[test]
fn later_template_replaces_the_earlier() {
    let mut set = TemplateSet::new();
    set.register("t", "one {{input}}").unwrap();
    set.register("t", "two {{input}}").unwrap();
    assert_eq!(
        set.render("t", TemplateData::Program { input: "x".to_string() }),
        Ok("two x".to_string())
    );
}

#[test]
fn refused_template_leaves_the_set_as_it_was() {
    let mut set = TemplateSet::new();
    set.register("t", "one {{input}}").unwrap();
    assert!(matches!(set.register("t", "{{#if input}}open"), Err(Error::Configuration(_))));
    assert!(matches!(set.register("u", "{{/if}}"), Err(Error::Configuration(_))));
    assert_eq!(
        set.render("t", TemplateData::Program { input: "x".to_string() }),
        Ok("one x".to_string())
    );
    assert!(set.render("u", TemplateData::Program { input: "x".to_string() }).is_err());
}

#[test]
fn unknown_template_is_a_render_error() {
    let set = TemplateSet::new();
    let out = set.render("missing", TemplateData::Code { source: "x".to_string() });
    assert!(matches!(out, Err(Error::TemplateRender { template, .. }) if template == "missing"));
}

#[test]
fn fields_are_handed_over_by_name() {
    let data = TemplateData::Type {
        name: "Foo".to_string(),
        class: "bar".to_string(),
        link: Some("x.html".to_string()),
        use_link: false,
    };
    assert_eq!(
        data.fields(),
        vec![
            ("name".to_string(), Field::Text("Foo".to_string())),
            ("class".to_string(), Field::Text("bar".to_string())),
            ("use_link".to_string(), Field::Flag(false)),
            ("link".to_string(), Field::Text("x.html".to_string())),
        ]
    );
    let parameter = TemplateData::Parameter {
        name: None,
        types: Some(vec!["A".to_string()]),
        default: None,
        description: Some("d".to_string()),
    };
    assert_eq!(
        parameter.fields(),
        vec![
            ("types".to_string(), Field::List(vec!["A".to_string()])),
            ("description".to_string(), Field::Text("d".to_string())),
        ]
    );
    assert_eq!(
        TemplateData::Example { source: "s".to_string(), image: "i".to_string() }.fields(),
        vec![
            ("source".to_string(), Field::Text("s".to_string())),
            ("image".to_string(), Field::Text("i".to_string())),
        ]
    );
}

#[test]
fn template_sees_lists_and_flags() {
    let mut set = TemplateSet::new();
    set.register("p", "{{name}}:{{#each types}}[{{this}}]{{/each}}{{#if default}}={{default}}{{/if}}")
        .unwrap();
    set.register("t", "{{#if use_link}}yes{{else}}no{{/if}} {{link}}").unwrap();
    assert_eq!(
        set.render(
            "p",
            TemplateData::Parameter {
                name: Some("n".to_string()),
                types: Some(vec!["A".to_string(), "B".to_string()]),
                default: None,
                description: None,
            }
        ),
        Ok("n:[A][B]".to_string())
    );
    assert_eq!(
        set.render(
            "t",
            TemplateData::Type {
                name: "n".to_string(),
                class: "c".to_string(),
                link: None,
                use_link: false
            }
        ),
        Ok("no ".to_string())
    );
}

#[test]
fn inclusion_is_found_in_every_form() {
    assert!(may_include("{{> other}}"));
    assert!(may_include("a {{>other}} b"));
    assert!(may_include("{{~> other}}"));
    assert!(may_include("{{#> other}}x{{/other}}"));
    assert!(may_include("{{~#> other}}x{{/other}}"));
    assert!(may_include("{{ \t\r\n~ # > other}}"));
    assert!(may_include("{{{> other}}}"));
    assert!(may_include("\u{e9}{{> (lookup . \"name\")}}"));
    assert!(may_include("{{name}}{{>"));
}

#[test]
fn other_tags_are_no_inclusion() {
    assert!(!may_include(""));
    assert!(!may_include("plain > text"));
    assert!(!may_include("{{name}} > {{class}}"));
    assert!(!may_include("{{#if (gt a b)}}x{{/if}}"));
    assert!(!may_include("{ {> other}}"));
    assert!(!may_include("{{x> other}}"));
    assert!(!may_include("{{"));
    assert!(!may_include("{{ ~#"));
    assert!(!may_include("{{#each types}} {{this}}{{/each}}"));
    assert!(!may_include("<a href=\"{{link}}\">{{name}}</a>"));
}

#[test]
fn template_that_includes_another_is_refused() {
    let mut set = TemplateSet::new();
    set.register("code", "[{{source}}]").unwrap();
    assert_eq!(
        set.register("type", "{{> code}}"),
        Err(Error::Configuration("Template 'type' includes another template".to_string()))
    );
    assert_eq!(
        set.register("code", "{{~#> type}}{{/type}}"),
        Err(Error::Configuration("Template 'code' includes another template".to_string()))
    );
    assert_eq!(
        set.render("code", TemplateData::Code { source: "x".to_string() }),
        Ok("[x]".to_string())
    );
    assert!(set.render("type", TemplateData::Code { source: "x".to_string() }).is_err());
}
