use mdbook_typst_doc::cache::{RenderCache, RenderJob};
use mdbook_typst_doc::config::{Config, HostConfig, Value};
use mdbook_typst_doc::error::Error;
use mdbook_typst_doc::highlight::{highlight, Mode};
use mdbook_typst_doc::rewrite::{
    group, pattern, replace, replace_code, replace_parameter, replace_type, rewrite_found,
    split_types, Pass,
};
use mdbook_typst_doc::TypstPreprocessor;

fn process(text: &str, config: &Config, cache: &mut RenderCache) -> Result<String, Error> {
    TypstPreprocessor::new().process(text, config, cache)
}

fn text(value: &str) -> Value {
    Value::String(value.to_string())
}

fn table(entries: Vec<(&str, Value)>) -> Value {
    Value::Table(entries.into_iter().map(|(key, value)| (key.to_string(), value)).collect())
}

fn config_with(entries: Vec<(&str, Value)>) -> Config {
    let host = HostConfig {
        src: "src/mdbook-typst-doc".to_string(),
        cache: "cache".to_string(),
        table: Some(entries.into_iter().map(|(key, value)| (key.to_string(), value)).collect()),
        templates: Vec::new(),
    };
    Config::from_config(&host).unwrap()
}

fn foo_config() -> Config {
    config_with(vec![(
        "types",
        table(vec![("Foo", table(vec![("class", text("bar")), ("link", text("x.html"))]))]),
    )])
}

fn lenient_config() -> Config {
    config_with(vec![
        ("default-type-class", text("obj")),
        (
            "types",
            table(vec![("Foo", table(vec![("class", text("bar")), ("link", text("x.html"))]))]),
        ),
    ])
}

fn empty_cache() -> RenderCache {
    RenderCache::new(Vec::new())
}

#[test]
fn type_reference_becomes_a_link() {
    let mut cache = empty_cache();
    let out = process("See {{#type Foo}}", &foo_config(), &mut cache).unwrap();
    assert_eq!(out, "See <a class=\"type-Foo bar\" href=\"x.html\">Foo</a>");
    assert!(out.contains("<a "));
    assert!(out.contains("href=\"x.html\""));
    assert!(out.contains(">Foo</a>"));
    assert!(out.contains("type-Foo"));
    assert!(cache.jobs().is_empty());
}

#[test]
fn negated_type_reference_becomes_a_span() {
    let mut cache = empty_cache();
    let out = process("{{#!type Foo}}", &foo_config(), &mut cache).unwrap();
    assert_eq!(out, "<span class=\"type-Foo bar\">Foo</span>");
    assert!(out.contains("<span"));
    assert!(!out.contains("<a"));
    assert!(!out.contains("x.html"));
}

#[test]
fn type_without_link_becomes_a_span() {
    let mut cache = empty_cache();
    let out = process("{{#type int}} and {{#!type int}}", &lenient_config(), &mut cache).unwrap();
    assert_eq!(
        out,
        "<span class=\"type-int obj\">int</span> and <span class=\"type-int obj\">int</span>"
    );
}

#[test]
fn unknown_type_fails_the_pass() {
    let mut cache = empty_cache();
    let out = process("{{#type Foo}} {{#type Bar}} {{#type Baz}}", &foo_config(), &mut cache);
    assert_eq!(out, Err(Error::UnknownType("Bar".to_string())));
}

#[test]
fn body_without_markers_is_unchanged() {
    let body = "# Title\n\nSome *text* with `code`, {{ braces }} and <b>tags</b>.\n\n```rust\nfn main() {}\n```\n";
    let mut cache = empty_cache();
    assert_eq!(process(body, &foo_config(), &mut cache), Ok(body.to_string()));
    assert!(cache.jobs().is_empty());
    assert_eq!(process("", &foo_config(), &mut cache), Ok(String::new()));
    assert_eq!(
        process("caf\u{e9} \u{1f600}", &foo_config(), &mut cache),
        Ok("caf\u{e9} \u{1f600}".to_string())
    );
}

#[test]
fn type_reference_does_not_cross_a_line() {
    let body = "{{#type Foo\n}}";
    let mut cache = empty_cache();
    assert_eq!(process(body, &foo_config(), &mut cache), Ok(body.to_string()));
}

#[test]
fn text_around_references_is_kept() {
    let mut cache = empty_cache();
    let out = process(
        "\u{e9}{{#!type a}}\u{1f600}{{#!type b}}\u{e9}",
        &lenient_config(),
        &mut cache,
    )
    .unwrap();
    assert_eq!(
        out,
        "\u{e9}<span class=\"type-a obj\">a</span>\u{1f600}<span class=\"type-b obj\">b</span>\u{e9}"
    );
}

#[test]
fn parameter_types_expand_to_type_references() {
    let body = "<parameter-definition name=\"x\" types=\"Foo,int\">The x.</parameter-definition>";
    let mut cache = empty_cache();
    let first = TypstPreprocessor::new()
        .rewrite(Pass::Parameters, body, &lenient_config(), &mut cache)
        .unwrap();
    assert_eq!(
        first,
        "<div class=\"parameter-definition\"><h4 class=\"parameter-name\"><code>x</code><span class=\"parameter-types\"> {{#type Foo}} {{#type int}}</span></h4><div class=\"parameter-description\">\n\nThe x.\n\n</div></div>"
    );
    let out = process(body, &lenient_config(), &mut cache).unwrap();
    assert_eq!(
        out,
        "<div class=\"parameter-definition\"><h4 class=\"parameter-name\"><code>x</code><span class=\"parameter-types\"> <a class=\"type-Foo bar\" href=\"x.html\">Foo</a> <span class=\"type-int obj\">int</span></span></h4><div class=\"parameter-description\">\n\nThe x.\n\n</div></div>"
    );
}

#[test]
fn parameter_types_resolve_like_any_reference() {
    let body = "<parameter-definition types=\"Foo,Bar\" name=\"x\">d</parameter-definition>";
    let mut cache = empty_cache();
    let out = process(body, &foo_config(), &mut cache);
    assert_eq!(out, Err(Error::UnknownType("Bar".to_string())));
}

#[test]
fn parameter_default_is_highlighted() {
    let body = "<parameter-definition\n  name=\"n\"\n  default=\"1\"\n>\nHow many.\n</parameter-definition>";
    let mut cache = empty_cache();
    let out = process(body, &foo_config(), &mut cache).unwrap();
    let default = highlight(Mode::Code, "1");
    assert_eq!(
        out,
        format!("<div class=\"parameter-definition\"><h4 class=\"parameter-name\"><code>n</code></h4><div class=\"parameter-default\">Default: {default}</div><div class=\"parameter-description\">\n\n\nHow many.\n\n\n</div></div>")
    );
}

#[test]
fn split_types_cuts_at_commas() {
    assert_eq!(split_types("A,B"), vec!["{{#type A}}", "{{#type B}}"]);
    assert_eq!(split_types("A"), vec!["{{#type A}}"]);
    assert_eq!(split_types(""), vec!["{{#type }}"]);
    assert_eq!(split_types("a,,b,"), vec!["{{#type a}}", "{{#type }}", "{{#type b}}", "{{#type }}"]);
    assert_eq!(split_types("\u{e9},\u{1f600}x"), vec!["{{#type \u{e9}}}", "{{#type \u{1f600}x}}"]);
}

#[test]
fn plain_block_is_highlighted() {
    let body = "Before\n```typ\n= Title\n```\nAfter";
    let mut cache = empty_cache();
    let out = process(body, &foo_config(), &mut cache).unwrap();
    let source = highlight(Mode::Markup, "= Title\n");
    assert_eq!(out, format!("Before\n<pre class=\"typst-code\">{source}</pre>\nAfter"));
    assert!(cache.jobs().is_empty());
}

#[test]
fn code_block_is_highlighted_as_code() {
    let body = "```typc\nlet x = 1\n```";
    let mut cache = empty_cache();
    let out = process(body, &foo_config(), &mut cache).unwrap();
    let source = highlight(Mode::Code, "let x = 1\n");
    assert_eq!(out, format!("<pre class=\"typst-code\">{source}</pre>"));
    assert_ne!(source, highlight(Mode::Markup, "let x = 1\n"));
}

#[test]
fn rendered_block_asks_for_one_job() {
    let body = "```typc,render\n1 + 1\n```";
    let config = foo_config();
    let mut cache = empty_cache();
    let out = process(body, &config, &mut cache).unwrap();
    assert_eq!(out, "<div class=\"typst-render\">\n\n![](/mdbook-typst-doc/1ad5e.svg)\n\n</div>");
    assert!(out.contains("1ad5e.svg"));
    assert_eq!(
        cache.jobs(),
        &vec![RenderJob {
            source: "#{\n 1 + 1\n \n}".to_string(),
            mode: Mode::Code,
            key: "1ad5e".to_string(),
            output_path: "cache/1ad5e.svg".to_string(),
        }]
    );
    assert!(cache.has_cached("1ad5e"));

    let mut second = RenderCache::new(vec!["1ad5e".to_string()]);
    let again = process(body, &config, &mut second).unwrap();
    assert_eq!(again, out);
    assert!(second.jobs().is_empty());
}

#[test]
fn equal_blocks_share_one_job() {
    let body = "```typc,render\n1 + 1\n```\n\n```typc,example\n1 + 1\n```\n";
    let mut cache = empty_cache();
    let out = process(body, &foo_config(), &mut cache).unwrap();
    assert_eq!(cache.jobs().len(), 1);
    assert_eq!(out.matches("1ad5e.svg").count(), 2);
}

#[test]
fn markup_and_code_make_different_programs() {
    let mut cache = empty_cache();
    process("```typ,render\nrect()\n```\n```typc,render\nrect()\n```", &foo_config(), &mut cache)
        .unwrap();
    let jobs = cache.jobs();
    assert_eq!(jobs.len(), 2);
    assert_eq!(jobs[0].source, "rect()\n");
    assert_eq!(jobs[0].mode, Mode::Markup);
    assert_eq!(jobs[1].source, "#{\n rect()\n \n}");
    assert_eq!(jobs[1].mode, Mode::Code);
    assert_eq!(jobs[1].key, "22c90");
    assert_ne!(jobs[0].key, jobs[1].key);
}

#[test]
fn example_block_shows_source_and_image() {
    let body = "```typ,example\r\nHello *world*\n```";
    let mut cache = empty_cache();
    let out = process(body, &foo_config(), &mut cache).unwrap();
    let source = highlight(Mode::Markup, "Hello *world*\n");
    assert_eq!(
        out,
        format!("<div class=\"typst-example\"><pre class=\"typst-code\">{source}</pre><div class=\"typst-render\">\n\n![](/mdbook-typst-doc/10de7.svg)\n\n</div></div>")
    );
    assert_eq!(cache.jobs().len(), 1);
    assert_eq!(cache.jobs()[0].source, "Hello *world*\n");
    assert_eq!(cache.jobs()[0].output_path, "cache/10de7.svg");
}

#[test]
fn passes_run_in_order() {
    let body = "<parameter-definition name=\"p\" types=\"Foo\">See {{#!type Foo}}:\n```typc\n1\n```\n</parameter-definition>";
    let mut cache = empty_cache();
    let out = process(body, &foo_config(), &mut cache).unwrap();
    let source = highlight(Mode::Code, "1\n");
    assert_eq!(
        out,
        format!("<div class=\"parameter-definition\"><h4 class=\"parameter-name\"><code>p</code><span class=\"parameter-types\"> <a class=\"type-Foo bar\" href=\"x.html\">Foo</a></span></h4><div class=\"parameter-description\">\n\nSee <span class=\"type-Foo bar\">Foo</span>:\n<pre class=\"typst-code\">{source}</pre>\n\n\n</div></div>")
    );
}

#[test]
fn rewrite_found_replaces_the_given_matches() {
    let found = Some(vec![
        vec![Some((0, 12)), None, Some((8, 10))],
        vec![Some((13, 26)), Some((16, 17)), Some((22, 24))],
    ]);
    let mut cache = empty_cache();
    let out = rewrite_found(
        Pass::TypeReferences,
        "{{#type ab}} {{#!type cd}}.",
        &found,
        &lenient_config(),
        &mut cache,
    );
    assert_eq!(
        out,
        Ok("<span class=\"type-ab obj\">ab</span> <span class=\"type-cd obj\">cd</span>.".to_string())
    );
}

#[test]
fn rewrite_found_without_matches_fails_on_a_refused_pattern() {
    let mut cache = empty_cache();
    let out = rewrite_found(Pass::TypeReferences, "text", &None, &foo_config(), &mut cache);
    assert_eq!(
        out,
        Err(Error::Configuration(format!("Invalid pattern: {}", pattern(Pass::TypeReferences))))
    );
}

#[test]
fn group_gives_the_text_of_a_span() {
    let capture = vec![Some((0, 5)), None, Some((1, 3))];
    assert_eq!(group("hello", &capture, 0), Some("hello"));
    assert_eq!(group("hello", &capture, 1), None);
    assert_eq!(group("hello", &capture, 2), Some("el"));
    assert_eq!(group("hello", &capture, 3), None);
}

#[test]
fn replace_dispatches_on_the_pass() {
    let config = lenient_config();
    let mut cache = empty_cache();
    let capture = vec![Some((0, 8)), None, Some((0, 3))];
    let by_pass = replace(Pass::TypeReferences, "Foo, int", &capture, &config, &mut cache);
    assert_eq!(by_pass, replace_type("Foo, int", &capture, &config));
    assert_eq!(by_pass, Ok("<a class=\"type-Foo bar\" href=\"x.html\">Foo</a>".to_string()));
    let parameter = vec![Some((0, 1)), None, Some((0, 1)), None, None];
    assert_eq!(
        replace(Pass::Parameters, "n", &parameter, &config, &mut cache),
        replace_parameter("n", &parameter, &config)
    );
    let block = vec![Some((0, 4)), Some((0, 3)), None, Some((3, 4))];
    let mut other = empty_cache();
    assert_eq!(
        replace(Pass::CodeBlocks, "typ1", &block, &config, &mut cache),
        replace_code("typ1", &block, &config, &mut other)
    );
}

#[test]
fn missing_program_template_fails_the_block() {
    let config = Config::default();
    let mut cache = empty_cache();
    let out = process("```typ,render\nx\n```", &config, &mut cache);
    assert!(matches!(out, Err(Error::TemplateRender { template, .. }) if template == "typ"));
    assert!(cache.jobs().is_empty());
}

#[test]
fn blocks_are_rendered_without_a_table() {
    let host = HostConfig {
        src: String::new(),
        cache: "cache".to_string(),
        table: None,
        templates: Vec::new(),
    };
    let config = Config::from_config(&host).unwrap();
    let mut cache = empty_cache();
    let out = process("```typ,render\nrect()\n```\n```typc,example\nrect()\n```", &config, &mut cache);
    assert!(out.is_ok());
    let jobs = cache.jobs();
    assert_eq!(jobs.len(), 2);
    assert_eq!(jobs[0].source, "rect()\n");
    assert_eq!(jobs[1].source, "#{\n rect()\n \n}");
}

#[test]
fn highlight_wraps_source_in_a_code_element() {
    let html = highlight(Mode::Code, "let x = 1");
    assert!(html.starts_with("<code>"));
    assert!(html.ends_with("</code>"));
    assert!(html.contains("<span class=\""));
    assert_ne!(html, "let x = 1");
    assert_eq!(highlight(Mode::Markup, "a < b"), "<code>a &lt; b</code>");
    assert_eq!(
        html,
        "<code><span class=\"typ-key\">let</span> x <span class=\"typ-op\">=</span> <span class=\"typ-num\">1</span></code>"
    );
    assert_eq!(
        highlight(Mode::Markup, "= Title\n*b*"),
        "<code><span class=\"typ-heading\">= Title</span>\n<span class=\"typ-strong\">*b*</span></code>"
    );
}

#[test]
fn two_references_on_a_line_are_both_replaced() {
    let mut cache = empty_cache();
    let out = process("{{#!type a}}{{#!type b}}}} {{#type c}", &lenient_config(), &mut cache);
    assert_eq!(
        out,
        Ok("<span class=\"type-a obj\">a</span><span class=\"type-b obj\">b</span>}} {{#type c}".to_string())
    );
}

#[test]
fn reference_takes_the_shortest_identifier() {
    let mut cache = empty_cache();
    let out = process("{{#!type a}} b}}", &lenient_config(), &mut cache);
    assert_eq!(out, Ok("<span class=\"type-a obj\">a</span> b}}".to_string()));
    let spaced = process("{{#!type a b }}", &lenient_config(), &mut cache);
    assert_eq!(spaced, Ok("<span class=\"type-a b  obj\">a b </span>".to_string()));
}

#[test]
fn markers_with_other_names_are_kept() {
    let body = "{{#include file.md}} {{#typ Foo}} {{type Foo}} {{#type}}";
    let mut cache = empty_cache();
    assert_eq!(process(body, &foo_config(), &mut cache), Ok(body.to_string()));
}

#[test]
fn blocks_with_other_tags_are_kept() {
    let body = "```rust\nfn main() {}\n```\n```typ,svg\nx\n```\n```typst\nx\n```\n";
    let mut cache = empty_cache();
    assert_eq!(process(body, &foo_config(), &mut cache), Ok(body.to_string()));
    assert!(cache.jobs().is_empty());
}

#[test]
fn block_ends_at_the_first_fence() {
    let body = "```typ\na\n```\nbetween\n```typ\nb\n```";
    let mut cache = empty_cache();
    let out = process(body, &foo_config(), &mut cache).unwrap();
    let first = highlight(Mode::Markup, "a\n");
    let second = highlight(Mode::Markup, "b\n");
    assert_eq!(
        out,
        format!("<pre class=\"typst-code\">{first}</pre>\nbetween\n<pre class=\"typst-code\">{second}</pre>")
    );
}

#[test]
fn unclosed_block_is_kept() {
    let body = "```typc,render\n1 + 1\n";
    let mut cache = empty_cache();
    assert_eq!(process(body, &foo_config(), &mut cache), Ok(body.to_string()));
    assert!(cache.jobs().is_empty());
}

#[test]
fn parameter_attributes_come_in_any_order() {
    let config = lenient_config();
    let mut cache = empty_cache();
    let one = process(
        "<parameter-definition name=\"a\" types=\"int\" default=\"1\">d</parameter-definition>",
        &config,
        &mut cache,
    );
    let other = process(
        "<parameter-definition default=\"1\"\n types=\"int\"\n name=\"a\"\n>d</parameter-definition>",
        &config,
        &mut cache,
    );
    assert!(one.is_ok());
    assert_eq!(one, other);
}

#[test]
fn parameter_without_attributes_is_kept() {
    let body = "<parameter-definition>d</parameter-definition>";
    let mut cache = empty_cache();
    assert_eq!(process(body, &foo_config(), &mut cache), Ok(body.to_string()));
}

#[test]
fn two_definitions_are_expanded_apart() {
    let body = "<parameter-definition name=\"a\">A</parameter-definition>+<parameter-definition name=\"b\">B</parameter-definition>";
    let mut cache = empty_cache();
    let out = process(body, &foo_config(), &mut cache).unwrap();
    let definition = |name: &str, text: &str| {
        format!("<div class=\"parameter-definition\"><h4 class=\"parameter-name\"><code>{name}</code></h4><div class=\"parameter-description\">\n\n{text}\n\n</div></div>")
    };
    assert_eq!(out, format!("{}+{}", definition("a", "A"), definition("b", "B")));
}

#[test]
fn rewrite_runs_one_pass_alone() {
    let body = "{{#!type Foo}}\n```typ\nx\n```";
    let preprocessor = TypstPreprocessor::new();
    let mut cache = empty_cache();
    let types = preprocessor.rewrite(Pass::TypeReferences, body, &foo_config(), &mut cache);
    assert_eq!(types, Ok("<span class=\"type-Foo bar\">Foo</span>\n```typ\nx\n```".to_string()));
    let parameters = preprocessor.rewrite(Pass::Parameters, body, &foo_config(), &mut cache);
    assert_eq!(parameters, Ok(body.to_string()));
    let blocks = preprocessor.rewrite(Pass::CodeBlocks, body, &foo_config(), &mut cache).unwrap();
    assert!(blocks.starts_with("{{#!type Foo}}\n<pre class=\"typst-code\">"));
}
