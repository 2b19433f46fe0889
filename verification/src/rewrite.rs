//! The three passes that rewrite the body of a chapter: the definitions of parameters, the
//! references to types, and the fenced blocks of Typst source.

use vstd::prelude::*;
use vstd::string::{StrSliceExecFns, StringExecFns};
use crate::cache::{
    artifact_name, artifact_name_of, cache_key, cache_key_of, grown, holds_all, image_reference,
    image_reference_of, lemma_grown_chain, lemma_holds_earlier, lemma_requested_grows,
    lemma_requested_held, output_path_for, path_in, requested, RenderCache, RenderCacheView,
    RenderJob, RenderJobView,
};
use crate::config::{resolved, Config, ConfigView, TypeConfigView};
use crate::error::{text_result, Error, ErrorView};
use crate::highlight::{highlight, highlighted, Mode};
use crate::pattern::{
    capture_fits, captures_fit, found_for, lemma_spliced_nothing, splice, spliced, Capture, Span,
};
use crate::template::{fields_of, render_outcome, rendered, TemplateData, TemplateDataView};
use crate::text::{byte_slice, same_text, slice};

verus! {

/// The text that group `g` of a match covers, where the group took part in the match.
pub open spec fn group_text(text: Seq<char>, capture: Seq<Option<Span>>, g: int) -> Option<
    Seq<char>,
> {
    if 0 <= g < capture.len() {
        match capture[g] {
            Some(span) => Some(byte_slice(text, span.0 as int, span.1 as int)),
            None => None,
        }
    } else {
        None
    }
}

/// The text of a group, or no text where the group took no part.
pub open spec fn group_or_empty(text: Seq<char>, capture: Seq<Option<Span>>, g: int) -> Seq<char> {
    match group_text(text, capture, g) {
        Some(part) => part,
        None => Seq::empty(),
    }
}

/// The text that group `g` of a match covers.
pub fn group<'a>(text: &'a str, capture: &Capture, g: usize) -> (part: Option<&'a str>)
    requires
        capture_fits(text@, capture.deep_view()),
    ensures
        part.deep_view() == group_text(text@, capture.deep_view(), g as int),
{
    if g < capture.len() {
        assert(capture.deep_view()[g as int] == capture[g as int].deep_view());
        match capture[g] {
            Some(span) => Some(slice(text, span.0, span.1)),
            None => None,
        }
    } else {
        None
    }
}

/// The place of the first `sep` in `text` at or after `from`, or the length of the text
/// where there is none.
pub open spec fn first_at(text: Seq<char>, sep: char, from: int) -> int
    decreases text.len() - from,
{
    if from < 0 || from >= text.len() {
        text.len() as int
    } else if text[from] == sep {
        from
    } else {
        first_at(text, sep, from + 1)
    }
}

/// The pieces into which the occurrences of `sep` cut the part of `text` from `from` on.
pub open spec fn pieces(text: Seq<char>, sep: char, from: int) -> Seq<Seq<char>>
    decreases text.len() - from,
{
    let stop = first_at(text, sep, from);
    if from < 0 || stop >= text.len() || stop < from {
        seq![text.subrange(from, text.len() as int)]
    } else {
        seq![text.subrange(from, stop)] + pieces(text, sep, stop + 1)
    }
}

/// Where no `sep` stands between `from` and `to`, the first one at or after `from` is the
/// first one at or after `to`.
proof fn lemma_first_at(text: Seq<char>, sep: char, from: int, to: int)
    requires
        0 <= from <= to <= text.len(),
        forall|k: int| from <= k < to ==> text[k] != sep,
    ensures
        first_at(text, sep, from) == first_at(text, sep, to),
    decreases to - from,
{
    if from < to {
        lemma_first_at(text, sep, from + 1, to);
    }
}

/// The marker that refers to the type `name`.
pub open spec fn type_marker(name: Seq<char>) -> Seq<char> {
    "{{#type "@ + name + "}}"@
}

/// A marker for each of the types of a list that commas separate.
pub open spec fn type_markers(types: Seq<char>) -> Seq<Seq<char>> {
    pieces(types, ',', 0).map_values(|name: Seq<char>| type_marker(name))
}

/// Cuts the list `types` at its commas and makes a marker of each piece.
pub fn split_types(types: &str) -> (markers: Vec<String>)
    ensures
        markers.deep_view() == type_markers(types@),
{
    let len = types.unicode_len();
    let mut markers: Vec<String> = Vec::new();
    let mut from: usize = 0;
    let mut i: usize = 0;
    assert(markers.deep_view() =~= Seq::empty());
    while i < len
        invariant
            len == types@.len(),
            from <= i <= len,
            forall|k: int| from <= k < i ==> types@[k] != ',',
            type_markers(types@) == markers.deep_view() + pieces(types@, ',', from as int).map_values(
                |name: Seq<char>| type_marker(name),
            ),
        decreases len - i,
    {
        if types.get_char(i) == ',' {
            proof {
                lemma_first_at(types@, ',', from as int, i as int);
            }
            let ghost before = markers.deep_view();
            let ghost piece = types@.subrange(from as int, i as int);
            let marker = String::from_str("{{#type ").concat(types.substring_char(from, i)).concat(
                "}}",
            );
            markers.push(marker);
            assert(markers.deep_view() =~= before.push(type_marker(piece)));
            assert(type_markers(types@) =~= markers.deep_view() + pieces(
                types@,
                ',',
                i + 1,
            ).map_values(|name: Seq<char>| type_marker(name)));
            from = i + 1;
        }
        i = i + 1;
    }
    proof {
        lemma_first_at(types@, ',', from as int, len as int);
    }
    let ghost before = markers.deep_view();
    let ghost piece = types@.subrange(from as int, len as int);
    let marker = String::from_str("{{#type ").concat(types.substring_char(from, len)).concat("}}");
    markers.push(marker);
    assert(markers.deep_view() =~= before.push(type_marker(piece)));
    assert(type_markers(types@) =~= markers.deep_view());
    markers
}

/// The pattern of the definition of a parameter. Its groups are, by number: `default`,
/// `name`, `types`, and the description.
pub const PARAMETER_PATTERN: &'static str =
    r#"(?msU)<parameter-definition(?:\s+default=\u{22}(?P<default>.*)\u{22}|\s+name=\u{22}(?P<name>.*)\u{22}|\s+types=\u{22}(?P<types>.*)\u{22})+\s*>(?P<description>.*)</parameter-definition>"#;

/// The pattern of a reference to a type. Group 1 is the mark that asks for no link, group
/// 2 the identifier.
pub const TYPE_PATTERN: &'static str = r"(?m)\{\{#(!)?type (.*?)\}\}";

/// The pattern of a fenced block of Typst source. Group 1 is the tag, group 2 the layout,
/// group 3 the content.
pub const CODE_BLOCK_PATTERN: &'static str =
    r"(?msU)```(typ|typc)(?:,(render|example))?\r?\n(.*)```";

/// One pass over the body of a chapter.
#[derive(Debug, Clone, Copy, PartialEq, Eq)]
pub enum Pass {
    /// Expands the definitions of parameters.
    Parameters,
    /// Expands the references to types.
    TypeReferences,
    /// Expands the fenced blocks of Typst source.
    CodeBlocks,
}

/// The pattern that a pass looks for.
pub open spec fn pattern_of(pass: Pass) -> Seq<char> {
    match pass {
        Pass::Parameters => PARAMETER_PATTERN@,
        Pass::TypeReferences => TYPE_PATTERN@,
        Pass::CodeBlocks => CODE_BLOCK_PATTERN@,
    }
}

/// The pattern that a pass looks for.
pub fn pattern(pass: Pass) -> (pattern: &'static str)
    ensures
        pattern@ == pattern_of(pass),
{
    match pass {
        Pass::Parameters => PARAMETER_PATTERN,
        Pass::TypeReferences => TYPE_PATTERN,
        Pass::CodeBlocks => CODE_BLOCK_PATTERN,
    }
}

/// The markers for the types of a definition, where it names types.
pub open spec fn markers_of(types: Option<Seq<char>>) -> Option<Seq<Seq<char>>> {
    match types {
        Some(types) => Some(type_markers(types)),
        None => None,
    }
}

/// The default of a definition highlighted as code, where it has a default.
pub open spec fn default_of(default: Option<Seq<char>>) -> Option<Seq<char>> {
    match default {
        Some(default) => Some(highlighted(Mode::Code, default)),
        None => None,
    }
}

/// What the template `parameter` is rendered against for a definition: its name, a marker
/// for each of its types, its default highlighted as code, and its description.
pub open spec fn parameter_data(text: Seq<char>, capture: Seq<Option<Span>>) -> TemplateDataView {
    TemplateDataView::Parameter {
        name: group_text(text, capture, 2),
        types: markers_of(group_text(text, capture, 3)),
        default: default_of(group_text(text, capture, 1)),
        description: group_text(text, capture, 4),
    }
}

/// What a definition of a parameter is replaced by.
pub open spec fn parameter_replacement(
    text: Seq<char>,
    capture: Seq<Option<Span>>,
    config: ConfigView,
) -> Result<Seq<char>, ErrorView> {
    render_outcome(
        "parameter"@,
        rendered(config.templates, "parameter"@, fields_of(parameter_data(text, capture))),
    )
}

/// A copy of a text, where there is one.
fn owned(part: Option<&str>) -> (copy: Option<String>)
    ensures
        copy.deep_view() == part.deep_view(),
{
    match part {
        Some(part) => Some(String::from_str(part)),
        None => None,
    }
}

/// Expands one definition of a parameter.
pub fn replace_parameter(text: &str, capture: &Capture, config: &Config) -> (out: Result<
    String,
    Error,
>)
    requires
        capture_fits(text@, capture.deep_view()),
    ensures
        text_result(out) == parameter_replacement(text@, capture.deep_view(), config@),
{
    let types = match group(text, capture, 3) {
        Some(types) => Some(split_types(types)),
        None => None,
    };
    let default = match group(text, capture, 1) {
        Some(default) => Some(highlight(Mode::Code, default)),
        None => None,
    };
    let data = TemplateData::Parameter {
        name: owned(group(text, capture, 2)),
        types,
        default,
        description: owned(group(text, capture, 4)),
    };
    config.handlebars.render("parameter", data)
}

/// What the template `type` is rendered against for a record: the record, and whether a
/// link is asked for.
pub open spec fn type_data(record: TypeConfigView, use_link: bool) -> TemplateDataView {
    TemplateDataView::Type {
        name: record.name,
        class: record.class,
        link: record.link,
        use_link,
    }
}

/// What a reference to a type is replaced by. The identifier is resolved against the
/// catalog; the mark of group 1 asks for no link.
pub open spec fn type_replacement(
    text: Seq<char>,
    capture: Seq<Option<Span>>,
    config: ConfigView,
) -> Result<Seq<char>, ErrorView> {
    match resolved(config, group_or_empty(text, capture, 2)) {
        Err(error) => Err(error),
        Ok(record) => render_outcome(
            "type"@,
            rendered(
                config.templates,
                "type"@,
                fields_of(type_data(record, group_text(text, capture, 1) is None)),
            ),
        ),
    }
}

/// The text of a group, or the empty text where the group took no part.
fn group_or<'a>(text: &'a str, capture: &Capture, g: usize) -> (part: &'a str)
    requires
        capture_fits(text@, capture.deep_view()),
    ensures
        part@ == group_or_empty(text@, capture.deep_view(), g as int),
{
    match group(text, capture, g) {
        Some(part) => part,
        None => {
            let empty = "";
            proof {
                reveal_strlit("");
            }
            assert(empty@ =~= Seq::empty());
            empty
        },
    }
}

/// Expands one reference to a type.
pub fn replace_type(text: &str, capture: &Capture, config: &Config) -> (out: Result<String, Error>)
    requires
        capture_fits(text@, capture.deep_view()),
    ensures
        text_result(out) == type_replacement(text@, capture.deep_view(), config@),
{
    let use_link = group(text, capture, 1).is_none();
    match config.get_type(group_or(text, capture, 2)) {
        Err(error) => Err(error),
        Ok(record) => config.handlebars.render(
            "type",
            TemplateData::Type {
                name: record.name,
                class: record.class,
                link: record.link,
                use_link,
            },
        ),
    }
}

/// The mode in which a block with the tag `tag` is read: `typ` is markup, anything else
/// code.
pub open spec fn mode_of(tag: Seq<char>) -> Mode {
    if tag == "typ"@ {
        Mode::Markup
    } else {
        Mode::Code
    }
}

/// The job that renders `program`, made from a block read in `mode`.
pub open spec fn job_for(program: Seq<char>, mode: Mode, config: ConfigView) -> RenderJobView {
    RenderJobView {
        source: program,
        mode,
        key: cache_key_of(program),
        output_path: path_in(config.cache, artifact_name_of(cache_key_of(program))),
    }
}

/// What the template of a block with a layout is rendered against: the image alone for
/// `render`, else the highlighted source and the image.
pub open spec fn layout_data(layout: Seq<char>, mode: Mode, source: Seq<char>, image: Seq<char>) -> TemplateDataView {
    if layout == "render"@ {
        TemplateDataView::Render { image }
    } else {
        TemplateDataView::Example { source: highlighted(mode, source), image }
    }
}

/// What a fenced block is replaced by, and the cache after it.
///
/// A block without a layout is highlighted and rendered with the template `code`. For a
/// block with a layout the template named by its tag makes the program for the rendering
/// engine; the image of that program is asked of the cache; and the template named by the
/// layout is rendered with a reference to the image.
pub open spec fn code_replacement(
    text: Seq<char>,
    capture: Seq<Option<Span>>,
    config: ConfigView,
    cache: RenderCacheView,
) -> (Result<Seq<char>, ErrorView>, RenderCacheView) {
    let tag = group_or_empty(text, capture, 1);
    let mode = mode_of(tag);
    let source = group_or_empty(text, capture, 3);
    match group_text(text, capture, 2) {
        None => (
            render_outcome(
                "code"@,
                rendered(
                    config.templates,
                    "code"@,
                    fields_of(TemplateDataView::Code { source: highlighted(mode, source) }),
                ),
            ),
            cache,
        ),
        Some(layout) => match render_outcome(
            tag,
            rendered(config.templates, tag, fields_of(TemplateDataView::Program { input: source })),
        ) {
            Err(error) => (Err(error), cache),
            Ok(program) => (
                render_outcome(
                    layout,
                    rendered(
                        config.templates,
                        layout,
                        fields_of(
                            layout_data(
                                layout,
                                mode,
                                source,
                                image_reference_of(
                                    config.url,
                                    artifact_name_of(cache_key_of(program)),
                                ),
                            ),
                        ),
                    ),
                ),
                requested(cache, job_for(program, mode, config)),
            ),
        },
    }
}

/// Expands one fenced block, and asks the cache for its image where it has a layout.
pub fn replace_code(text: &str, capture: &Capture, config: &Config, cache: &mut RenderCache) -> (out:
    Result<String, Error>)
    requires
        capture_fits(text@, capture.deep_view()),
    ensures
        (text_result(out), final(cache)@) == code_replacement(
            text@,
            capture.deep_view(),
            config@,
            old(cache)@,
        ),
{
    let tag = group_or(text, capture, 1);
    let mode = if same_text(tag, "typ") {
        Mode::Markup
    } else {
        Mode::Code
    };
    let source = group_or(text, capture, 3);
    match group(text, capture, 2) {
        None => config.handlebars.render(
            "code",
            TemplateData::Code { source: highlight(mode, source) },
        ),
        Some(layout) => {
            let program = match config.handlebars.render(
                tag,
                TemplateData::Program { input: String::from_str(source) },
            ) {
                Ok(program) => program,
                Err(error) => {
                    return Err(error);
                },
            };
            let key = cache_key(program.as_str());
            let name = artifact_name(key.as_str());
            let image = image_reference(config.url.as_str(), name.as_str());
            let output_path = output_path_for(config.cache.as_str(), key.as_str());
            cache.request(RenderJob { source: program, mode, key, output_path });
            let data = if same_text(layout, "render") {
                TemplateData::Render { image }
            } else {
                TemplateData::Example { source: highlight(mode, source), image }
            };
            config.handlebars.render(layout, data)
        },
    }
}

/// What one match of a pass is replaced by, and the cache after it. Only the pass over
/// the blocks of source touches the cache.
pub open spec fn replacement(
    pass: Pass,
    text: Seq<char>,
    capture: Seq<Option<Span>>,
    config: ConfigView,
    cache: RenderCacheView,
) -> (Result<Seq<char>, ErrorView>, RenderCacheView) {
    match pass {
        Pass::Parameters => (parameter_replacement(text, capture, config), cache),
        Pass::TypeReferences => (type_replacement(text, capture, config), cache),
        Pass::CodeBlocks => code_replacement(text, capture, config, cache),
    }
}

/// Expands one match of a pass.
pub fn replace(pass: Pass, text: &str, capture: &Capture, config: &Config, cache: &mut RenderCache) -> (out:
    Result<String, Error>)
    requires
        capture_fits(text@, capture.deep_view()),
    ensures
        (text_result(out), final(cache)@) == replacement(
            pass,
            text@,
            capture.deep_view(),
            config@,
            old(cache)@,
        ),
{
    match pass {
        Pass::Parameters => replace_parameter(text, capture, config),
        Pass::TypeReferences => replace_type(text, capture, config),
        Pass::CodeBlocks => replace_code(text, capture, config, cache),
    }
}

/// The replacements of the first `n` matches of a pass, made in the order of the matches,
/// and the cache after them. The first match that fails ends the pass with its error.
pub open spec fn replacements(
    pass: Pass,
    text: Seq<char>,
    found: Seq<Seq<Option<Span>>>,
    config: ConfigView,
    cache: RenderCacheView,
    n: nat,
) -> (Result<Seq<Seq<char>>, ErrorView>, RenderCacheView)
    decreases n,
{
    if n == 0 {
        (Ok(Seq::empty()), cache)
    } else {
        let (earlier, before) = replacements(pass, text, found, config, cache, (n - 1) as nat);
        match earlier {
            Err(error) => (Err(error), before),
            Ok(inserts) => {
                let (made, after) = replacement(pass, text, found[n - 1], config, before);
                match made {
                    Err(error) => (Err(error), after),
                    Ok(insert) => (Ok(inserts.push(insert)), after),
                }
            },
        }
    }
}

/// A failure among the first matches is the outcome of all of them.
proof fn lemma_replacements_error(
    pass: Pass,
    text: Seq<char>,
    found: Seq<Seq<Option<Span>>>,
    config: ConfigView,
    cache: RenderCacheView,
    n: nat,
    m: nat,
)
    requires
        n <= m,
        replacements(pass, text, found, config, cache, n).0 is Err,
    ensures
        replacements(pass, text, found, config, cache, m) == replacements(
            pass,
            text,
            found,
            config,
            cache,
            n,
        ),
    decreases m,
{
    if n < m {
        lemma_replacements_error(pass, text, found, config, cache, n, (m - 1) as nat);
    }
}

/// The message for a pattern that the regex engine does not accept.
pub open spec fn invalid_pattern(pattern: Seq<char>) -> Seq<char> {
    "Invalid pattern: "@ + pattern
}

/// What a pass makes of `text`, given what the regex engine found in it for the pattern
/// of the pass, and the cache after the pass: each match is replaced, the text between
/// the matches stays.
pub open spec fn rewritten(
    pass: Pass,
    text: Seq<char>,
    found: Option<Seq<Seq<Option<Span>>>>,
    config: ConfigView,
    cache: RenderCacheView,
) -> (Result<Seq<char>, ErrorView>, RenderCacheView) {
    match found {
        None => (Err(ErrorView::Configuration(invalid_pattern(pattern_of(pass)))), cache),
        Some(found) => {
            let (made, after) = replacements(pass, text, found, config, cache, found.len());
            match made {
                Err(error) => (Err(error), after),
                Ok(inserts) => (Ok(spliced(text, found, inserts)), after),
            }
        },
    }
}

/// Runs a pass over `text`, given what the regex engine found in it for the pattern of
/// the pass.
pub fn rewrite_found(
    pass: Pass,
    text: &str,
    found: &Option<Vec<Capture>>,
    config: &Config,
    cache: &mut RenderCache,
) -> (out: Result<String, Error>)
    requires
        found matches Some(list) ==> captures_fit(text@, list.deep_view()),
    ensures
        (text_result(out), final(cache)@) == rewritten(
            pass,
            text@,
            found.deep_view(),
            config@,
            old(cache)@,
        ),
{
    let list = match found {
        None => {
            return Err(
                Error::Configuration(String::from_str("Invalid pattern: ").concat(pattern(pass))),
            );
        },
        Some(list) => list,
    };
    let ghost marks = list.deep_view();
    let mut inserts: Vec<String> = Vec::new();
    let mut i: usize = 0;
    assert(inserts.deep_view() =~= Seq::empty());
    while i < list.len()
        invariant
            i <= list.len(),
            marks == list.deep_view(),
            found.deep_view() == Some(marks),
            captures_fit(text@, marks),
            inserts.len() == i,
            replacements(pass, text@, marks, config@, old(cache)@, i as nat) == (
                Ok::<Seq<Seq<char>>, ErrorView>(inserts.deep_view()),
                cache@,
            ),
        decreases list.len() - i,
    {
        assert(list[i as int].deep_view() == marks[i as int]);
        let ghost before = inserts.deep_view();
        match replace(pass, text, &list[i], config, cache) {
            Ok(insert) => {
                inserts.push(insert);
                assert(inserts.deep_view() =~= before.push(insert@));
            },
            Err(error) => {
                proof {
                    lemma_replacements_error(
                        pass,
                        text@,
                        marks,
                        config@,
                        old(cache)@,
                        (i + 1) as nat,
                        marks.len(),
                    );
                }
                return Err(error);
            },
        }
        i = i + 1;
    }
    Ok(splice(text, list, &inserts))
}

/// What the three passes make of the body of a chapter, and the cache after them. The
/// passes run in this order: the definitions of parameters, the references to types, the
/// blocks of source. Each pass reads what the pass before it wrote.
pub open spec fn processed(text: Seq<char>, config: ConfigView, cache: RenderCacheView) -> (
    Result<Seq<char>, ErrorView>,
    RenderCacheView,
) {
    let (first, cache1) = rewritten(
        Pass::Parameters,
        text,
        found_for(PARAMETER_PATTERN@, text),
        config,
        cache,
    );
    match first {
        Err(error) => (Err(error), cache1),
        Ok(text1) => {
            let (second, cache2) = rewritten(
                Pass::TypeReferences,
                text1,
                found_for(TYPE_PATTERN@, text1),
                config,
                cache1,
            );
            match second {
                Err(error) => (Err(error), cache2),
                Ok(text2) => rewritten(
                    Pass::CodeBlocks,
                    text2,
                    found_for(CODE_BLOCK_PATTERN@, text2),
                    config,
                    cache2,
                ),
            }
        },
    }
}

/// A pass that finds nothing leaves the text as it is, and asks nothing of the cache.
pub proof fn lemma_pass_without_matches(
    pass: Pass,
    text: Seq<char>,
    config: ConfigView,
    cache: RenderCacheView,
)
    ensures
        rewritten(pass, text, Some(Seq::empty()), config, cache) == (
            Ok::<Seq<char>, ErrorView>(text),
            cache,
        ),
{
    lemma_spliced_nothing(text);
}

/// A match takes nothing from the cache, whatever it is replaced by.
pub proof fn lemma_replacement_grows(
    pass: Pass,
    text: Seq<char>,
    capture: Seq<Option<Span>>,
    config: ConfigView,
    cache: RenderCacheView,
)
    ensures
        grown(cache, replacement(pass, text, capture, config, cache).1),
{
    let after = replacement(pass, text, capture, config, cache).1;
    if after != cache {
        let tag = group_or_empty(text, capture, 1);
        let made = render_outcome(
            tag,
            rendered(
                config.templates,
                tag,
                fields_of(TemplateDataView::Program { input: group_or_empty(text, capture, 3) }),
            ),
        );
        lemma_requested_grows(cache, job_for(made->Ok_0, mode_of(tag), config));
    }
}

/// A pass takes nothing from the cache, whether it fails or not.
pub proof fn lemma_rewritten_grows(
    pass: Pass,
    text: Seq<char>,
    found: Option<Seq<Seq<Option<Span>>>>,
    config: ConfigView,
    cache: RenderCacheView,
)
    ensures
        grown(cache, rewritten(pass, text, found, config, cache).1),
{
    if let Some(list) = found {
        lemma_replacements_grow(pass, text, list, config, cache, list.len());
    }
}

/// The first matches of a pass take nothing from the cache.
proof fn lemma_replacements_grow(
    pass: Pass,
    text: Seq<char>,
    found: Seq<Seq<Option<Span>>>,
    config: ConfigView,
    cache: RenderCacheView,
    n: nat,
)
    ensures
        grown(cache, replacements(pass, text, found, config, cache, n).1),
    decreases n,
{
    if n > 0 {
        lemma_replacements_grow(pass, text, found, config, cache, (n - 1) as nat);
        let (earlier, before) = replacements(pass, text, found, config, cache, (n - 1) as nat);
        if earlier is Ok {
            lemma_replacement_grows(pass, text, found[n - 1], config, before);
            lemma_grown_chain(
                cache,
                before,
                replacement(pass, text, found[n - 1], config, before).1,
            );
        }
    }
}

/// Rewriting the body of a chapter takes nothing from the cache: the jobs that were asked
/// for before stay, in their order, and no job is asked for twice.
pub proof fn lemma_processed_grows(text: Seq<char>, config: ConfigView, cache: RenderCacheView)
    ensures
        grown(cache, processed(text, config, cache).1),
{
    let (first, cache1) = rewritten(
        Pass::Parameters,
        text,
        found_for(PARAMETER_PATTERN@, text),
        config,
        cache,
    );
    lemma_rewritten_grows(
        Pass::Parameters,
        text,
        found_for(PARAMETER_PATTERN@, text),
        config,
        cache,
    );
    if let Ok(text1) = first {
        let (second, cache2) = rewritten(
            Pass::TypeReferences,
            text1,
            found_for(TYPE_PATTERN@, text1),
            config,
            cache1,
        );
        lemma_rewritten_grows(
            Pass::TypeReferences,
            text1,
            found_for(TYPE_PATTERN@, text1),
            config,
            cache1,
        );
        lemma_grown_chain(cache, cache1, cache2);
        if let Ok(text2) = second {
            lemma_rewritten_grows(
                Pass::CodeBlocks,
                text2,
                found_for(CODE_BLOCK_PATTERN@, text2),
                config,
                cache2,
            );
            lemma_grown_chain(
                cache,
                cache2,
                rewritten(
                    Pass::CodeBlocks,
                    text2,
                    found_for(CODE_BLOCK_PATTERN@, text2),
                    config,
                    cache2,
                ).1,
            );
        }
    }
}

/// The job that a fenced block asks for: none for a block without a layout or one whose
/// program cannot be made, else the job for the program that the template named by the tag
/// makes of the content.
pub open spec fn block_job(text: Seq<char>, capture: Seq<Option<Span>>, config: ConfigView) -> Option<
    RenderJobView,
> {
    let tag = group_or_empty(text, capture, 1);
    match group_text(text, capture, 2) {
        None => None,
        Some(_) => match render_outcome(
            tag,
            rendered(
                config.templates,
                tag,
                fields_of(TemplateDataView::Program { input: group_or_empty(text, capture, 3) }),
            ),
        ) {
            Err(_) => None,
            Ok(program) => Some(job_for(program, mode_of(tag), config)),
        },
    }
}

/// The cache after a fenced block is the cache after the job of the block was asked for.
pub proof fn lemma_block_job(
    text: Seq<char>,
    capture: Seq<Option<Span>>,
    config: ConfigView,
    cache: RenderCacheView,
)
    ensures
        code_replacement(text, capture, config, cache).1 == match block_job(text, capture, config) {
            Some(job) => requested(cache, job),
            None => cache,
        },
{
}

/// Two fenced blocks with the same tag, the same layout and the same content, wherever
/// they stand and whatever the cache holds, are replaced by the same text and ask for the
/// same job: the key, and with it the image that the text refers to and the file that the
/// job writes, is made from the program alone.
pub proof fn lemma_equal_blocks(
    text: Seq<char>,
    capture: Seq<Option<Span>>,
    cache: RenderCacheView,
    other_text: Seq<char>,
    other_capture: Seq<Option<Span>>,
    other_cache: RenderCacheView,
    config: ConfigView,
)
    requires
        group_or_empty(text, capture, 1) == group_or_empty(other_text, other_capture, 1),
        group_text(text, capture, 2) == group_text(other_text, other_capture, 2),
        group_or_empty(text, capture, 3) == group_or_empty(other_text, other_capture, 3),
    ensures
        code_replacement(text, capture, config, cache).0 == code_replacement(
            other_text,
            other_capture,
            config,
            other_cache,
        ).0,
        block_job(text, capture, config) == block_job(other_text, other_capture, config),
        block_job(text, capture, config) matches Some(job) ==> job.key == cache_key_of(job.source)
            && job.output_path == path_in(config.cache, artifact_name_of(job.key)),
{
}

/// A body whose only marker is one fenced block that asks for an image not yet held asks
/// for exactly one job, that of the block, and the block alone is replaced.
pub proof fn lemma_one_block(
    text: Seq<char>,
    capture: Seq<Option<Span>>,
    config: ConfigView,
    cache: RenderCacheView,
)
    requires
        found_for(PARAMETER_PATTERN@, text) == Some(Seq::<Seq<Option<Span>>>::empty()),
        found_for(TYPE_PATTERN@, text) == Some(Seq::<Seq<Option<Span>>>::empty()),
        found_for(CODE_BLOCK_PATTERN@, text) == Some(seq![capture]),
        block_job(text, capture, config) is Some,
        !cache.keys.contains(block_job(text, capture, config)->0.key),
    ensures
        processed(text, config, cache).1 == (RenderCacheView {
            keys: cache.keys.push(block_job(text, capture, config)->0.key),
            jobs: cache.jobs.push(block_job(text, capture, config)->0),
        }),
        processed(text, config, cache).0 == match code_replacement(text, capture, config, cache).0 {
            Ok(insert) => Ok(spliced(text, seq![capture], seq![insert])),
            Err(error) => Err(error),
        },
{
    lemma_pass_without_matches(Pass::Parameters, text, config, cache);
    lemma_pass_without_matches(Pass::TypeReferences, text, config, cache);
    lemma_block_job(text, capture, config, cache);
    let found = seq![capture];
    assert(replacements(Pass::CodeBlocks, text, found, config, cache, 0) == (
        Ok::<Seq<Seq<char>>, ErrorView>(Seq::empty()),
        cache,
    ));
    assert(found[0] == capture);
    if let Ok(insert) = code_replacement(text, capture, config, cache).0 {
        assert(Seq::<Seq<char>>::empty().push(insert) =~= seq![insert]);
    }
}

/// What a match is replaced by does not depend on the cache. And where the cache holds
/// every key that the match leaves in another cache, the match asks nothing of it.
pub proof fn lemma_replacement_cached(
    pass: Pass,
    text: Seq<char>,
    capture: Seq<Option<Span>>,
    config: ConfigView,
    cache: RenderCacheView,
    held: RenderCacheView,
)
    ensures
        replacement(pass, text, capture, config, held).0 == replacement(
            pass,
            text,
            capture,
            config,
            cache,
        ).0,
        holds_all(held, replacement(pass, text, capture, config, cache).1.keys) ==> replacement(
            pass,
            text,
            capture,
            config,
            held,
        ).1 == held,
{
    if pass is CodeBlocks {
        lemma_block_job(text, capture, config, cache);
        lemma_block_job(text, capture, config, held);
        if let Some(job) = block_job(text, capture, config) {
            if holds_all(held, requested(cache, job).keys) {
                lemma_requested_held(held, cache, job);
            }
        }
    }
}

/// The first matches of a pass over a cache that holds every key that they leave in
/// another cache are replaced by the same texts and ask nothing of the cache.
proof fn lemma_replacements_cached(
    pass: Pass,
    text: Seq<char>,
    found: Seq<Seq<Option<Span>>>,
    config: ConfigView,
    cache: RenderCacheView,
    held: RenderCacheView,
    n: nat,
)
    requires
        holds_all(held, replacements(pass, text, found, config, cache, n).1.keys),
    ensures
        replacements(pass, text, found, config, held, n) == (
            replacements(pass, text, found, config, cache, n).0,
            held,
        ),
    decreases n,
{
    if n > 0 {
        let (earlier, before) = replacements(pass, text, found, config, cache, (n - 1) as nat);
        if earlier is Ok {
            lemma_replacement_grows(pass, text, found[n - 1], config, before);
            lemma_holds_earlier(
                held,
                before,
                replacement(pass, text, found[n - 1], config, before).1,
            );
            lemma_replacement_cached(pass, text, found[n - 1], config, before, held);
        }
        lemma_replacements_cached(pass, text, found, config, cache, held, (n - 1) as nat);
    }
}

/// A pass over a cache that holds every key that the pass leaves in another cache gives
/// the same text and asks nothing of the cache.
pub proof fn lemma_rewritten_cached(
    pass: Pass,
    text: Seq<char>,
    found: Option<Seq<Seq<Option<Span>>>>,
    config: ConfigView,
    cache: RenderCacheView,
    held: RenderCacheView,
)
    requires
        holds_all(held, rewritten(pass, text, found, config, cache).1.keys),
    ensures
        rewritten(pass, text, found, config, held) == (
            rewritten(pass, text, found, config, cache).0,
            held,
        ),
{
    if let Some(list) = found {
        lemma_replacements_cached(pass, text, list, config, cache, held, list.len());
    }
}

/// Rewriting a body over a cache that holds every key that the rewriting leaves in
/// another cache gives the same body and asks nothing of the cache.
pub proof fn lemma_processed_cached(
    text: Seq<char>,
    config: ConfigView,
    cache: RenderCacheView,
    held: RenderCacheView,
)
    requires
        holds_all(held, processed(text, config, cache).1.keys),
    ensures
        processed(text, config, held) == (processed(text, config, cache).0, held),
{
    let found1 = found_for(PARAMETER_PATTERN@, text);
    let (first, cache1) = rewritten(Pass::Parameters, text, found1, config, cache);
    lemma_rewritten_grows(Pass::Parameters, text, found1, config, cache);
    match first {
        Err(_) => {
            lemma_rewritten_cached(Pass::Parameters, text, found1, config, cache, held);
        },
        Ok(text1) => {
            let found2 = found_for(TYPE_PATTERN@, text1);
            let (second, cache2) = rewritten(Pass::TypeReferences, text1, found2, config, cache1);
            lemma_rewritten_grows(Pass::TypeReferences, text1, found2, config, cache1);
            match second {
                Err(_) => {
                    lemma_holds_earlier(held, cache1, cache2);
                    lemma_rewritten_cached(Pass::Parameters, text, found1, config, cache, held);
                    lemma_rewritten_cached(
                        Pass::TypeReferences,
                        text1,
                        found2,
                        config,
                        cache1,
                        held,
                    );
                },
                Ok(text2) => {
                    let found3 = found_for(CODE_BLOCK_PATTERN@, text2);
                    let cache3 = rewritten(Pass::CodeBlocks, text2, found3, config, cache2).1;
                    lemma_rewritten_grows(Pass::CodeBlocks, text2, found3, config, cache2);
                    lemma_holds_earlier(held, cache2, cache3);
                    lemma_holds_earlier(held, cache1, cache2);
                    lemma_rewritten_cached(Pass::Parameters, text, found1, config, cache, held);
                    lemma_rewritten_cached(
                        Pass::TypeReferences,
                        text1,
                        found2,
                        config,
                        cache1,
                        held,
                    );
                    lemma_rewritten_cached(
                        Pass::CodeBlocks,
                        text2,
                        found3,
                        config,
                        cache2,
                        held,
                    );
                },
            }
        },
    }
}

/// Whether the regex engine finds none of the three markers in `text`.
pub open spec fn no_markers(text: Seq<char>) -> bool {
    &&& found_for(PARAMETER_PATTERN@, text) == Some(Seq::<Seq<Option<Span>>>::empty())
    &&& found_for(TYPE_PATTERN@, text) == Some(Seq::<Seq<Option<Span>>>::empty())
    &&& found_for(CODE_BLOCK_PATTERN@, text) == Some(Seq::<Seq<Option<Span>>>::empty())
}

/// A body without markers stays as it is, and asks nothing of the cache.
pub proof fn lemma_no_markers_unchanged(text: Seq<char>, config: ConfigView, cache: RenderCacheView)
    requires
        no_markers(text),
    ensures
        processed(text, config, cache) == (Ok::<Seq<char>, ErrorView>(text), cache),
{
    lemma_pass_without_matches(Pass::Parameters, text, config, cache);
    lemma_pass_without_matches(Pass::TypeReferences, text, config, cache);
    lemma_pass_without_matches(Pass::CodeBlocks, text, config, cache);
}

} // verus!
