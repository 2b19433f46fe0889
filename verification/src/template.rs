//! The named templates that turn what a marker holds into HTML.

use vstd::prelude::*;
use vstd::string::{StringExecFns, StringSliceAdditionalSpecFns};
use vstd::utf8::encode_utf8;
use handlebars::Handlebars;
use crate::error::{text_result, Error, ErrorView};

verus! {

/// The handlebars registry: the compiled templates by name, the helpers and the escape
/// function.
#[verifier::external_type_specification]
#[verifier::external_body]
pub struct ExHandlebars<'reg>(Handlebars<'reg>);

/// The texts of a set of templates, by name.
pub type Templates = Map<Seq<char>, Seq<char>>;

/// A registry that borrows nothing.
pub type Registry = Handlebars<'static>;

/// The value of one named field of the data that a template is rendered against.
#[derive(Debug, Clone, PartialEq, Eq)]
pub enum Field {
    Text(String),
    List(Vec<String>),
    Flag(bool),
}

/// A [`Field`] with its strings as sequences of characters.
pub enum FieldView {
    Text(Seq<char>),
    List(Seq<Seq<char>>),
    Flag(bool),
}

impl DeepView for Field {
    type V = FieldView;

    open spec fn deep_view(&self) -> FieldView {
        match *self {
            Field::Text(text) => FieldView::Text(text@),
            Field::List(items) => FieldView::List(items.deep_view()),
            Field::Flag(flag) => FieldView::Flag(flag),
        }
    }
}

/// The templates that a registry holds: the text of each as it was registered, by name.
pub uninterp spec fn registered_templates(registry: Registry) -> Templates;

/// What the template engine has against the text of a template registered under `name`:
/// `None` where it accepts the text, else its complaint.
pub uninterp spec fn template_defect(name: Seq<char>, source: Seq<char>) -> Option<Seq<char>>;

/// What the template engine makes of the template `name` among `templates`, rendered
/// without escaping against the object that has the fields `data`: the text, or its
/// complaint.
pub uninterp spec fn rendered(
    templates: Templates,
    name: Seq<char>,
    data: Seq<(Seq<char>, FieldView)>,
) -> Result<Seq<char>, Seq<char>>;

/// An outcome with its strings as sequences of characters.
pub open spec fn outcome_view(out: Result<String, String>) -> Result<Seq<char>, Seq<char>> {
    match out {
        Ok(text) => Ok(text@),
        Err(complaint) => Err(complaint@),
    }
}

/// `Handlebars::new`, then `register_escape_fn` with `handlebars::no_escape`. Trusted: the
/// new registry holds no template.
#[verifier::external_body]
fn new_registry() -> (registry: Registry)
    ensures
        registered_templates(registry) == Templates::empty(),
{
    let mut registry = Handlebars::new();
    registry.register_escape_fn(handlebars::no_escape);
    registry
}

/// `Handlebars::register_template_string`. Trusted: a text that the engine accepts is
/// held under `name` afterwards, in the place of what was there; one that it refuses
/// leaves the registry as it was, and the complaint comes back.
#[verifier::external_body]
fn register_template(registry: &mut Registry, name: &str, source: &str) -> (done:
    Result<(), String>)
    ensures
        done is Ok <==> template_defect(name@, source@) is None,
        done matches Err(complaint) ==> template_defect(name@, source@) == Some(complaint@),
        registered_templates(*final(registry)) == if done is Ok {
            registered_templates(*old(registry)).insert(name@, source@)
        } else {
            registered_templates(*old(registry))
        },
{
    registry.register_template_string(name, source).map_err(|e| e.to_string())
}

/// `Handlebars::render` against a JSON object made of `data`. A template that includes
/// itself by way of another would be rendered without end, so no registered text may
/// include another template. Trusted: the outcome is that of the engine for the registered
/// texts, this name and these fields. Every registry of this module is made by
/// `new_registry`, so all of them render alike.
#[verifier::external_body]
fn render_template(registry: &Registry, name: &str, data: &Vec<(String, Field)>) -> (out:
    Result<String, String>)
    requires
        inclusion_free(registered_templates(*registry)),
    ensures
        outcome_view(out) == rendered(registered_templates(*registry), name@, data.deep_view()),
{
    let mut object = serde_json::Map::new();
    for (key, field) in data.iter() {
        let value = match field {
            Field::Text(text) => serde_json::Value::from(text.as_str()),
            Field::List(items) => serde_json::Value::from(items.clone()),
            Field::Flag(flag) => serde_json::Value::from(*flag),
        };
        object.insert(key.clone(), value);
    }
    registry.render(name, &object).map_err(|e| e.to_string())
}

/// What one template is rendered against: for each template the fields that it reads.
#[allow(inconsistent_fields)]
#[derive(Debug, Clone, PartialEq, Eq)]
pub enum TemplateData {
    /// A reference to a type. `use_link` is off where the marker asks for no link.
    Type { name: String, class: String, link: Option<String>, use_link: bool },
    /// Highlighted source.
    Code { source: String },
    /// Highlighted source beside the image rendered from it.
    Example { source: String, image: String },
    /// The image rendered from a block.
    Render { image: String },
    /// The definition of a parameter. Each field is there where the block has it.
    Parameter {
        name: Option<String>,
        types: Option<Vec<String>>,
        default: Option<String>,
        description: Option<String>,
    },
    /// The content of a block, to be wrapped into a program for the rendering engine.
    Program { input: String },
}

/// A [`TemplateData`] with its strings as sequences of characters.
#[allow(inconsistent_fields)]
pub enum TemplateDataView {
    Type { name: Seq<char>, class: Seq<char>, link: Option<Seq<char>>, use_link: bool },
    Code { source: Seq<char> },
    Example { source: Seq<char>, image: Seq<char> },
    Render { image: Seq<char> },
    Parameter {
        name: Option<Seq<char>>,
        types: Option<Seq<Seq<char>>>,
        default: Option<Seq<char>>,
        description: Option<Seq<char>>,
    },
    Program { input: Seq<char> },
}

impl DeepView for TemplateData {
    type V = TemplateDataView;

    open spec fn deep_view(&self) -> TemplateDataView {
        match *self {
            TemplateData::Type { name, class, link, use_link } => TemplateDataView::Type {
                name: name@,
                class: class@,
                link: link.deep_view(),
                use_link,
            },
            TemplateData::Code { source } => TemplateDataView::Code { source: source@ },
            TemplateData::Example { source, image } => TemplateDataView::Example {
                source: source@,
                image: image@,
            },
            TemplateData::Render { image } => TemplateDataView::Render { image: image@ },
            TemplateData::Parameter { name, types, default, description } => {
                TemplateDataView::Parameter {
                    name: name.deep_view(),
                    types: types.deep_view(),
                    default: default.deep_view(),
                    description: description.deep_view(),
                }
            },
            TemplateData::Program { input } => TemplateDataView::Program { input: input@ },
        }
    }
}

/// A text field, where there is a text for it.
pub open spec fn text_field(key: Seq<char>, value: Option<Seq<char>>) -> Seq<(Seq<char>, FieldView)> {
    match value {
        Some(text) => seq![(key, FieldView::Text(text))],
        None => Seq::empty(),
    }
}

/// A list field, where there is a list for it.
pub open spec fn list_field(key: Seq<char>, value: Option<Seq<Seq<char>>>) -> Seq<
    (Seq<char>, FieldView),
> {
    match value {
        Some(items) => seq![(key, FieldView::List(items))],
        None => Seq::empty(),
    }
}

/// The named fields that a template sees for `data`, in the order in which they are handed
/// to it.
pub open spec fn fields_of(data: TemplateDataView) -> Seq<(Seq<char>, FieldView)> {
    match data {
        TemplateDataView::Type { name, class, link, use_link } => seq![
            ("name"@, FieldView::Text(name)),
            ("class"@, FieldView::Text(class)),
            ("use_link"@, FieldView::Flag(use_link)),
        ] + text_field("link"@, link),
        TemplateDataView::Code { source } => seq![("source"@, FieldView::Text(source))],
        TemplateDataView::Example { source, image } => seq![
            ("source"@, FieldView::Text(source)),
            ("image"@, FieldView::Text(image)),
        ],
        TemplateDataView::Render { image } => seq![("image"@, FieldView::Text(image))],
        TemplateDataView::Parameter { name, types, default, description } => text_field(
            "name"@,
            name,
        ) + list_field("types"@, types) + text_field("default"@, default) + text_field(
            "description"@,
            description,
        ),
        TemplateDataView::Program { input } => seq![("input"@, FieldView::Text(input))],
    }
}

/// Adds a text field to `fields`, where there is a text for it.
fn push_text(fields: &mut Vec<(String, Field)>, key: &str, value: Option<String>)
    ensures
        final(fields).deep_view() == old(fields).deep_view() + text_field(
            key@,
            value.deep_view(),
        ),
{
    let ghost before = fields.deep_view();
    match value {
        Some(text) => {
            let ghost added = (key@, FieldView::Text(text@));
            fields.push((String::from_str(key), Field::Text(text)));
            assert(fields.deep_view() =~= before + seq![added]);
        },
        None => {
            assert(fields.deep_view() =~= before + Seq::empty());
        },
    }
}

impl TemplateData {
    /// The named fields of the data, as the template engine takes them.
    pub fn fields(self) -> (fields: Vec<(String, Field)>)
        ensures
            fields.deep_view() == fields_of(self.deep_view()),
    {
        let mut fields: Vec<(String, Field)> = Vec::new();
        assert(fields.deep_view() =~= Seq::empty());
        match self {
            TemplateData::Type { name, class, link, use_link } => {
                push_text(&mut fields, "name", Some(name));
                push_text(&mut fields, "class", Some(class));
                let ghost before = fields.deep_view();
                fields.push((String::from_str("use_link"), Field::Flag(use_link)));
                assert(fields.deep_view() =~= before + seq![
                    ("use_link"@, FieldView::Flag(use_link)),
                ]);
                push_text(&mut fields, "link", link);
                assert(fields.deep_view() =~= fields_of(self.deep_view()));
            },
            TemplateData::Code { source } => {
                push_text(&mut fields, "source", Some(source));
                assert(fields.deep_view() =~= fields_of(self.deep_view()));
            },
            TemplateData::Example { source, image } => {
                push_text(&mut fields, "source", Some(source));
                push_text(&mut fields, "image", Some(image));
                assert(fields.deep_view() =~= fields_of(self.deep_view()));
            },
            TemplateData::Render { image } => {
                push_text(&mut fields, "image", Some(image));
                assert(fields.deep_view() =~= fields_of(self.deep_view()));
            },
            TemplateData::Parameter { name, types, default, description } => {
                push_text(&mut fields, "name", name);
                let ghost before = fields.deep_view();
                match types {
                    Some(items) => {
                        let ghost added = ("types"@, FieldView::List(items.deep_view()));
                        fields.push((String::from_str("types"), Field::List(items)));
                        assert(fields.deep_view() =~= before + seq![added]);
                    },
                    None => {
                        assert(fields.deep_view() =~= before + Seq::empty());
                    },
                }
                push_text(&mut fields, "default", default);
                push_text(&mut fields, "description", description);
                assert(fields.deep_view() =~= fields_of(self.deep_view()));
            },
            TemplateData::Program { input } => {
                push_text(&mut fields, "input", Some(input));
                assert(fields.deep_view() =~= fields_of(self.deep_view()));
            },
        }
        fields
    }
}

/// Whether a byte may stand between the opening braces of a tag and the sign that makes
/// the tag an inclusion: white space, `~` and `#`.
pub open spec fn is_tag_mark(byte: u8) -> bool {
    byte == 0x20 || byte == 0x09 || byte == 0x0a || byte == 0x0d || byte == 0x7e || byte == 0x23
}

/// The place of the first byte at or after `from` that is no tag mark, or the length of
/// the bytes where there is none.
pub open spec fn marks_end(bytes: Seq<u8>, from: int) -> int
    decreases bytes.len() - from,
{
    if from < 0 || from >= bytes.len() || !is_tag_mark(bytes[from]) {
        from
    } else {
        marks_end(bytes, from + 1)
    }
}

/// Whether a tag that includes another template may start at `at`: two opening braces,
/// then tag marks, if any, then `>`.
pub open spec fn inclusion_at(bytes: Seq<u8>, at: int) -> bool {
    &&& 0 <= at
    &&& at + 1 < bytes.len()
    &&& bytes[at] == 0x7b
    &&& bytes[at + 1] == 0x7b
    &&& marks_end(bytes, at + 2) < bytes.len()
    &&& bytes[marks_end(bytes, at + 2)] == 0x3e
}

/// Whether the text of a template may include another template: somewhere in its UTF-8
/// bytes stand `{{`, then nothing but white space, `~` and `#`, then `>`. Every inclusion
/// that the template engine knows has this form; a text that only looks like one has it
/// too.
pub open spec fn includes_template(source: Seq<char>) -> bool {
    exists|at: int| inclusion_at(encode_utf8(source), at)
}

/// Whether no template of a set includes another.
pub open spec fn inclusion_free(templates: Templates) -> bool {
    forall|name: Seq<char>|
        templates.contains_key(name) ==> !includes_template(#[trigger] templates[name])
}

/// Where nothing but tag marks stands between `from` and `to`, the marks that start at
/// `from` end where those that start at `to` end.
proof fn lemma_marks_end(bytes: Seq<u8>, from: int, to: int)
    requires
        0 <= from <= to <= bytes.len(),
        forall|k: int| from <= k < to ==> is_tag_mark(bytes[k]),
    ensures
        marks_end(bytes, from) == marks_end(bytes, to),
    decreases to - from,
{
    if from < to {
        lemma_marks_end(bytes, from + 1, to);
    }
}

/// Looks through the text of a template for a tag that may include another template.
pub fn may_include(source: &str) -> (found: bool)
    ensures
        found == includes_template(source@),
{
    let bytes = source.as_bytes();
    proof {
        vstd::slice::axiom_spec_len(bytes);
    }
    let len = bytes.len();
    let mut at: usize = 0;
    while at < len
        invariant
            at <= len,
            len == bytes@.len(),
            bytes@ == encode_utf8(source@),
            forall|k: int| 0 <= k < at ==> !inclusion_at(bytes@, k),
        decreases len - at,
    {
        if bytes[at] == 0x7b && at + 1 < len && bytes[at + 1] == 0x7b {
            let mut end: usize = at + 2;
            while end < len && (bytes[end] == 0x20 || bytes[end] == 0x09 || bytes[end] == 0x0a
                || bytes[end] == 0x0d || bytes[end] == 0x7e || bytes[end] == 0x23)
                invariant
                    at + 2 <= end <= len,
                    len == bytes@.len(),
                    forall|k: int| at + 2 <= k < end ==> is_tag_mark(bytes@[k]),
                decreases len - end,
            {
                end = end + 1;
            }
            proof {
                lemma_marks_end(bytes@, at + 2, end as int);
            }
            if end < len && bytes[end] == 0x3e {
                assert(inclusion_at(bytes@, at as int));
                return true;
            }
        }
        at = at + 1;
    }
    assert forall|k: int| !inclusion_at(bytes@, k) by {
        if 0 <= k < len {
            assert(!inclusion_at(bytes@, k));
        }
    }
    false
}

/// The message for a template that may include another.
pub open spec fn inclusion_refused(name: Seq<char>) -> Seq<char> {
    "Template '"@ + name + "' includes another template"@
}

/// Why a text is not taken as the template `name`, where it is not: it may include another
/// template, or the template engine has something against it.
pub open spec fn refusal(name: Seq<char>, source: Seq<char>) -> Option<Seq<char>> {
    if includes_template(source) {
        Some(inclusion_refused(name))
    } else {
        template_defect(name, source)
    }
}

/// A set of templates, each under its name. None of them includes another, so that
/// rendering one of them comes to an end.
#[derive(Debug)]
pub struct TemplateSet {
    registry: Registry,
}

impl View for TemplateSet {
    type V = Templates;

    closed spec fn view(&self) -> Templates {
        registered_templates(self.registry)
    }
}

/// What [`TemplateSet::render`] returns, given what the engine makes of the template.
pub open spec fn render_outcome(name: Seq<char>, made: Result<Seq<char>, Seq<char>>) -> Result<
    Seq<char>,
    ErrorView,
> {
    match made {
        Ok(text) => Ok(text),
        Err(complaint) => Err(ErrorView::TemplateRender { template: name, reason: complaint }),
    }
}

impl TemplateSet {
    #[verifier::type_invariant]
    spec fn closed_set(&self) -> bool {
        inclusion_free(registered_templates(self.registry))
    }

    /// A set without templates.
    pub fn new() -> (set: TemplateSet)
        ensures
            set@ == Templates::empty(),
    {
        TemplateSet { registry: new_registry() }
    }

    /// Puts the template `source` under `name`, in the place of what was there. A text that
    /// may include another template, or that the engine does not accept, is a
    /// configuration error and leaves the set as it was.
    pub fn register(&mut self, name: &str, source: &str) -> (done: Result<(), Error>)
        ensures
            match refusal(name@, source@) {
                None => done is Ok && final(self)@ == old(self)@.insert(name@, source@),
                Some(complaint) => {
                    &&& done matches Err(error)
                    &&& error@ == ErrorView::Configuration(complaint)
                    &&& final(self)@ == old(self)@
                },
            },
    {
        if may_include(source) {
            return Err(
                Error::Configuration(
                    String::from_str("Template '").concat(name).concat(
                        "' includes another template",
                    ),
                ),
            );
        }
        proof {
            use_type_invariant(&*self);
        }
        // The registry leaves the set while the engine works on it, and an empty one
        // stands in for it, so that the set is never seen with a text not looked through.
        let mut registry = new_registry();
        std::mem::swap(&mut registry, &mut self.registry);
        let done = register_template(&mut registry, name, source);
        std::mem::swap(&mut registry, &mut self.registry);
        match done {
            Ok(()) => Ok(()),
            Err(complaint) => Err(Error::Configuration(complaint)),
        }
    }

    /// Renders the template `name` of the set against `data`.
    pub fn render(&self, name: &str, data: TemplateData) -> (out: Result<String, Error>)
        ensures
            text_result(out) == render_outcome(
                name@,
                rendered(self@, name@, fields_of(data.deep_view())),
            ),
    {
        proof {
            use_type_invariant(self);
        }
        let fields = data.fields();
        match render_template(&self.registry, name, &fields) {
            Ok(text) => Ok(text),
            Err(complaint) => Err(
                Error::TemplateRender { template: String::from_str(name), reason: complaint },
            ),
        }
    }
}

} // verus!
