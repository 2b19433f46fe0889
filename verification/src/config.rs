//! The configuration of a run: the catalog of types, the templates, and where the
//! rendering engine and the directories are.

use vstd::prelude::*;
use vstd::string::StringExecFns;
use crate::error::{text_result, Error, ErrorView};
use crate::template::{refusal, TemplateSet, Templates};
use crate::text::same_text;

verus! {

/// A value of the configuration table, as far as the configuration reads it: a string, a
/// table of named values, or anything else.
#[derive(Debug, PartialEq, Eq)]
pub enum Value {
    String(String),
    Table(Vec<(String, Value)>),
    Other,
}

/// The string that a value holds, where it is a string.
pub open spec fn text_of(value: Value) -> Option<Seq<char>> {
    match value {
        Value::String(text) => Some(text@),
        _ => None,
    }
}

/// The value that the first entry named `key` of a table holds.
pub open spec fn entry_of(table: Seq<(String, Value)>, key: Seq<char>) -> Option<Value>
    decreases table.len(),
{
    if table.len() == 0 {
        None
    } else if table[0].0@ == key {
        Some(table[0].1)
    } else {
        entry_of(table.drop_first(), key)
    }
}

/// Looks `key` up in a table.
pub fn lookup<'a>(table: &'a Vec<(String, Value)>, key: &str) -> (found: Option<&'a Value>)
    ensures
        found == match entry_of(table@, key@) {
            Some(value) => Some(&value),
            None => None,
        },
{
    let mut i: usize = 0;
    assert(table@.skip(0) =~= table@);
    while i < table.len()
        invariant
            i <= table.len(),
            entry_of(table@, key@) == entry_of(table@.skip(i as int), key@),
        decreases table.len() - i,
    {
        let ghost rest = table@.skip(i as int);
        assert(rest[0] == table@[i as int]);
        assert(rest.drop_first() =~= table@.skip(i + 1));
        if same_text(table[i].0.as_str(), key) {
            return Some(&table[i].1);
        }
        i = i + 1;
    }
    None
}

/// How a type is shown: the name to print, the page to link to where there is one, and
/// the class of the HTML element.
#[derive(Debug, Clone, PartialEq, Eq)]
pub struct TypeConfig {
    pub name: String,
    pub link: Option<String>,
    pub class: String,
}

/// A [`TypeConfig`] with its strings as sequences of characters.
pub struct TypeConfigView {
    pub name: Seq<char>,
    pub link: Option<Seq<char>>,
    pub class: Seq<char>,
}

impl View for TypeConfig {
    type V = TypeConfigView;

    open spec fn view(&self) -> TypeConfigView {
        TypeConfigView { name: self.name@, link: self.link.deep_view(), class: self.class@ }
    }
}

/// A copy of a string, where there is one.
fn copy_text(text: &Option<String>) -> (copy: Option<String>)
    ensures
        copy.deep_view() == text.deep_view(),
{
    match text {
        Some(text) => Some(text.clone()),
        None => None,
    }
}

impl TypeConfig {
    /// A copy of the record.
    pub fn duplicate(&self) -> (copy: TypeConfig)
        ensures
            copy@ == self@,
    {
        TypeConfig {
            name: self.name.clone(),
            link: copy_text(&self.link),
            class: self.class.clone(),
        }
    }
}

/// The records that a list of entries stands for, by identifier. Of two entries with one
/// identifier the later counts.
pub open spec fn catalog_of(entries: Seq<(String, TypeConfig)>) -> Map<Seq<char>, TypeConfigView>
    decreases entries.len(),
{
    if entries.len() == 0 {
        Map::empty()
    } else {
        catalog_of(entries.drop_last()).insert(entries.last().0@, entries.last().1@)
    }
}

/// The catalog of types: a record for each configured identifier.
#[derive(Debug, Clone, PartialEq, Eq)]
pub struct TypeCatalog {
    entries: Vec<(String, TypeConfig)>,
}

impl View for TypeCatalog {
    type V = Map<Seq<char>, TypeConfigView>;

    closed spec fn view(&self) -> Map<Seq<char>, TypeConfigView> {
        catalog_of(self.entries@)
    }
}

impl TypeCatalog {
    /// A catalog without entries.
    pub fn new() -> (catalog: TypeCatalog)
        ensures
            catalog@ == Map::<Seq<char>, TypeConfigView>::empty(),
    {
        TypeCatalog { entries: Vec::new() }
    }

    /// Puts `record` under `key`, in the place of what was there.
    pub fn insert(&mut self, key: String, record: TypeConfig)
        ensures
            final(self)@ == old(self)@.insert(key@, record@),
    {
        let ghost before = self.entries@;
        self.entries.push((key, record));
        assert(self.entries@.drop_last() =~= before);
    }

    /// The record under `key`, where there is one.
    pub fn get(&self, key: &str) -> (found: Option<&TypeConfig>)
        ensures
            match found {
                Some(record) => self@.contains_key(key@) && record@ == self@[key@],
                None => !self@.contains_key(key@),
            },
    {
        let mut i: usize = self.entries.len();
        assert(self.entries@.take(i as int) =~= self.entries@);
        while i > 0
            invariant
                i <= self.entries.len(),
                self@.contains_key(key@) == catalog_of(self.entries@.take(i as int)).contains_key(
                    key@,
                ),
                self@.contains_key(key@) ==> self@[key@] == catalog_of(
                    self.entries@.take(i as int),
                )[key@],
            decreases i,
        {
            let ghost head = self.entries@.take(i as int);
            assert(head.drop_last() =~= self.entries@.take(i - 1));
            assert(head.last() == self.entries@[i - 1]);
            i = i - 1;
            if same_text(self.entries[i].0.as_str(), key) {
                return Some(&self.entries[i].1);
            }
        }
        None
    }
}

/// The message for a value that should have been a string.
pub open spec fn expected_text(key: Seq<char>) -> Seq<char> {
    "Expected '"@ + key + "' to be a string!"@
}

/// The message for a value that should have been a table.
pub open spec fn expected_table(key: Seq<char>) -> Seq<char> {
    "Expected '"@ + key + "' to be a table!"@
}

/// The string under `key` in a table: none where the table has no such entry, and a
/// configuration error where the entry is no string.
pub open spec fn optional_text(table: Seq<(String, Value)>, key: Seq<char>) -> Result<
    Option<Seq<char>>,
    ErrorView,
> {
    match entry_of(table, key) {
        None => Ok(None),
        Some(value) => match text_of(value) {
            Some(text) => Ok(Some(text)),
            None => Err(ErrorView::Configuration(expected_text(key))),
        },
    }
}

/// A result with an optional text, and its error, as values of the model.
pub open spec fn optional_text_result(result: Result<Option<String>, Error>) -> Result<
    Option<Seq<char>>,
    ErrorView,
> {
    match result {
        Ok(text) => Ok(text.deep_view()),
        Err(error) => Err(error@),
    }
}

/// The error for a value that should have been a string.
fn text_expected(key: &str) -> (error: Error)
    ensures
        error@ == ErrorView::Configuration(expected_text(key@)),
{
    Error::Configuration(String::from_str("Expected '").concat(key).concat("' to be a string!"))
}

/// The error for a value that should have been a table.
fn table_expected(key: &str) -> (error: Error)
    ensures
        error@ == ErrorView::Configuration(expected_table(key@)),
{
    Error::Configuration(String::from_str("Expected '").concat(key).concat("' to be a table!"))
}

/// Reads the string under `key` in a table, where there is such an entry.
pub fn read_text(table: &Vec<(String, Value)>, key: &str) -> (read: Result<Option<String>, Error>)
    ensures
        optional_text_result(read) == optional_text(table@, key@),
{
    match lookup(table, key) {
        None => Ok(None),
        Some(Value::String(text)) => Ok(Some(text.clone())),
        Some(_) => Err(text_expected(key)),
    }
}

/// What [`value_to_string`] returns for a value.
pub open spec fn string_of(value: Value) -> Result<Seq<char>, ErrorView> {
    match text_of(value) {
        Some(text) => Ok(text),
        None => Err(ErrorView::Configuration("Cannot convert value to String"@)),
    }
}

/// The string that a value holds. Any other value is a configuration error.
pub fn value_to_string(value: &Value) -> (text: Result<String, Error>)
    ensures
        text_result(text) == string_of(*value),
{
    match value {
        Value::String(text) => Ok(text.clone()),
        _ => Err(Error::Configuration(String::from_str("Cannot convert value to String"))),
    }
}

/// The message for a type without a class.
pub open spec fn no_class(name: Seq<char>) -> Seq<char> {
    "No class given for type "@ + name + " and no default class is set!"@
}

/// The message for a type whose configuration is no table.
pub open spec fn malformed_type(name: Seq<char>) -> Seq<char> {
    "Malformed table for TypeConfig: "@ + name
}

/// The class of a type: the string under `class` in its table, else the default class.
pub open spec fn class_of(
    table: Seq<(String, Value)>,
    name: Seq<char>,
    default_class: Option<Seq<char>>,
) -> Result<Seq<char>, ErrorView> {
    match optional_text(table, "class"@) {
        Err(error) => Err(error),
        Ok(Some(class)) => Ok(class),
        Ok(None) => match default_class {
            Some(class) => Ok(class),
            None => Err(ErrorView::Configuration(no_class(name))),
        },
    }
}

/// The link of a type: the string under `link` in its table, where there is such an entry.
pub open spec fn link_of(table: Seq<(String, Value)>) -> Result<Option<Seq<char>>, ErrorView> {
    match entry_of(table, "link"@) {
        None => Ok(None),
        Some(value) => match string_of(value) {
            Ok(link) => Ok(Some(link)),
            Err(error) => Err(error),
        },
    }
}

/// The record that the configuration `value` of the type `name` stands for.
pub open spec fn type_config_of(
    value: Value,
    name: Seq<char>,
    default_class: Option<Seq<char>>,
) -> Result<TypeConfigView, ErrorView> {
    match value {
        Value::Table(table) => match class_of(table@, name, default_class) {
            Err(error) => Err(error),
            Ok(class) => match link_of(table@) {
                Err(error) => Err(error),
                Ok(link) => Ok(TypeConfigView { name, link, class }),
            },
        },
        _ => Err(ErrorView::Configuration(malformed_type(name))),
    }
}

/// A result with its record and its error as values of the model.
pub open spec fn type_result(result: Result<TypeConfig, Error>) -> Result<
    TypeConfigView,
    ErrorView,
> {
    match result {
        Ok(record) => Ok(record@),
        Err(error) => Err(error@),
    }
}

impl TypeConfig {
    /// Reads the record of the type `name` from its configuration: a table with a `class`,
    /// where `default_class` is not to be used, and perhaps a `link`.
    pub fn from_toml(toml: &Value, name: String, default_class: &Option<String>) -> (read: Result<
        TypeConfig,
        Error,
    >)
        ensures
            type_result(read) == type_config_of(*toml, name@, default_class.deep_view()),
    {
        match toml {
            Value::Table(table) => {
                let class = match read_text(table, "class") {
                    Err(error) => {
                        return Err(error);
                    },
                    Ok(Some(class)) => class,
                    Ok(None) => match default_class {
                        Some(class) => class.clone(),
                        None => {
                            return Err(
                                Error::Configuration(
                                    String::from_str("No class given for type ").concat(
                                        name.as_str(),
                                    ).concat(" and no default class is set!"),
                                ),
                            );
                        },
                    },
                };
                let link = match lookup(table, "link") {
                    None => None,
                    Some(value) => match value_to_string(value) {
                        Ok(link) => Some(link),
                        Err(error) => {
                            return Err(error);
                        },
                    },
                };
                Ok(TypeConfig { name, link, class })
            },
            _ => Err(
                Error::Configuration(
                    String::from_str("Malformed table for TypeConfig: ").concat(name.as_str()),
                ),
            ),
        }
    }
}

/// The built-in template for a reference to a type: a link where one is asked for and
/// configured, else a span.
pub const TYPE_TEMPLATE: &'static str =
    "{{#if (and use_link link)}}<a class=\"type-{{name}} {{class}}\" href=\"{{link}}\">{{name}}</a>{{else}}<span class=\"type-{{name}} {{class}}\">{{name}}</span>{{/if}}";

/// The built-in template for highlighted source.
pub const CODE_TEMPLATE: &'static str = "<pre class=\"typst-code\">{{source}}</pre>";

/// The built-in template for highlighted source beside its image.
pub const EXAMPLE_TEMPLATE: &'static str =
    "<div class=\"typst-example\"><pre class=\"typst-code\">{{source}}</pre><div class=\"typst-render\">\n\n{{image}}\n\n</div></div>";

/// The built-in template for a rendered image.
pub const RENDER_TEMPLATE: &'static str = "<div class=\"typst-render\">\n\n{{image}}\n\n</div>";

/// The built-in template for the definition of a parameter.
pub const PARAMETER_TEMPLATE: &'static str =
    "<div class=\"parameter-definition\"><h4 class=\"parameter-name\"><code>{{name}}</code>{{#if types}}<span class=\"parameter-types\">{{#each types}} {{this}}{{/each}}</span>{{/if}}</h4>{{#if default}}<div class=\"parameter-default\">Default: {{default}}</div>{{/if}}<div class=\"parameter-description\">\n\n{{description}}\n\n</div></div>";

/// The template that makes a program of a block of markup, unless the configuration has
/// another.
pub const MARKUP_PROGRAM: &'static str = "{{input}}";

/// The template that makes a program of a block of code, unless the configuration has
/// another.
pub const CODE_PROGRAM: &'static str = "#{\n {{input}} \n}";

/// The directory from which the rendered images are published, as seen from the
/// directory of the book's sources.
pub const PUBLISHED_DIRECTORY: &'static str = "mdbook-typst-doc";

/// The directory into which the rendering engine writes, as seen from the directory of the
/// book's sources.
pub const CACHE_DIRECTORY: &'static str = "../mdbook-typst-doc";

/// The directory of the template files of a theme, as seen from the directory of the
/// book's sources.
pub const THEME_DIRECTORY: &'static str = "../themes/typst-doc";

/// The name of the file that holds the template `name` in the directory of a theme.
pub open spec fn theme_file_of(name: Seq<char>) -> Seq<char> {
    name + ".hbs"@
}

/// The name of the file that holds the template `name` in the directory of a theme.
pub fn theme_file(name: &str) -> (file: String)
    ensures
        file@ == theme_file_of(name@),
{
    String::from_str(name).concat(".hbs")
}

/// The names of the templates that a theme may replace.
pub fn theme_templates() -> (names: Vec<&'static str>)
    ensures
        names.deep_view() == seq!["type"@, "code"@, "example"@, "render"@, "parameter"@],
{
    let mut names: Vec<&'static str> = Vec::new();
    names.push("type");
    names.push("code");
    names.push("example");
    names.push("render");
    names.push("parameter");
    assert(names.deep_view() =~= seq!["type"@, "code"@, "example"@, "render"@, "parameter"@]);
    names
}

/// The command that runs the rendering engine, unless the configuration has another.
pub const DEFAULT_COMMAND: &'static str = "typst";

/// The address under which the rendered images are served.
pub const DEFAULT_URL: &'static str = "/mdbook-typst-doc";

/// The templates after `source` was registered under `name`, or the configuration error
/// for a text that is not taken.
pub open spec fn registered(templates: Templates, name: Seq<char>, source: Seq<char>) -> Result<
    Templates,
    ErrorView,
> {
    match refusal(name, source) {
        Some(complaint) => Err(ErrorView::Configuration(complaint)),
        None => Ok(templates.insert(name, source)),
    }
}

/// The next registration in a row of them: an earlier error stays.
pub open spec fn then_registered(
    earlier: Result<Templates, ErrorView>,
    name: Seq<char>,
    source: Seq<char>,
) -> Result<Templates, ErrorView> {
    match earlier {
        Err(error) => Err(error),
        Ok(templates) => registered(templates, name, source),
    }
}

/// The built-in templates, by name, or the configuration error for the first of them that
/// is not taken.
pub open spec fn builtin_templates() -> Result<Templates, ErrorView> {
    then_registered(
        then_registered(
            then_registered(
                then_registered(
                    then_registered(Ok(Templates::empty()), "type"@, TYPE_TEMPLATE@),
                    "code"@,
                    CODE_TEMPLATE@,
                ),
                "example"@,
                EXAMPLE_TEMPLATE@,
            ),
            "render"@,
            RENDER_TEMPLATE@,
        ),
        "parameter"@,
        PARAMETER_TEMPLATE@,
    )
}

/// A result with its templates and its error as values of the model.
pub open spec fn templates_result(result: Result<TemplateSet, Error>) -> Result<Templates, ErrorView> {
    match result {
        Ok(set) => Ok(set@),
        Err(error) => Err(error@),
    }
}

/// Registers the built-in templates, in the order `type`, `code`, `example`, `render`,
/// `parameter`.
fn builtin_set() -> (made: Result<TemplateSet, Error>)
    ensures
        templates_result(made) == builtin_templates(),
{
    let mut set = TemplateSet::new();
    match set.register("type", TYPE_TEMPLATE) {
        Ok(()) => {},
        Err(error) => {
            return Err(error);
        },
    }
    match set.register("code", CODE_TEMPLATE) {
        Ok(()) => {},
        Err(error) => {
            return Err(error);
        },
    }
    match set.register("example", EXAMPLE_TEMPLATE) {
        Ok(()) => {},
        Err(error) => {
            return Err(error);
        },
    }
    match set.register("render", RENDER_TEMPLATE) {
        Ok(()) => {},
        Err(error) => {
            return Err(error);
        },
    }
    match set.register("parameter", PARAMETER_TEMPLATE) {
        Ok(()) => {},
        Err(error) => {
            return Err(error);
        },
    }
    Ok(set)
}

/// The configuration of a run.
#[derive(Debug)]
pub struct Config {
    /// The catalog of types.
    pub types: TypeCatalog,
    /// The class of the types that the catalog does not hold, where one is set.
    pub default_type_class: Option<String>,
    /// The command that runs the rendering engine.
    pub typst_command: String,
    /// The root directory to hand to the rendering engine, where one is set.
    pub root: Option<String>,
    /// The directory from which the rendered images are published.
    pub src: String,
    /// The directory into which the rendering engine writes.
    pub cache: String,
    /// The address under which the rendered images are served.
    pub url: String,
    /// The templates.
    pub handlebars: TemplateSet,
}

/// A [`Config`] as values of the model.
pub struct ConfigView {
    pub types: Map<Seq<char>, TypeConfigView>,
    pub default_type_class: Option<Seq<char>>,
    pub typst_command: Seq<char>,
    pub root: Option<Seq<char>>,
    pub src: Seq<char>,
    pub cache: Seq<char>,
    pub url: Seq<char>,
    pub templates: Templates,
}

impl View for Config {
    type V = ConfigView;

    open spec fn view(&self) -> ConfigView {
        ConfigView {
            types: self.types@,
            default_type_class: self.default_type_class.deep_view(),
            typst_command: self.typst_command@,
            root: self.root.deep_view(),
            src: self.src@,
            cache: self.cache@,
            url: self.url@,
            templates: self.handlebars@,
        }
    }
}

/// The configuration that nothing was set in. It holds the built-in templates, or no
/// template at all where one of them is not taken.
pub open spec fn default_config() -> ConfigView {
    ConfigView {
        types: Map::empty(),
        default_type_class: None,
        typst_command: DEFAULT_COMMAND@,
        root: None,
        src: Seq::empty(),
        cache: Seq::empty(),
        url: DEFAULT_URL@,
        templates: match builtin_templates() {
            Ok(templates) => templates,
            Err(_) => Templates::empty(),
        },
    }
}

impl Default for Config {
    /// The configuration that nothing was set in: an empty catalog, no default class, the
    /// command `typst`, and the built-in templates. It cannot report a built-in text that
    /// is not taken, as [`Config::from_config`] does, and holds no template then.
    fn default() -> (config: Config)
        ensures
            config@ == default_config(),
    {
        Config {
            types: TypeCatalog::new(),
            default_type_class: None,
            typst_command: String::from_str(DEFAULT_COMMAND),
            root: None,
            src: String::new(),
            cache: String::new(),
            url: String::from_str(DEFAULT_URL),
            handlebars: match builtin_set() {
                Ok(set) => set,
                Err(_) => TemplateSet::new(),
            },
        }
    }
}

/// What a type identifier resolves to: the record under it in the catalog; else, where a
/// default class is set, a record of that class without a link; else nothing.
pub open spec fn resolved(config: ConfigView, key: Seq<char>) -> Result<TypeConfigView, ErrorView> {
    if config.types.contains_key(key) {
        Ok(config.types[key])
    } else {
        match config.default_type_class {
            Some(class) => Ok(TypeConfigView { name: key, link: None, class }),
            None => Err(ErrorView::UnknownType(key)),
        }
    }
}

impl Config {
    /// Resolves a type identifier.
    pub fn get_type(&self, key: &str) -> (found: Result<TypeConfig, Error>)
        ensures
            type_result(found) == resolved(self@, key@),
    {
        match self.types.get(key) {
            Some(record) => Ok(record.duplicate()),
            None => match &self.default_type_class {
                Some(class) => Ok(
                    TypeConfig { name: String::from_str(key), link: None, class: class.clone() },
                ),
                None => Err(Error::UnknownType(String::from_str(key))),
            },
        }
    }
}

/// What the host of a run hands over: the two directories, which exist; the table of this
/// preprocessor from the book's configuration, where it has one (a book without one is
/// configured as one with an empty table); and the text of each template file found in the
/// book's theme directory, under the template's name.
#[derive(Debug, PartialEq, Eq)]
pub struct HostConfig {
    pub src: String,
    pub cache: String,
    pub table: Option<Vec<(String, Value)>>,
    pub templates: Vec<(String, String)>,
}

/// The catalog read from the first `n` entries of the table of types, or the error of the
/// first entry that is malformed.
pub open spec fn catalog_from(
    entries: Seq<(String, Value)>,
    default_class: Option<Seq<char>>,
    n: nat,
) -> Result<Map<Seq<char>, TypeConfigView>, ErrorView>
    decreases n,
{
    if n == 0 {
        Ok(Map::empty())
    } else {
        match catalog_from(entries, default_class, (n - 1) as nat) {
            Err(error) => Err(error),
            Ok(catalog) => match type_config_of(
                entries[n - 1].1,
                entries[n - 1].0@,
                default_class,
            ) {
                Err(error) => Err(error),
                Ok(record) => Ok(catalog.insert(entries[n - 1].0@, record)),
            },
        }
    }
}

/// An error among the first entries is the error of the whole table.
proof fn lemma_catalog_error(
    entries: Seq<(String, Value)>,
    default_class: Option<Seq<char>>,
    n: nat,
    m: nat,
)
    requires
        n <= m,
        catalog_from(entries, default_class, n) is Err,
    ensures
        catalog_from(entries, default_class, m) == catalog_from(entries, default_class, n),
    decreases m,
{
    if n < m {
        lemma_catalog_error(entries, default_class, n, (m - 1) as nat);
    }
}

/// A catalog that was read holds, for each entry of the table, the record that the entry
/// stands for, unless a later entry has the same identifier.
pub proof fn lemma_catalog_holds(
    entries: Seq<(String, Value)>,
    default_class: Option<Seq<char>>,
    n: nat,
    i: int,
)
    requires
        0 <= i < n <= entries.len(),
        catalog_from(entries, default_class, n) is Ok,
        forall|j: int| i < j < n ==> entries[j].0@ != entries[i].0@,
    ensures
        catalog_from(entries, default_class, n)->Ok_0.contains_key(entries[i].0@),
        type_config_of(entries[i].1, entries[i].0@, default_class) == Ok::<
            TypeConfigView,
            ErrorView,
        >(catalog_from(entries, default_class, n)->Ok_0[entries[i].0@]),
    decreases n,
{
    if i < n - 1 {
        lemma_catalog_holds(entries, default_class, (n - 1) as nat, i);
    }
}

/// The catalog under `types` in the table: empty where there is no such entry.
pub open spec fn types_of(table: Seq<(String, Value)>, default_class: Option<Seq<char>>) -> Result<
    Map<Seq<char>, TypeConfigView>,
    ErrorView,
> {
    match entry_of(table, "types"@) {
        None => Ok(Map::empty()),
        Some(Value::Table(entries)) => catalog_from(entries@, default_class, entries@.len()),
        Some(_) => Err(ErrorView::Configuration(expected_table("types"@))),
    }
}

/// The templates after the first `n` of `texts` were registered, each under its name, or
/// the error for the first text that the template engine refuses.
pub open spec fn with_templates(templates: Templates, texts: Seq<(String, String)>, n: nat) -> Result<
    Templates,
    ErrorView,
>
    decreases n,
{
    if n == 0 {
        Ok(templates)
    } else {
        match with_templates(templates, texts, (n - 1) as nat) {
            Err(error) => Err(error),
            Ok(set) => registered(set, texts[n - 1].0@, texts[n - 1].1@),
        }
    }
}

/// An error among the first texts is the error of the whole list.
proof fn lemma_templates_error(templates: Templates, texts: Seq<(String, String)>, n: nat, m: nat)
    requires
        n <= m,
        with_templates(templates, texts, n) is Err,
    ensures
        with_templates(templates, texts, m) == with_templates(templates, texts, n),
    decreases m,
{
    if n < m {
        lemma_templates_error(templates, texts, n, (m - 1) as nat);
    }
}

/// The text of the template that makes a program in one mode: the string under `key` in
/// the table `code-templates`, else `fallback`.
pub open spec fn program_template(table: Seq<(String, Value)>, key: Seq<char>, fallback: Seq<char>) -> Result<
    Seq<char>,
    ErrorView,
> {
    match entry_of(table, "code-templates"@) {
        None => Ok(fallback),
        Some(Value::Table(programs)) => match optional_text(programs@, key) {
            Err(error) => Err(error),
            Ok(Some(text)) => Ok(text),
            Ok(None) => Ok(fallback),
        },
        Some(_) => Err(ErrorView::Configuration(expected_table("code-templates"@))),
    }
}

/// The templates of a run: the built-in ones, those of the theme directory over them, and
/// the two that make programs. A text that is not taken is a configuration error,
/// whichever of them it is.
pub open spec fn templates_of(table: Seq<(String, Value)>, theme: Seq<(String, String)>) -> Result<
    Templates,
    ErrorView,
> {
    match builtin_templates() {
        Err(error) => Err(error),
        Ok(builtin) => match with_templates(builtin, theme, theme.len()) {
            Err(error) => Err(error),
            Ok(themed) => match program_template(table, "typ"@, MARKUP_PROGRAM@) {
                Err(error) => Err(error),
                Ok(markup) => match program_template(table, "typc"@, CODE_PROGRAM@) {
                    Err(error) => Err(error),
                    Ok(code) => then_registered(
                        registered(themed, "typ"@, markup),
                        "typc"@,
                        code,
                    ),
                },
            },
        },
    }
}

/// The table of the preprocessor that the host hands over: an empty one where the book's
/// configuration has none.
pub open spec fn table_of(host: HostConfig) -> Seq<(String, Value)> {
    match host.table {
        Some(table) => table@,
        None => Seq::empty(),
    }
}

/// The configuration that the host's hand-over stands for. What the table does not set
/// is as in the default configuration; a book without a table is configured as one with
/// an empty table. An entry of the wrong kind, a type without a class, and a template that
/// is not taken are errors, looked for in this order: `root-arg`, `default-type-class`,
/// `types`, `typst-command`, the built-in templates, the theme's templates,
/// `code-templates`.
pub open spec fn configured(host: HostConfig) -> Result<ConfigView, ErrorView> {
    let table = table_of(host);
    match optional_text(table, "root-arg"@) {
        Err(error) => Err(error),
        Ok(root) => match optional_text(table, "default-type-class"@) {
            Err(error) => Err(error),
            Ok(default_type_class) => match types_of(table, default_type_class) {
                Err(error) => Err(error),
                Ok(types) => match optional_text(table, "typst-command"@) {
                    Err(error) => Err(error),
                    Ok(command) => match templates_of(table, host.templates@) {
                        Err(error) => Err(error),
                        Ok(templates) => Ok(
                            ConfigView {
                                types,
                                default_type_class,
                                typst_command: match command {
                                    Some(command) => command,
                                    None => DEFAULT_COMMAND@,
                                },
                                root,
                                src: host.src@,
                                cache: host.cache@,
                                url: DEFAULT_URL@,
                                templates,
                            },
                        ),
                    },
                },
            },
        },
    }
}

/// A book without a table of the preprocessor is configured as one with an empty table.
pub proof fn lemma_without_table(host: HostConfig, other: HostConfig)
    requires
        host.table is None,
        other.table matches Some(table) && table@.len() == 0,
        other.src == host.src,
        other.cache == host.cache,
        other.templates == host.templates,
    ensures
        configured(host) == configured(other),
{
    assert(table_of(host) =~= table_of(other));
}

/// A result with its configuration and its error as values of the model.
pub open spec fn config_result(result: Result<Config, Error>) -> Result<ConfigView, ErrorView> {
    match result {
        Ok(config) => Ok(config@),
        Err(error) => Err(error@),
    }
}

/// Reads the catalog from the table of types.
fn read_types(entries: &Vec<(String, Value)>, default_class: &Option<String>) -> (read: Result<
    TypeCatalog,
    Error,
>)
    ensures
        match catalog_from(entries@, default_class.deep_view(), entries@.len()) {
            Ok(catalog) => read matches Ok(types) && types@ == catalog,
            Err(error) => read matches Err(e) && e@ == error,
        },
{
    let mut types = TypeCatalog::new();
    let mut i: usize = 0;
    while i < entries.len()
        invariant
            i <= entries.len(),
            catalog_from(entries@, default_class.deep_view(), i as nat) == Ok::<
                Map<Seq<char>, TypeConfigView>,
                ErrorView,
            >(types@),
        decreases entries.len() - i,
    {
        let key = entries[i].0.clone();
        match TypeConfig::from_toml(&entries[i].1, entries[i].0.clone(), default_class) {
            Ok(record) => {
                types.insert(key, record);
            },
            Err(error) => {
                proof {
                    lemma_catalog_error(
                        entries@,
                        default_class.deep_view(),
                        (i + 1) as nat,
                        entries@.len(),
                    );
                }
                return Err(error);
            },
        }
        i = i + 1;
    }
    Ok(types)
}

/// Reads the text of the template that makes a program in one mode.
fn read_program(table: &Vec<(String, Value)>, key: &str, fallback: &str) -> (read: Result<
    String,
    Error,
>)
    ensures
        text_result(read) == program_template(table@, key@, fallback@),
{
    match lookup(table, "code-templates") {
        None => Ok(String::from_str(fallback)),
        Some(Value::Table(programs)) => match read_text(programs, key) {
            Err(error) => Err(error),
            Ok(Some(text)) => Ok(text),
            Ok(None) => Ok(String::from_str(fallback)),
        },
        Some(_) => Err(table_expected("code-templates")),
    }
}

/// Builds the templates of a run.
fn read_templates(table: &Vec<(String, Value)>, theme: &Vec<(String, String)>) -> (read: Result<
    TemplateSet,
    Error,
>)
    ensures
        templates_result(read) == templates_of(table@, theme@),
{
    let mut set = match builtin_set() {
        Ok(set) => set,
        Err(error) => {
            return Err(error);
        },
    };
    let ghost builtin = set@;
    let mut i: usize = 0;
    while i < theme.len()
        invariant
            i <= theme.len(),
            builtin_templates() == Ok::<Templates, ErrorView>(builtin),
            with_templates(builtin, theme@, i as nat) == Ok::<Templates, ErrorView>(set@),
        decreases theme.len() - i,
    {
        match set.register(theme[i].0.as_str(), theme[i].1.as_str()) {
            Ok(()) => {},
            Err(error) => {
                proof {
                    lemma_templates_error(builtin, theme@, (i + 1) as nat, theme@.len());
                }
                return Err(error);
            },
        }
        i = i + 1;
    }
    let markup = match read_program(table, "typ", MARKUP_PROGRAM) {
        Ok(markup) => markup,
        Err(error) => {
            return Err(error);
        },
    };
    let code = match read_program(table, "typc", CODE_PROGRAM) {
        Ok(code) => code,
        Err(error) => {
            return Err(error);
        },
    };
    match set.register("typ", markup.as_str()) {
        Ok(()) => {},
        Err(error) => {
            return Err(error);
        },
    }
    match set.register("typc", code.as_str()) {
        Ok(()) => {},
        Err(error) => {
            return Err(error);
        },
    }
    Ok(set)
}

impl Config {
    /// Builds the configuration of a run from what the host hands over.
    pub fn from_config(host: &HostConfig) -> (made: Result<Config, Error>)
        ensures
            config_result(made) == configured(*host),
    {
        let empty: Vec<(String, Value)> = Vec::new();
        let table = match &host.table {
            Some(table) => table,
            None => &empty,
        };
        assert(table@ == table_of(*host));
        let root = match read_text(table, "root-arg") {
            Ok(root) => root,
            Err(error) => {
                return Err(error);
            },
        };
        let default_type_class = match read_text(table, "default-type-class") {
            Ok(class) => class,
            Err(error) => {
                return Err(error);
            },
        };
        let types = match lookup(table, "types") {
            None => TypeCatalog::new(),
            Some(Value::Table(entries)) => match read_types(entries, &default_type_class) {
                Ok(types) => types,
                Err(error) => {
                    return Err(error);
                },
            },
            Some(_) => {
                return Err(table_expected("types"));
            },
        };
        let typst_command = match read_text(table, "typst-command") {
            Ok(Some(command)) => command,
            Ok(None) => String::from_str(DEFAULT_COMMAND),
            Err(error) => {
                return Err(error);
            },
        };
        let handlebars = match read_templates(table, &host.templates) {
            Ok(set) => set,
            Err(error) => {
                return Err(error);
            },
        };
        Ok(
            Config {
                types,
                default_type_class,
                typst_command,
                root,
                src: host.src.clone(),
                cache: host.cache.clone(),
                url: String::from_str(DEFAULT_URL),
                handlebars,
            },
        )
    }
}

} // verus!
