//! The preprocessor: the compiled patterns of the three markers, and one run over a book.

use vstd::prelude::*;
use crate::book::{
    item_result, item_view, items_result, items_view, lemma_walked_error,
    lemma_walked_items_cached, walked_item, walked_items, Book, BookItem, BookItemView, Chapter,
};
use crate::cache::{fresh_cache, holds_all, keys_of_files, RenderCache, RenderCacheView};
use crate::config::{configured, Config, ConfigView, HostConfig};
use crate::error::{text_result, Error, ErrorView};
use crate::pattern::{compiled_from, found_for, Capture, Matcher};
use crate::rewrite::{
    pattern_of, processed, rewrite_found, rewritten, Pass, CODE_BLOCK_PATTERN, PARAMETER_PATTERN,
    TYPE_PATTERN,
};

verus! {

/// The name under which the host knows the preprocessor.
pub const NAME: &'static str = "typst-doc";

/// What a run gives: the configuration that it was made with, the book with the rewritten
/// bodies, and the cache, which holds the jobs that have to be started before the images
/// are published.
pub struct Outcome {
    pub config: Config,
    pub book: Book,
    pub cache: RenderCache,
}

/// An [`Outcome`] as values of the model.
pub struct OutcomeView {
    pub config: ConfigView,
    pub sections: Seq<BookItemView>,
    pub cache: RenderCacheView,
}

impl View for Outcome {
    type V = OutcomeView;

    open spec fn view(&self) -> OutcomeView {
        OutcomeView {
            config: self.config@,
            sections: items_view(self.book.sections@),
            cache: self.cache@,
        }
    }
}

/// What a run makes of the items of a book: the configuration is built from what the host
/// hands over, and the items are walked in their order, with a cache that holds at the
/// start the keys of the images among the files `published`.
pub open spec fn run_of(host: HostConfig, sections: Seq<BookItemView>, published: Seq<Seq<char>>) -> Result<
    OutcomeView,
    ErrorView,
> {
    match configured(host) {
        Err(error) => Err(error),
        Ok(config) => match walked_items(
            sections,
            config,
            fresh_cache(keys_of_files(published, published.len())),
            sections.len(),
        ) {
            (Err(error), _) => Err(error),
            (Ok(walked), cache) => Ok(OutcomeView { config, sections: walked, cache }),
        },
    }
}

/// A run that finds published the image of every key that an earlier run on the same book
/// and configuration held at its end starts the engine for nothing and gives the same
/// book.
pub proof fn lemma_second_run(
    host: HostConfig,
    sections: Seq<BookItemView>,
    published: Seq<Seq<char>>,
    later: Seq<Seq<char>>,
)
    requires
        run_of(host, sections, published) is Ok,
        holds_all(
            fresh_cache(keys_of_files(later, later.len())),
            run_of(host, sections, published)->Ok_0.cache.keys,
        ),
    ensures
        run_of(host, sections, later) == Ok::<OutcomeView, ErrorView>(
            OutcomeView {
                cache: fresh_cache(keys_of_files(later, later.len())),
                ..run_of(host, sections, published)->Ok_0
            },
        ),
        run_of(host, sections, later)->Ok_0.cache.jobs.len() == 0,
{
    let config = configured(host)->Ok_0;
    lemma_walked_items_cached(
        sections,
        config,
        fresh_cache(keys_of_files(published, published.len())),
        fresh_cache(keys_of_files(later, later.len())),
        sections.len(),
    );
}

/// A result with its outcome and its error as values of the model.
pub open spec fn outcome_result(result: Result<Outcome, Error>) -> Result<OutcomeView, ErrorView> {
    match result {
        Ok(outcome) => Ok(outcome@),
        Err(error) => Err(error@),
    }
}

/// The preprocessor for books that document Typst code. It holds the compiled pattern of
/// each of the three markers, or nothing in the place of a pattern that the regex engine
/// refuses.
pub struct TypstPreprocessor {
    type_regex: Option<Matcher>,
    code_block_regex: Option<Matcher>,
    parameter_regex: Option<Matcher>,
}

impl TypstPreprocessor {
    #[verifier::type_invariant]
    spec fn compiled(&self) -> bool {
        &&& compiled_from(self.type_regex, TYPE_PATTERN@)
        &&& compiled_from(self.code_block_regex, CODE_BLOCK_PATTERN@)
        &&& compiled_from(self.parameter_regex, PARAMETER_PATTERN@)
    }

    /// The compiled pattern that the preprocessor holds for a pass, where it holds one.
    pub closed spec fn matcher(&self, pass: Pass) -> Option<Matcher> {
        match pass {
            Pass::Parameters => self.parameter_regex,
            Pass::TypeReferences => self.type_regex,
            Pass::CodeBlocks => self.code_block_regex,
        }
    }

    /// The preprocessor, with its three patterns compiled: for each pass it holds the
    /// matcher compiled from the pattern of the pass, or nothing where the regex engine
    /// refuses that pattern.
    pub fn new() -> (preprocessor: TypstPreprocessor)
        ensures
            compiled_from(preprocessor.matcher(Pass::Parameters), PARAMETER_PATTERN@),
            compiled_from(preprocessor.matcher(Pass::TypeReferences), TYPE_PATTERN@),
            compiled_from(preprocessor.matcher(Pass::CodeBlocks), CODE_BLOCK_PATTERN@),
    {
        TypstPreprocessor {
            type_regex: Matcher::compile(TYPE_PATTERN),
            code_block_regex: Matcher::compile(CODE_BLOCK_PATTERN),
            parameter_regex: Matcher::compile(PARAMETER_PATTERN),
        }
    }

    /// The name under which the host knows the preprocessor.
    pub fn name(&self) -> (name: &'static str)
        ensures
            name@ == NAME@,
    {
        NAME
    }

    /// What the regex engine finds in `text` for the pattern of a pass.
    fn find(&self, pass: Pass, text: &str) -> (found: Option<Vec<Capture>>)
        ensures
            found.deep_view() == found_for(pattern_of(pass), text@),
            found matches Some(list) ==> crate::pattern::captures_fit(text@, list.deep_view()),
    {
        proof {
            use_type_invariant(self);
        }
        let matcher = match pass {
            Pass::Parameters => &self.parameter_regex,
            Pass::TypeReferences => &self.type_regex,
            Pass::CodeBlocks => &self.code_block_regex,
        };
        match matcher {
            Some(matcher) => Some(matcher.captures(text)),
            None => None,
        }
    }

    /// Runs a pass over `text`: looks for the pattern of the pass and replaces each match.
    pub fn rewrite(&self, pass: Pass, text: &str, config: &Config, cache: &mut RenderCache) -> (out:
        Result<String, Error>)
        ensures
            (text_result(out), final(cache)@) == rewritten(
                pass,
                text@,
                found_for(pattern_of(pass), text@),
                config@,
                old(cache)@,
            ),
    {
        let found = self.find(pass, text);
        rewrite_found(pass, text, &found, config, cache)
    }

    /// Rewrites the body of a chapter: runs the three passes, each over what the pass
    /// before it wrote.
    pub fn process(&self, text: &str, config: &Config, cache: &mut RenderCache) -> (out: Result<
        String,
        Error,
    >)
        ensures
            (text_result(out), final(cache)@) == processed(text@, config@, old(cache)@),
    {
        let first = match self.rewrite(Pass::Parameters, text, config, cache) {
            Ok(first) => first,
            Err(error) => {
                return Err(error);
            },
        };
        let second = match self.rewrite(Pass::TypeReferences, first.as_str(), config, cache) {
            Ok(second) => second,
            Err(error) => {
                return Err(error);
            },
        };
        self.rewrite(Pass::CodeBlocks, second.as_str(), config, cache)
    }

    /// Rewrites the bodies of the chapters in `section`, the chapters below a chapter
    /// before the chapter itself, and gives the section with the rewritten bodies. An item
    /// that is no chapter stays as it is.
    pub fn process_chapter(&self, section: &BookItem, config: &Config, cache: &mut RenderCache) -> (out:
        Result<BookItem, Error>)
        ensures
            (item_result(out), final(cache)@) == walked_item(
                item_view(*section),
                config@,
                old(cache)@,
            ),
        decreases *section, 0nat,
    {
        match section {
            BookItem::Chapter(chapter) => {
                assert(item_view(*section)->Chapter_0.sub_items =~= items_view(
                    chapter.sub_items@,
                ));
                let sub_items = match self.process_chapters(&chapter.sub_items, config, cache) {
                    Ok(sub_items) => sub_items,
                    Err(error) => {
                        return Err(error);
                    },
                };
                match self.process(chapter.content.as_str(), config, cache) {
                    Ok(content) => {
                        let walked = BookItem::Chapter(Chapter { content, sub_items });
                        assert(item_view(walked)->Chapter_0.sub_items =~= items_view(sub_items@));
                        Ok(walked)
                    },
                    Err(error) => Err(error),
                }
            },
            BookItem::Separator => Ok(BookItem::Separator),
            BookItem::PartTitle(title) => Ok(BookItem::PartTitle(title.clone())),
        }
    }

    /// Rewrites the bodies of the chapters in the items of a list, in the order of the
    /// items, and gives the items with the rewritten bodies.
    pub fn process_chapters(&self, items: &Vec<BookItem>, config: &Config, cache: &mut RenderCache) -> (out:
        Result<Vec<BookItem>, Error>)
        ensures
            (items_result(out), final(cache)@) == walked_items(
                items_view(items@),
                config@,
                old(cache)@,
                items@.len(),
            ),
        decreases *items, 1nat,
    {
        let ghost before = items_view(items@);
        let mut walked: Vec<BookItem> = Vec::new();
        let mut i: usize = 0;
        assert(items_view(walked@) =~= Seq::empty());
        while i < items.len()
            invariant
                i <= items.len(),
                before == items_view(items@),
                walked_items(before, config@, old(cache)@, i as nat) == (
                    Ok::<Seq<BookItemView>, ErrorView>(items_view(walked@)),
                    cache@,
                ),
            decreases items.len() - i,
        {
            let ghost done = items_view(walked@);
            match self.process_chapter(&items[i], config, cache) {
                Ok(item) => {
                    walked.push(item);
                    assert(items_view(walked@) =~= done.push(item_view(item)));
                },
                Err(error) => {
                    proof {
                        assert(before[i as int] == item_view(items@[i as int]));
                        assert(walked_items(before, config@, old(cache)@, (i + 1) as nat).0 is Err);
                        lemma_walked_error(
                            before,
                            config@,
                            old(cache)@,
                            (i + 1) as nat,
                            before.len(),
                        );
                    }
                    return Err(error);
                },
            }
            i = i + 1;
        }
        Ok(walked)
    }

    /// Runs the preprocessor over a book. `published` are the names of the files in the
    /// directory of the published images. The jobs of the outcome have to be run, all of
    /// them with success, before what they write is published too.
    pub fn run(&self, host: &HostConfig, book: &Book, published: &Vec<String>) -> (out: Result<
        Outcome,
        Error,
    >)
        ensures
            outcome_result(out) == run_of(
                *host,
                items_view(book.sections@),
                published.deep_view(),
            ),
    {
        let config = match Config::from_config(host) {
            Ok(config) => config,
            Err(error) => {
                return Err(error);
            },
        };
        let mut cache = RenderCache::from_files(published);
        match self.process_chapters(&book.sections, &config, &mut cache) {
            Ok(sections) => Ok(Outcome { config, book: Book { sections }, cache }),
            Err(error) => Err(error),
        }
    }
}

} // verus!
