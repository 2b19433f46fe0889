//! The tree of chapters of a book, and the walk that rewrites the body of each chapter.

use vstd::prelude::*;
use crate::cache::{grown, holds_all, lemma_grown_chain, lemma_holds_earlier, RenderCacheView};
use crate::config::ConfigView;
use crate::error::{Error, ErrorView};
use crate::rewrite::{lemma_processed_cached, lemma_processed_grows, processed};

verus! {

/// A chapter: its body, and the chapters and other items below it.
#[derive(Debug, PartialEq, Eq)]
pub struct Chapter {
    pub content: String,
    pub sub_items: Vec<BookItem>,
}

/// An item of a book. Only a chapter has a body.
#[derive(Debug, PartialEq, Eq)]
pub enum BookItem {
    Chapter(Chapter),
    Separator,
    PartTitle(String),
}

/// A book: its items, in their order.
#[derive(Debug, PartialEq, Eq)]
pub struct Book {
    pub sections: Vec<BookItem>,
}

/// A [`Chapter`] as values of the model.
pub struct ChapterView {
    pub content: Seq<char>,
    pub sub_items: Seq<BookItemView>,
}

/// A [`BookItem`] as values of the model.
pub enum BookItemView {
    Chapter(ChapterView),
    Separator,
    PartTitle(Seq<char>),
}

/// The model of an item.
pub open spec fn item_view(item: BookItem) -> BookItemView
    decreases item,
{
    match item {
        BookItem::Chapter(chapter) => BookItemView::Chapter(
            ChapterView {
                content: chapter.content@,
                sub_items: Seq::new(
                    chapter.sub_items@.len(),
                    |i: int|
                        if 0 <= i < chapter.sub_items@.len() {
                            item_view(chapter.sub_items@[i])
                        } else {
                            BookItemView::Separator
                        },
                ),
            },
        ),
        BookItem::Separator => BookItemView::Separator,
        BookItem::PartTitle(title) => BookItemView::PartTitle(title@),
    }
}

/// The models of a list of items.
pub open spec fn items_view(items: Seq<BookItem>) -> Seq<BookItemView> {
    Seq::new(items.len(), |i: int| item_view(items[i]))
}

/// What the walk makes of an item, and the cache after it. An item that is no chapter
/// stays as it is. Of a chapter the items below it are walked first, in their order, and
/// then its own body is rewritten.
pub open spec fn walked_item(item: BookItemView, config: ConfigView, cache: RenderCacheView) -> (
    Result<BookItemView, ErrorView>,
    RenderCacheView,
)
    decreases item, 0nat,
{
    match item {
        BookItemView::Chapter(chapter) => {
            let (below, cache1) = walked_items(
                chapter.sub_items,
                config,
                cache,
                chapter.sub_items.len(),
            );
            match below {
                Err(error) => (Err(error), cache1),
                Ok(sub_items) => {
                    let (body, cache2) = processed(chapter.content, config, cache1);
                    match body {
                        Err(error) => (Err(error), cache2),
                        Ok(content) => (
                            Ok(BookItemView::Chapter(ChapterView { content, sub_items })),
                            cache2,
                        ),
                    }
                },
            }
        },
        other => (Ok(other), cache),
    }
}

/// What the walk makes of the first `n` items of a list, and the cache after them. The
/// first item that fails ends the walk with its error.
pub open spec fn walked_items(
    items: Seq<BookItemView>,
    config: ConfigView,
    cache: RenderCacheView,
    n: nat,
) -> (Result<Seq<BookItemView>, ErrorView>, RenderCacheView)
    decreases items, n,
{
    if n == 0 || n > items.len() {
        (Ok(Seq::empty()), cache)
    } else {
        let (earlier, before) = walked_items(items, config, cache, (n - 1) as nat);
        match earlier {
            Err(error) => (Err(error), before),
            Ok(done) => {
                let (made, after) = walked_item(items[n - 1], config, before);
                match made {
                    Err(error) => (Err(error), after),
                    Ok(item) => (Ok(done.push(item)), after),
                }
            },
        }
    }
}

/// A failure among the first items is the outcome of the whole list.
pub proof fn lemma_walked_error(
    items: Seq<BookItemView>,
    config: ConfigView,
    cache: RenderCacheView,
    n: nat,
    m: nat,
)
    requires
        n <= m <= items.len(),
        walked_items(items, config, cache, n).0 is Err,
    ensures
        walked_items(items, config, cache, m) == walked_items(items, config, cache, n),
    decreases m,
{
    if n < m {
        lemma_walked_error(items, config, cache, n, (m - 1) as nat);
    }
}

/// A result with its item and its error as values of the model.
pub open spec fn item_result(result: Result<BookItem, Error>) -> Result<BookItemView, ErrorView> {
    match result {
        Ok(item) => Ok(item_view(item)),
        Err(error) => Err(error@),
    }
}

/// A result with its items and its error as values of the model.
pub open spec fn items_result(result: Result<Vec<BookItem>, Error>) -> Result<
    Seq<BookItemView>,
    ErrorView,
> {
    match result {
        Ok(items) => Ok(items_view(items@)),
        Err(error) => Err(error@),
    }
}

/// The items below a chapter are walked before the body of the chapter is rewritten: of a
/// chapter with one item below it, the item is walked with the cache as it was, and the
/// body of the chapter is rewritten with the cache as the item's walk left it.
pub proof fn lemma_below_first(
    content: Seq<char>,
    below: BookItemView,
    config: ConfigView,
    cache: RenderCacheView,
)
    ensures
        walked_item(
            BookItemView::Chapter(ChapterView { content, sub_items: seq![below] }),
            config,
            cache,
        ) == match walked_item(below, config, cache) {
            (Err(error), after) => (Err::<BookItemView, ErrorView>(error), after),
            (Ok(walked), after) => match processed(content, config, after) {
                (Err(error), last) => (Err(error), last),
                (Ok(body), last) => (
                    Ok(
                        BookItemView::Chapter(
                            ChapterView { content: body, sub_items: seq![walked] },
                        ),
                    ),
                    last,
                ),
            },
        },
{
    let items = seq![below];
    assert(walked_items(items, config, cache, 0) == (
        Ok::<Seq<BookItemView>, ErrorView>(Seq::empty()),
        cache,
    ));
    assert(items[0] == below);
    let (made, after) = walked_item(below, config, cache);
    match made {
        Ok(walked) => {
            assert(Seq::<BookItemView>::empty().push(walked) =~= seq![walked]);
            assert(walked_items(items, config, cache, 1) == (
                Ok::<Seq<BookItemView>, ErrorView>(seq![walked]),
                after,
            ));
        },
        Err(error) => {
            assert(walked_items(items, config, cache, 1) == (
                Err::<Seq<BookItemView>, ErrorView>(error),
                after,
            ));
        },
    }
}

/// Walking an item takes nothing from the cache: the jobs that were asked for before stay,
/// in their order, and no job is asked for twice.
pub proof fn lemma_walked_item_grows(item: BookItemView, config: ConfigView, cache: RenderCacheView)
    ensures
        grown(cache, walked_item(item, config, cache).1),
    decreases item, 0nat,
{
    if let BookItemView::Chapter(chapter) = item {
        let (below, cache1) = walked_items(
            chapter.sub_items,
            config,
            cache,
            chapter.sub_items.len(),
        );
        lemma_walked_items_grow(chapter.sub_items, config, cache, chapter.sub_items.len());
        if below is Ok {
            lemma_processed_grows(chapter.content, config, cache1);
            lemma_grown_chain(cache, cache1, processed(chapter.content, config, cache1).1);
        }
    }
}

/// Walking the first items of a list takes nothing from the cache.
pub proof fn lemma_walked_items_grow(
    items: Seq<BookItemView>,
    config: ConfigView,
    cache: RenderCacheView,
    n: nat,
)
    ensures
        grown(cache, walked_items(items, config, cache, n).1),
    decreases items, n,
{
    if n > 0 && n <= items.len() {
        lemma_walked_items_grow(items, config, cache, (n - 1) as nat);
        let (earlier, before) = walked_items(items, config, cache, (n - 1) as nat);
        if earlier is Ok {
            lemma_walked_item_grows(items[n - 1], config, before);
            lemma_grown_chain(cache, before, walked_item(items[n - 1], config, before).1);
        }
    }
}

/// Walking an item over a cache that holds every key that the walk leaves in another
/// cache gives the same item and asks nothing of the cache.
pub proof fn lemma_walked_item_cached(
    item: BookItemView,
    config: ConfigView,
    cache: RenderCacheView,
    held: RenderCacheView,
)
    requires
        holds_all(held, walked_item(item, config, cache).1.keys),
    ensures
        walked_item(item, config, held) == (walked_item(item, config, cache).0, held),
    decreases item, 0nat,
{
    if let BookItemView::Chapter(chapter) = item {
        let (below, cache1) = walked_items(
            chapter.sub_items,
            config,
            cache,
            chapter.sub_items.len(),
        );
        if below is Ok {
            lemma_processed_grows(chapter.content, config, cache1);
            lemma_holds_earlier(held, cache1, processed(chapter.content, config, cache1).1);
            lemma_processed_cached(chapter.content, config, cache1, held);
        }
        lemma_walked_items_cached(
            chapter.sub_items,
            config,
            cache,
            held,
            chapter.sub_items.len(),
        );
    }
}

/// Walking the first items of a list over a cache that holds every key that the walk
/// leaves in another cache gives the same items and asks nothing of the cache.
pub proof fn lemma_walked_items_cached(
    items: Seq<BookItemView>,
    config: ConfigView,
    cache: RenderCacheView,
    held: RenderCacheView,
    n: nat,
)
    requires
        holds_all(held, walked_items(items, config, cache, n).1.keys),
    ensures
        walked_items(items, config, held, n) == (walked_items(items, config, cache, n).0, held),
    decreases items, n,
{
    if n > 0 && n <= items.len() {
        let (earlier, before) = walked_items(items, config, cache, (n - 1) as nat);
        if earlier is Ok {
            lemma_walked_item_grows(items[n - 1], config, before);
            lemma_holds_earlier(held, before, walked_item(items[n - 1], config, before).1);
            lemma_walked_item_cached(items[n - 1], config, before, held);
        }
        lemma_walked_items_cached(items, config, cache, held, (n - 1) as nat);
    }
}

} // verus!
