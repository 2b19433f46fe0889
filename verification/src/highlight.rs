//! Syntax highlighting of Typst source, as HTML.

use vstd::prelude::*;

verus! {

/// How the content of a block is read: as markup, or as code.
#[derive(Debug, Clone, Copy, PartialEq, Eq)]
pub enum Mode {
    Markup,
    Code,
}

/// The HTML that the Typst highlighter gives for `source` read as markup.
pub uninterp spec fn highlighted_markup(source: Seq<char>) -> Seq<char>;

/// The HTML that the Typst highlighter gives for `source` read as code.
pub uninterp spec fn highlighted_code(source: Seq<char>) -> Seq<char>;

/// `typst_syntax::parse`, then `typst_syntax::highlight_html` on the tree. Trusted: the
/// result is the highlighter's HTML for this source as markup.
#[verifier::external_body]
fn highlight_markup(source: &str) -> (html: String)
    ensures
        html@ == highlighted_markup(source@),
{
    typst_syntax::highlight_html(&typst_syntax::parse(source))
}

/// `typst_syntax::parse_code`, then `typst_syntax::highlight_html` on the tree. Trusted: the
/// result is the highlighter's HTML for this source as code.
#[verifier::external_body]
fn highlight_code(source: &str) -> (html: String)
    ensures
        html@ == highlighted_code(source@),
{
    typst_syntax::highlight_html(&typst_syntax::parse_code(source))
}

/// The highlighted HTML for `source` in the given mode.
pub open spec fn highlighted(mode: Mode, source: Seq<char>) -> Seq<char> {
    match mode {
        Mode::Markup => highlighted_markup(source),
        Mode::Code => highlighted_code(source),
    }
}

/// Highlights `source`, read in the given mode, as an HTML `code` element.
pub fn highlight(mode: Mode, source: &str) -> (html: String)
    ensures
        html@ == highlighted(mode, source@),
{
    match mode {
        Mode::Markup => highlight_markup(source),
        Mode::Code => highlight_code(source),
    }
}

} // verus!
