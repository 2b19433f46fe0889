//! Searching a text for the matches of a regular expression, and putting other text in
//! their place.

use vstd::prelude::*;
use vstd::string::StringExecFns;
use vstd::utf8::*;
use crate::text::{byte_len, byte_slice, is_byte_range, lemma_whole_range, slice};

verus! {

/// The byte range that one group of a match covers: its first byte and the byte after its
/// last.
pub type Span = (usize, usize);

/// One match: the span of each capture group that took part in it, by the group's number.
/// Group 0 is the whole match.
pub type Capture = Vec<Option<Span>>;

/// The regular expression of the regex engine, compiled.
#[verifier::external_type_specification]
#[verifier::external_body]
pub struct ExRegex(regex::Regex);

/// Whether the regex engine accepts `pattern`.
pub uninterp spec fn regex_accepts(pattern: Seq<char>) -> bool;

/// What the regex engine finds in `text` for a `pattern` that it accepts: its successive
/// matches, each with the spans of its groups.
pub uninterp spec fn regex_captures(pattern: Seq<char>, text: Seq<char>) -> Seq<
    Seq<Option<Span>>,
>;

/// What is found in `text` for `pattern`: nothing at all where the regex engine refuses
/// the pattern, else the matches.
pub open spec fn found_for(pattern: Seq<char>, text: Seq<char>) -> Option<Seq<Seq<Option<Span>>>> {
    if regex_accepts(pattern) {
        Some(regex_captures(pattern, text))
    } else {
        None
    }
}

/// The span of the whole match.
pub open spec fn whole(capture: Seq<Option<Span>>) -> Span {
    capture[0]->0
}

/// A match lies in `text`: it has its group 0, and every group that took part covers a byte
/// range of the text.
pub open spec fn capture_fits(text: Seq<char>, capture: Seq<Option<Span>>) -> bool {
    &&& capture.len() > 0
    &&& capture[0] is Some
    &&& forall|g: int|
        0 <= g < capture.len() ==> (#[trigger] capture[g] matches Some(span) ==> is_byte_range(
            text,
            span.0 as int,
            span.1 as int,
        ))
}

/// The matches lie in `text`, one after the other.
pub open spec fn captures_fit(text: Seq<char>, found: Seq<Seq<Option<Span>>>) -> bool {
    &&& forall|i: int| 0 <= i < found.len() ==> capture_fits(text, #[trigger] found[i])
    &&& forall|i: int|
        0 <= i < found.len() - 1 ==> whole(#[trigger] found[i]).1 <= whole(found[i + 1]).0
}

/// A pattern that the regex engine has compiled, with the text that it was compiled from.
pub struct Matcher {
    source: String,
    regex: regex::Regex,
}

/// Whether `made` is what compiling `pattern` gives: a matcher of that pattern where the
/// regex engine accepts it, else none.
pub open spec fn compiled_from(made: Option<Matcher>, pattern: Seq<char>) -> bool {
    match made {
        Some(matcher) => regex_accepts(pattern) && matcher.source() == pattern,
        None => !regex_accepts(pattern),
    }
}

impl Matcher {
    /// The pattern that the matcher was compiled from.
    pub closed spec fn source(&self) -> Seq<char> {
        self.source@
    }

    /// `regex::Regex::new`. Trusted: a pattern that the engine accepts gives a matcher
    /// that holds the pattern beside its compiled form; one that it refuses gives none.
    #[verifier::external_body]
    pub(crate) fn compile(pattern: &str) -> (made: Option<Matcher>)
        ensures
            made is Some <==> regex_accepts(pattern@),
            made matches Some(matcher) ==> matcher.source() == pattern@,
    {
        regex::Regex::new(pattern).ok().map(|regex| Matcher { source: pattern.to_owned(), regex })
    }

    /// `Regex::captures_iter`, with the offsets of the groups of each match. Trusted: the
    /// result is what the engine finds in `text` for the pattern of the matcher (a matcher
    /// is made by `compile` alone, so its compiled form is that of its pattern); every
    /// match has its group 0; the offsets of a group are byte offsets into `text` that fall
    /// between characters, start before end; and the matches come in the order of their
    /// place in the text, without overlap.
    #[verifier::external_body]
    pub(crate) fn captures(&self, text: &str) -> (found: Vec<Capture>)
        ensures
            found.deep_view() == regex_captures(self.source(), text@),
            captures_fit(text@, found.deep_view()),
    {
        self.regex.captures_iter(text).map(
            |caps| caps.iter().map(|group| group.map(|m| (m.start(), m.end()))).collect(),
        ).collect()
    }
}

/// Where the text before match `n` starts: the end of the match before it.
pub open spec fn gap_start(found: Seq<Seq<Option<Span>>>, n: int) -> int {
    if n == 0 {
        0
    } else {
        whole(found[n - 1]).1 as int
    }
}

/// The output up to the end of the first `n` matches: the text between the matches as it
/// stands, and `inserts[i]` in the place of match `i`.
pub open spec fn spliced_prefix(
    text: Seq<char>,
    found: Seq<Seq<Option<Span>>>,
    inserts: Seq<Seq<char>>,
    n: nat,
) -> Seq<char>
    decreases n,
{
    if n == 0 {
        Seq::empty()
    } else {
        spliced_prefix(text, found, inserts, (n - 1) as nat) + byte_slice(
            text,
            gap_start(found, n - 1),
            whole(found[n - 1]).0 as int,
        ) + inserts[n - 1]
    }
}

/// `text` with `inserts[i]` in the place of match `i`, for every match.
pub open spec fn spliced(
    text: Seq<char>,
    found: Seq<Seq<Option<Span>>>,
    inserts: Seq<Seq<char>>,
) -> Seq<char> {
    spliced_prefix(text, found, inserts, found.len()) + byte_slice(
        text,
        gap_start(found, found.len() as int),
        encode_utf8(text).len() as int,
    )
}

/// A text in which nothing was found stays as it is.
pub proof fn lemma_spliced_nothing(text: Seq<char>)
    ensures
        spliced(text, Seq::empty(), Seq::empty()) == text,
{
    lemma_whole_range(text);
}

/// Replaces each match in `text` by the insert that stands at its index.
pub fn splice(text: &str, found: &Vec<Capture>, inserts: &Vec<String>) -> (out: String)
    requires
        captures_fit(text@, found.deep_view()),
        inserts.len() == found.len(),
    ensures
        out@ == spliced(text@, found.deep_view(), inserts.deep_view()),
{
    let ghost marks = found.deep_view();
    let mut out = String::new();
    let mut from: usize = 0;
    let mut i: usize = 0;
    proof {
        lemma_whole_range(text@);
    }
    while i < found.len()
        invariant
            i <= found.len(),
            marks == found.deep_view(),
            captures_fit(text@, marks),
            inserts.len() == found.len(),
            from == gap_start(marks, i as int),
            is_byte_range(text@, from as int, from as int),
            out@ == spliced_prefix(text@, marks, inserts.deep_view(), i as nat),
        decreases found.len() - i,
    {
        let capture = &found[i];
        let span = match capture[0] {
            Some(span) => span,
            None => (from, from),
        };
        proof {
            assert(capture.deep_view() == marks[i as int]);
            assert(capture[0].deep_view() == marks[i as int][0]);
            assert(capture_fits(text@, marks[i as int]));
            if i > 0 {
                assert(whole(marks[i - 1]).1 <= whole(marks[i - 1 + 1]).0);
            }
            assert(inserts.deep_view()[i as int] == inserts[i as int]@);
        }
        out.append(slice(text, from, span.0));
        out.append(inserts[i].as_str());
        from = span.1;
        i = i + 1;
    }
    proof {
        lemma_whole_range(text@);
    }
    out.append(slice(text, from, byte_len(text)));
    out
}

} // verus!
