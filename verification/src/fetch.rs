//! The page fetcher: which addresses are fetched at all, and what is kept of
//! a page that came back.
//!
//! The transfer itself is the caller's part: it reports what happened as a
//! [`Transfer`], and [`fetch_result`] says what the fetch yields.

use vstd::prelude::*;
use crate::encoding::{parses_as_url, url_parses};
use crate::html::{select, selected, selection_views, Selection, SelectionView};
use crate::text::{
    collapse_whitespace, collapsed, copy_texts, join, joined, lemma_trimmed_len, prefix, rows,
    rows_of, take_chars, text_of, texts, trim, trimmed,
};
use crate::transfer::Transfer;

verus! {

/// The most characters that are kept of one page.
pub const MAX_CONTENT_LENGTH: usize = 20000;

/// For how many seconds a page is waited for.
pub const FETCH_TIMEOUT_SECS: u64 = 10;

/// For how many seconds the taking apart of a page is waited for.
pub const PARSE_TIMEOUT_SECS: u64 = 5;

/// Selects the elements whose text is content.
pub const CONTENT_SELECTOR: &'static str =
    "p, h1, h2, h3, h4, h5, h6, article, section, main, div > text";

/// Selects the elements that hold no content; an element above one of them
/// is left out.
pub const EXCLUDED_SELECTOR: &'static str = "script, style, meta, link, noscript, iframe, svg";

/// One content-bearing element of a page: whether an element that is to be
/// left out stands under it, and its text nodes in order.
#[derive(Debug, PartialEq, Eq)]
pub struct Fragment {
    pub excluded: bool,
    pub pieces: Vec<String>,
}

/// A fragment as specifications see it.
pub struct FragmentView {
    pub excluded: bool,
    pub pieces: Seq<Seq<char>>,
}

impl View for Fragment {
    type V = FragmentView;

    open spec fn view(&self) -> FragmentView {
        FragmentView { excluded: self.excluded, pieces: texts(self.pieces@) }
    }
}

/// The views of a sequence of fragments.
pub open spec fn fragment_views(v: Seq<Fragment>) -> Seq<FragmentView> {
    v.map_values(|f: Fragment| f@)
}

/// Why one source yielded no content.
#[derive(Clone, Copy, Debug, PartialEq, Eq, Structural)]
pub enum FetchError {
    /// The address is no URL: nothing was requested.
    InvalidUrl,
    /// The transfer failed.
    FetchFailed,
    /// The transfer took longer than was allowed.
    FetchTimeout,
    /// The page could not be taken apart.
    ParseFailed,
}

/// The text of one fragment: empty where it is left out, else its text nodes
/// joined by spaces, with each run of white space collapsed into one space.
pub open spec fn fragment_text(f: FragmentView) -> Seq<char> {
    if f.excluded {
        Seq::empty()
    } else {
        collapsed(joined(f.pieces, seq![' ']))
    }
}

/// The texts of the fragments that have one, in order.
pub open spec fn kept_texts(fragments: Seq<FragmentView>) -> Seq<Seq<char>>
    decreases fragments.len(),
{
    if fragments.len() == 0 {
        Seq::empty()
    } else if fragment_text(fragments.last()).len() > 0 {
        kept_texts(fragments.drop_last()).push(fragment_text(fragments.last()))
    } else {
        kept_texts(fragments.drop_last())
    }
}

/// The content of a page: the texts of its fragments, one per line, cut to
/// `MAX_CONTENT_LENGTH` characters and then trimmed.
pub open spec fn cleaned_text(fragments: Seq<FragmentView>) -> Seq<char> {
    trimmed(prefix(joined(kept_texts(fragments), seq!['\n']), MAX_CONTENT_LENGTH as nat))
}

/// The fragment that a selection stands for, the elements to leave out
/// having been asked for inside it.
pub open spec fn fragment_of(selection: SelectionView) -> FragmentView {
    FragmentView {
        excluded: selection.found.len() > 0 && selection.found[0] is Some,
        pieces: selection.text,
    }
}

/// The fragments that some selections stand for.
pub open spec fn fragments_of(selections: Seq<SelectionView>) -> Seq<FragmentView> {
    selections.map_values(|s: SelectionView| fragment_of(s))
}

/// What the fetch of a page with text `html` yields.
pub open spec fn page_content(html: Seq<char>) -> Result<Seq<char>, FetchError> {
    match selected(html, CONTENT_SELECTOR@, seq![EXCLUDED_SELECTOR@]) {
        Some(selections) => Ok(cleaned_text(fragments_of(selections))),
        None => Err(FetchError::ParseFailed),
    }
}

/// The view of the result of a fetch.
pub open spec fn content_view(r: Result<String, FetchError>) -> Result<Seq<char>, FetchError> {
    match r {
        Ok(s) => Ok(s@),
        Err(e) => Err(e),
    }
}

/// The content of a page never exceeds the limit.
pub proof fn lemma_cleaned_text_len(fragments: Seq<FragmentView>)
    ensures
        cleaned_text(fragments).len() <= MAX_CONTENT_LENGTH,
{
    lemma_trimmed_len(prefix(joined(kept_texts(fragments), seq!['\n']), MAX_CONTENT_LENGTH as nat));
}

/// Refuses an address that is no URL, before anything is requested.
pub fn check_url(url: &str) -> (r: Result<(), FetchError>)
    ensures
        url_parses(url@) ==> r == Ok::<(), FetchError>(()),
        !url_parses(url@) ==> r == Err::<(), FetchError>(FetchError::InvalidUrl),
{
    if parses_as_url(url) {
        Ok(())
    } else {
        Err(FetchError::InvalidUrl)
    }
}

/// The text of one fragment.
pub fn text_of_fragment(f: &Fragment) -> (r: Vec<char>)
    ensures
        r@ == fragment_text(f@),
{
    if f.excluded {
        Vec::new()
    } else {
        let pieces = rows_of(&f.pieces);
        let mut space: Vec<char> = Vec::new();
        space.push(' ');
        proof {
            assert(space@ == seq![' ']);
        }
        let whole = join(&pieces, &space);
        collapse_whitespace(&whole)
    }
}

/// The content of a page from its fragments.
pub fn clean_fragments(fragments: &Vec<Fragment>) -> (r: String)
    ensures
        r@ == cleaned_text(fragment_views(fragments@)),
        r@.len() <= MAX_CONTENT_LENGTH,
{
    let mut kept: Vec<Vec<char>> = Vec::new();
    let mut i: usize = 0;
    while i < fragments.len()
        invariant
            i <= fragments.len(),
            rows(kept@) == kept_texts(fragment_views(fragments@).take(i as int)),
        decreases fragments.len() - i,
    {
        proof {
            let next = fragment_views(fragments@).take(i + 1);
            assert(next.drop_last() == fragment_views(fragments@).take(i as int));
            assert(next.last() == fragments@[i as int]@);
        }
        let text = text_of_fragment(&fragments[i]);
        if text.len() > 0 {
            let ghost before = rows(kept@);
            let ghost view = text@;
            kept.push(text);
            proof {
                assert(rows(kept@) == before.push(view));
            }
        }
        i += 1;
    }
    proof {
        assert(fragment_views(fragments@).take(i as int) == fragment_views(fragments@));
        lemma_cleaned_text_len(fragment_views(fragments@));
    }
    let mut newline: Vec<char> = Vec::new();
    newline.push('\n');
    proof {
        assert(newline@ == seq!['\n']);
    }
    let whole = join(&kept, &newline);
    let cut = take_chars(&whole, MAX_CONTENT_LENGTH);
    text_of(&trim(&cut))
}

/// The fragments that the selections `selections` stand for.
pub fn fragments_from_selections(selections: &Vec<Selection>) -> (r: Vec<Fragment>)
    ensures
        fragment_views(r@) == fragments_of(selection_views(selections@)),
{
    let mut out: Vec<Fragment> = Vec::new();
    let mut i: usize = 0;
    while i < selections.len()
        invariant
            i <= selections.len(),
            fragment_views(out@) == fragments_of(selection_views(selections@)).take(i as int),
        decreases selections.len() - i,
    {
        let ghost before = fragment_views(out@);
        let selection = &selections[i];
        let excluded = selection.found.len() > 0 && selection.found[0].is_some();
        let fragment = Fragment { excluded, pieces: copy_texts(&selection.text) };
        proof {
            assert(fragment@ == fragment_of(selection@));
        }
        out.push(fragment);
        proof {
            assert(fragment_views(out@) == before.push(fragment_of(selections@[i as int]@)));
        }
        i += 1;
    }
    proof {
        let all = fragments_of(selection_views(selections@));
        assert(all.take(i as int) == all);
    }
    out
}

/// The content of the page `html`: at most `MAX_CONTENT_LENGTH` characters.
pub fn extract_content(html: &str) -> (r: Result<String, FetchError>)
    ensures
        content_view(r) == page_content(html@),
        r matches Ok(s) ==> s@.len() <= MAX_CONTENT_LENGTH,
{
    let mut inner: Vec<String> = Vec::new();
    inner.push(EXCLUDED_SELECTOR.to_owned());
    proof {
        assert(texts(inner@) == seq![EXCLUDED_SELECTOR@]);
    }
    match select(html, CONTENT_SELECTOR, &inner) {
        Some(selections) => Ok(clean_fragments(&fragments_from_selections(&selections))),
        None => Err(FetchError::ParseFailed),
    }
}

/// What a fetch yields, given what became of the request: the content of the
/// page that arrived, of at most `MAX_CONTENT_LENGTH` characters, or the
/// error that says why there is none.
pub fn fetch_result(transfer: &Transfer) -> (r: Result<String, FetchError>)
    ensures
        content_view(r) == match *transfer {
            Transfer::Body(html) => page_content(html@),
            Transfer::TimedOut => Err(FetchError::FetchTimeout),
            Transfer::Failed => Err(FetchError::FetchFailed),
        },
        r matches Ok(s) ==> s@.len() <= MAX_CONTENT_LENGTH,
{
    match transfer {
        Transfer::Body(html) => extract_content(html.as_str()),
        Transfer::TimedOut => Err(FetchError::FetchTimeout),
        Transfer::Failed => Err(FetchError::FetchFailed),
    }
}

} // verus!
