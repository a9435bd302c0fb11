//! The search client: the request for a query, and the candidates read out of
//! the result page.
//!
//! Sending the request is the caller's part. This module builds the address
//! to ask and turns the page that came back into candidates, in the order in
//! which the page listed them.

use vstd::prelude::*;
use crate::encoding::{
    decode_component, encode_component, percent_decoded, percent_encoded_text, SafeSet,
};
use crate::html::{select, selected, selection_views, Selection, SelectionView};
use crate::text::{
    append, chars_of, contains_text, find, first_index, has_prefix, is_space, join, joined,
    lemma_without_spaces_has_none, occurs_at, remove_whitespace, rows_of, slice, starts_with,
    text_of, text_view, texts, without_spaces,
};
use crate::transfer::Transfer;

verus! {

/// The result page of the search engine, up to the encoded query.
pub const SEARCH_ENDPOINT: &'static str = "https://html.duckduckgo.com/html/?q=";

/// For how many seconds the search engine is waited for.
pub const SEARCH_TIMEOUT_SECS: u64 = 10;

/// Selects the result blocks of a result page.
pub const RESULT_SELECTOR: &'static str = ".result__extras";

/// Selects, under a result block, the element that holds the link.
pub const LINK_SELECTOR: &'static str = ".result__url";

/// Selects, under a result block, the element that holds the snippet.
pub const SNIPPET_SELECTOR: &'static str = ".result__snippet";

/// The parameter of a redirect link behind which the destination stands.
pub const REDIRECT_PARAMETER: &'static str = "uddg=";

/// The parameter of a redirect link that follows the destination.
pub const REDIRECT_TRAILER: &'static str = "&rut=";

/// The scheme that every candidate is given.
pub const SCHEME: &'static str = "https://";

/// The scheme without transport security, taken off like `SCHEME`.
pub const PLAIN_SCHEME: &'static str = "http://";

/// One result block of a result page: the text of the element that holds
/// the link, and of the one that holds the snippet, where the block has them.
#[derive(Debug, PartialEq, Eq)]
pub struct ResultBlock {
    pub link: Option<String>,
    pub snippet: Option<String>,
}

/// A result block as specifications see it.
pub struct ResultBlockView {
    pub link: Option<Seq<char>>,
    pub snippet: Option<Seq<char>>,
}

impl View for ResultBlock {
    type V = ResultBlockView;

    open spec fn view(&self) -> ResultBlockView {
        ResultBlockView { link: text_view(self.link), snippet: text_view(self.snippet) }
    }
}

/// The views of a sequence of result blocks.
pub open spec fn block_views(v: Seq<ResultBlock>) -> Seq<ResultBlockView> {
    v.map_values(|b: ResultBlock| b@)
}

/// A source that the search engine proposed: not fetched yet.
#[derive(Debug, PartialEq, Eq)]
pub struct SearchCandidate {
    pub url: String,
    pub snippet: String,
}

/// A candidate as specifications see it.
pub struct SearchCandidateView {
    pub url: Seq<char>,
    pub snippet: Seq<char>,
}

impl View for SearchCandidate {
    type V = SearchCandidateView;

    open spec fn view(&self) -> SearchCandidateView {
        SearchCandidateView { url: self.url@, snippet: self.snippet@ }
    }
}

impl Clone for SearchCandidate {
    fn clone(&self) -> (r: Self)
        ensures
            r@ == self@,
    {
        SearchCandidate { url: self.url.clone(), snippet: self.snippet.clone() }
    }
}

/// Why a search gave no candidates at all.
#[derive(Clone, Copy, Debug, PartialEq, Eq, Structural)]
pub enum SearchError {
    /// The request for the result page failed or ran out of time.
    SearchUnavailable,
}

/// The views of a sequence of candidates.
pub open spec fn candidate_views(v: Seq<SearchCandidate>) -> Seq<SearchCandidateView> {
    v.map_values(|c: SearchCandidate| c@)
}

/// The address of the result page for `query`.
pub open spec fn search_address(query: Seq<char>) -> Seq<char> {
    SEARCH_ENDPOINT@ + percent_encoded_text(query, SafeSet::Unreserved)
}

/// What stands behind the redirect parameter of `raw`, up to the trailer if
/// there is one.
pub open spec fn redirect_target(raw: Seq<char>) -> Seq<char> {
    let rest = raw.skip(first_index(raw, REDIRECT_PARAMETER@) + REDIRECT_PARAMETER@.len());
    if contains_text(rest, REDIRECT_TRAILER@) {
        rest.take(first_index(rest, REDIRECT_TRAILER@))
    } else {
        rest
    }
}

/// The destination that the link text `raw` holds: behind a redirect
/// parameter the percent-decoded target (the target as it stands where its
/// decoding is not UTF-8), else `raw` itself.
pub open spec fn embedded_destination(raw: Seq<char>) -> Seq<char> {
    if contains_text(raw, REDIRECT_PARAMETER@) {
        match percent_decoded(redirect_target(raw)) {
            Some(decoded) => decoded,
            None => redirect_target(raw),
        }
    } else {
        raw
    }
}

/// `s` without a leading scheme, secure or plain.
pub open spec fn without_scheme(s: Seq<char>) -> Seq<char> {
    if has_prefix(s, SCHEME@) {
        s.skip(SCHEME@.len() as int)
    } else if has_prefix(s, PLAIN_SCHEME@) {
        s.skip(PLAIN_SCHEME@.len() as int)
    } else {
        s
    }
}

/// The destination of `raw` with all white space and its scheme taken off.
pub open spec fn bare_destination(raw: Seq<char>) -> Seq<char> {
    without_scheme(without_spaces(embedded_destination(raw)))
}

/// The URL of the candidate that the link text `raw` stands for, or `None`
/// where no destination is left.
pub open spec fn candidate_url(raw: Seq<char>) -> Option<Seq<char>> {
    if bare_destination(raw).len() == 0 {
        None
    } else {
        Some(SCHEME@ + bare_destination(raw))
    }
}

/// The candidate that a result block stands for. A block without a link
/// element, or whose link holds no destination, stands for none. A block
/// without a snippet element has the empty snippet.
pub open spec fn candidate_of(block: ResultBlockView) -> Option<SearchCandidateView> {
    match block.link {
        Some(raw) => match candidate_url(raw) {
            Some(url) => Some(
                SearchCandidateView {
                    url,
                    snippet: match block.snippet {
                        Some(s) => s,
                        None => Seq::empty(),
                    },
                },
            ),
            None => None,
        },
        None => None,
    }
}

/// The candidates of a listing: those of its blocks that stand for one, in
/// the order of the blocks.
pub open spec fn candidates_of(blocks: Seq<ResultBlockView>) -> Seq<SearchCandidateView>
    decreases blocks.len(),
{
    if blocks.len() == 0 {
        Seq::empty()
    } else {
        match candidate_of(blocks.last()) {
            Some(c) => candidates_of(blocks.drop_last()).push(c),
            None => candidates_of(blocks.drop_last()),
        }
    }
}

/// The text of what was found for the selector number `i`: its text nodes
/// one after another.
pub open spec fn found_text(selection: SelectionView, i: int) -> Option<Seq<char>> {
    if 0 <= i < selection.found.len() {
        match selection.found[i] {
            Some(nodes) => Some(joined(nodes, Seq::empty())),
            None => None,
        }
    } else {
        None
    }
}

/// The result block that a selection stands for, the link having been asked
/// for first and the snippet second.
pub open spec fn block_of(selection: SelectionView) -> ResultBlockView {
    ResultBlockView { link: found_text(selection, 0), snippet: found_text(selection, 1) }
}

/// The result blocks that some selections stand for.
pub open spec fn blocks_of(selections: Seq<SelectionView>) -> Seq<ResultBlockView> {
    selections.map_values(|s: SelectionView| block_of(s))
}

/// The candidates of the result page `html`: none where the page cannot be
/// read.
pub open spec fn page_candidates(html: Seq<char>) -> Seq<SearchCandidateView> {
    match selected(html, RESULT_SELECTOR@, seq![LINK_SELECTOR@, SNIPPET_SELECTOR@]) {
        Some(selections) => candidates_of(blocks_of(selections)),
        None => Seq::empty(),
    }
}

/// The position in `blocks` of the block that candidate `i` came from.
pub open spec fn source_block(blocks: Seq<ResultBlockView>, i: int) -> int
    decreases blocks.len(),
{
    if blocks.len() == 0 {
        0
    } else if candidate_of(blocks.last()) is Some && i == candidates_of(blocks.drop_last()).len() {
        blocks.len() - 1
    } else {
        source_block(blocks.drop_last(), i)
    }
}

/// The address to ask for the result page of `query`.
pub fn search_url(query: &str) -> (r: String)
    ensures
        r@ == search_address(query@),
{
    let mut out = chars_of(SEARCH_ENDPOINT);
    let encoded = encode_component(query);
    append(&mut out, &chars_of(encoded.as_str()));
    text_of(&out)
}

/// Takes a leading scheme off `v`.
pub fn strip_scheme(v: &Vec<char>) -> (r: Vec<char>)
    ensures
        r@ == without_scheme(v@),
{
    let secure = chars_of(SCHEME);
    let plain = chars_of(PLAIN_SCHEME);
    if starts_with(v, &secure) {
        slice(v, secure.len(), v.len())
    } else if starts_with(v, &plain) {
        slice(v, plain.len(), v.len())
    } else {
        slice(v, 0, v.len())
    }
}

/// The URL of the candidate that the link text `raw` stands for.
pub fn resolve_link(raw: &str) -> (r: Option<String>)
    ensures
        text_view(r) == candidate_url(raw@),
{
    let chars = chars_of(raw);
    let parameter = chars_of(REDIRECT_PARAMETER);
    let inner: Vec<char> = match find(&chars, &parameter) {
        Some(at) => {
            proof {
                assert(occurs_at(chars@, parameter@, at as int));
                assert(at + parameter.len() <= chars.len());
            }
            let rest = slice(&chars, at + parameter.len(), chars.len());
            let trailer = chars_of(REDIRECT_TRAILER);
            let target = match find(&rest, &trailer) {
                Some(end) => {
                    proof {
                        assert(occurs_at(rest@, trailer@, end as int));
                    }
                    slice(&rest, 0, end)
                },
                None => rest,
            };
            let as_text = text_of(&target);
            match decode_component(as_text.as_str()) {
                Some(decoded) => chars_of(decoded.as_str()),
                None => target,
            }
        },
        None => chars,
    };
    let cleaned = remove_whitespace(&inner);
    let bare = strip_scheme(&cleaned);
    if bare.len() == 0 {
        None
    } else {
        let mut out = chars_of(SCHEME);
        append(&mut out, &bare);
        Some(text_of(&out))
    }
}

/// The candidate that `block` stands for.
pub fn candidate_from_block(block: &ResultBlock) -> (r: Option<SearchCandidate>)
    ensures
        match r {
            Some(c) => candidate_of(block@) == Some(c@),
            None => candidate_of(block@) is None,
        },
{
    match &block.link {
        Some(raw) => match resolve_link(raw.as_str()) {
            Some(url) => {
                let snippet = match &block.snippet {
                    Some(s) => s.clone(),
                    None => String::new(),
                };
                Some(SearchCandidate { url, snippet })
            },
            None => None,
        },
        None => None,
    }
}

/// The candidates of a listing, in the order of its blocks.
pub fn candidates_from_blocks(blocks: &Vec<ResultBlock>) -> (r: Vec<SearchCandidate>)
    ensures
        candidate_views(r@) == candidates_of(block_views(blocks@)),
{
    let mut out: Vec<SearchCandidate> = Vec::new();
    let mut i: usize = 0;
    while i < blocks.len()
        invariant
            i <= blocks.len(),
            candidate_views(out@) == candidates_of(block_views(blocks@).take(i as int)),
        decreases blocks.len() - i,
    {
        proof {
            let next = block_views(blocks@).take(i + 1);
            assert(next.drop_last() == block_views(blocks@).take(i as int));
            assert(next.last() == blocks@[i as int]@);
        }
        match candidate_from_block(&blocks[i]) {
            Some(c) => {
                let ghost before = candidate_views(out@);
                let ghost view = c@;
                out.push(c);
                proof {
                    assert(candidate_views(out@) == before.push(view));
                }
            },
            None => {},
        }
        i += 1;
    }
    proof {
        assert(block_views(blocks@).take(i as int) == block_views(blocks@));
    }
    out
}

/// The text of what was found for the selector number `i`.
pub fn text_found(selection: &Selection, i: usize) -> (r: Option<String>)
    ensures
        text_view(r) == found_text(selection@, i as int),
{
    if i < selection.found.len() {
        match &selection.found[i] {
            Some(nodes) => {
                let empty: Vec<char> = Vec::new();
                Some(text_of(&join(&rows_of(nodes), &empty)))
            },
            None => None,
        }
    } else {
        None
    }
}

/// The result blocks that the selections `selections` stand for.
pub fn blocks_from_selections(selections: &Vec<Selection>) -> (r: Vec<ResultBlock>)
    ensures
        block_views(r@) == blocks_of(selection_views(selections@)),
{
    let mut out: Vec<ResultBlock> = Vec::new();
    let mut i: usize = 0;
    while i < selections.len()
        invariant
            i <= selections.len(),
            block_views(out@) == blocks_of(selection_views(selections@)).take(i as int),
        decreases selections.len() - i,
    {
        let ghost before = block_views(out@);
        let block = ResultBlock {
            link: text_found(&selections[i], 0),
            snippet: text_found(&selections[i], 1),
        };
        proof {
            assert(block@ == block_of(selections@[i as int]@));
        }
        out.push(block);
        proof {
            assert(block_views(out@) == before.push(block_of(selections@[i as int]@)));
        }
        i += 1;
    }
    proof {
        let all = blocks_of(selection_views(selections@));
        assert(all.take(i as int) == all);
    }
    out
}

/// The candidates of a result page, in the order in which the page lists
/// them. A page that cannot be read has none.
pub fn parse_results(html: &str) -> (r: Vec<SearchCandidate>)
    ensures
        candidate_views(r@) == page_candidates(html@),
{
    let mut inner: Vec<String> = Vec::new();
    inner.push(LINK_SELECTOR.to_owned());
    inner.push(SNIPPET_SELECTOR.to_owned());
    proof {
        assert(texts(inner@) == seq![LINK_SELECTOR@, SNIPPET_SELECTOR@]);
    }
    match select(html, RESULT_SELECTOR, &inner) {
        Some(selections) => candidates_from_blocks(&blocks_from_selections(&selections)),
        None => {
            let out: Vec<SearchCandidate> = Vec::new();
            proof {
                assert(candidate_views(out@) == Seq::<SearchCandidateView>::empty());
            }
            out
        },
    }
}

/// What a search yields, given what became of the request for the result
/// page: the candidates of the page that arrived, which may be none, or
/// `SearchUnavailable` where no page arrived.
pub fn search_result(transfer: &Transfer) -> (r: Result<Vec<SearchCandidate>, SearchError>)
    ensures
        match *transfer {
            Transfer::Body(html) => r matches Ok(found) && candidate_views(found@)
                == page_candidates(html@),
            _ => r == Err::<Vec<SearchCandidate>, SearchError>(SearchError::SearchUnavailable),
        },
{
    match transfer {
        Transfer::Body(html) => Ok(parse_results(html.as_str())),
        _ => Err(SearchError::SearchUnavailable),
    }
}

/// Each candidate comes from a block of the listing, and stands for it.
pub proof fn lemma_source_block(blocks: Seq<ResultBlockView>, i: int)
    requires
        0 <= i < candidates_of(blocks).len(),
    ensures
        0 <= source_block(blocks, i) < blocks.len(),
        candidate_of(blocks[source_block(blocks, i)]) == Some(candidates_of(blocks)[i]),
        candidates_of(blocks).len() <= blocks.len(),
    decreases blocks.len(),
{
    if blocks.len() > 0 {
        lemma_candidates_len(blocks.drop_last());
        if candidate_of(blocks.last()) is Some && i == candidates_of(blocks.drop_last()).len() {
        } else {
            lemma_source_block(blocks.drop_last(), i);
        }
    }
}

/// A listing has at most as many candidates as blocks.
pub proof fn lemma_candidates_len(blocks: Seq<ResultBlockView>)
    ensures
        candidates_of(blocks).len() <= blocks.len(),
    decreases blocks.len(),
{
    if blocks.len() > 0 {
        lemma_candidates_len(blocks.drop_last());
    }
}

/// The candidates keep the order of the listing: of two candidates the
/// earlier one comes from the earlier block.
pub proof fn lemma_candidates_keep_order(blocks: Seq<ResultBlockView>, i: int, j: int)
    requires
        0 <= i < j < candidates_of(blocks).len(),
    ensures
        0 <= source_block(blocks, i) < source_block(blocks, j) < blocks.len(),
        candidate_of(blocks[source_block(blocks, i)]) == Some(candidates_of(blocks)[i]),
        candidate_of(blocks[source_block(blocks, j)]) == Some(candidates_of(blocks)[j]),
    decreases blocks.len(),
{
    lemma_source_block(blocks, i);
    lemma_source_block(blocks, j);
    if blocks.len() > 0 {
        let rest = blocks.drop_last();
        if candidate_of(blocks.last()) is Some && j == candidates_of(rest).len() {
            lemma_source_block(rest, i);
        } else {
            lemma_candidates_keep_order(rest, i, j);
        }
    }
}

/// The URL of a candidate begins with the scheme, holds a destination
/// behind it, and holds no white space.
pub proof fn lemma_candidate_url_shape(raw: Seq<char>)
    requires
        candidate_url(raw) is Some,
    ensures
        has_prefix(candidate_url(raw)->0, SCHEME@),
        candidate_url(raw)->0.len() > SCHEME@.len(),
        forall|i: int|
            0 <= i < candidate_url(raw)->0.len() ==> !is_space(#[trigger] candidate_url(raw)->0[i]),
{
    reveal_strlit("https://");
    reveal_strlit("http://");
    let url = candidate_url(raw)->0;
    let bare = bare_destination(raw);
    let cleaned = without_spaces(embedded_destination(raw));
    assert(url.subrange(0, SCHEME@.len() as int) == SCHEME@);
    assert forall|i: int| 0 <= i < url.len() implies !is_space(#[trigger] url[i]) by {
        if i >= SCHEME@.len() {
            let k = i - SCHEME@.len();
            assert(url[i] == bare[k]);
            if has_prefix(cleaned, SCHEME@) {
                assert(bare[k] == cleaned[k + SCHEME@.len()]);
                lemma_without_spaces_has_none(embedded_destination(raw), k + SCHEME@.len());
            } else if has_prefix(cleaned, PLAIN_SCHEME@) {
                assert(bare[k] == cleaned[k + PLAIN_SCHEME@.len()]);
                lemma_without_spaces_has_none(
                    embedded_destination(raw),
                    k + PLAIN_SCHEME@.len(),
                );
            } else {
                lemma_without_spaces_has_none(embedded_destination(raw), k);
            }
        }
    }
}

} // verus!
