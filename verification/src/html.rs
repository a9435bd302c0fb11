//! What the library reads out of an HTML page.
//!
//! Parsing and CSS selection are the `scraper` crate's. A page is handed to it
//! as text and comes back as plain values: for each selected element the
//! texts that the callers work on. What the crate yields for a page is named
//! here, not defined: the contracts of the callers say what is done with it.

use vstd::prelude::*;
use crate::text::texts;

verus! {

/// One selected element of a page: its text nodes in order and, for each of
/// the selectors that were asked for inside it, the text nodes of the first
/// element under it that matches, if one does.
#[derive(Debug, PartialEq, Eq)]
pub struct Selection {
    pub text: Vec<String>,
    pub found: Vec<Option<Vec<String>>>,
}

/// A selection as specifications see it.
pub struct SelectionView {
    pub text: Seq<Seq<char>>,
    pub found: Seq<Option<Seq<Seq<char>>>>,
}

/// The view of text nodes that may be absent.
pub open spec fn nodes_view(o: Option<Vec<String>>) -> Option<Seq<Seq<char>>> {
    match o {
        Some(nodes) => Some(texts(nodes@)),
        None => None,
    }
}

/// The views of what was found for some selectors.
pub open spec fn found_views(v: Seq<Option<Vec<String>>>) -> Seq<Option<Seq<Seq<char>>>> {
    v.map_values(|o: Option<Vec<String>>| nodes_view(o))
}

impl View for Selection {
    type V = SelectionView;

    open spec fn view(&self) -> SelectionView {
        SelectionView { text: texts(self.text@), found: found_views(self.found@) }
    }
}

/// The views of a sequence of selections.
pub open spec fn selection_views(v: Seq<Selection>) -> Seq<SelectionView> {
    v.map_values(|s: Selection| s@)
}

/// What `scraper` selects in the page `html`: one selection for each element
/// that matches the selector `outer`, in the order in which `Html::select`
/// yields them, with what `ElementRef::select` finds first under the element
/// for each of the selectors `inner`. `None` where one of the selectors is
/// no CSS selector.
pub uninterp spec fn selected(html: Seq<char>, outer: Seq<char>, inner: Seq<Seq<char>>) -> Option<
    Seq<SelectionView>,
>;

/// Calls `scraper::Html::parse_document`, `scraper::Selector::parse`,
/// `Html::select`, `ElementRef::select` and `ElementRef::text`. Believed: what
/// comes back depends on the three arguments alone.
#[verifier::external_body]
pub(crate) fn select(html: &str, outer: &str, inner: &Vec<String>) -> (r: Option<Vec<Selection>>)
    ensures
        match r {
            Some(v) => selected(html@, outer@, texts(inner@)) == Some(selection_views(v@)),
            None => selected(html@, outer@, texts(inner@)) is None,
        },
{
    let document = scraper::Html::parse_document(html);
    let outer = scraper::Selector::parse(outer).ok()?;
    let mut inside = Vec::new();
    for s in inner {
        inside.push(scraper::Selector::parse(s).ok()?);
    }
    Some(document.select(&outer).map(|e| Selection {
        text: e.text().map(String::from).collect(),
        found: inside.iter().map(
            |s| e.select(s).next().map(|x| x.text().map(String::from).collect()),
        ).collect(),
    }).collect())
}

} // verus!
