//! What the `scraper` crate reads out of a page.
//!
//! A page is handed over as text together with the CSS selectors to look
//! for, and what comes back are plain strings: attribute values and text
//! nodes, element by element in the order in which `scraper` yields the
//! matching elements.

use vstd::prelude::*;

verus! {

/// For each element of `page` that matches `selector`, the value of its
/// attribute `attr`, `None` for an element without that attribute. `None`
/// as a whole if `selector` is not a valid selector.
pub uninterp spec fn selected_attrs(page: Seq<char>, selector: Seq<char>, attr: Seq<char>) -> Option<
    Seq<Option<Seq<char>>>,
>;

/// For each element of `page` that matches `outer`, the attribute `attr` of
/// each of its descendants that matches `inner`. `None` as a whole if one of
/// the selectors is not valid.
pub uninterp spec fn selected_nested_attrs(
    page: Seq<char>,
    outer: Seq<char>,
    inner: Seq<char>,
    attr: Seq<char>,
) -> Option<Seq<Seq<Option<Seq<char>>>>>;

/// For each element of `page` that matches `selector`, its descendant text
/// nodes. `None` as a whole if `selector` is not a valid selector.
pub uninterp spec fn selected_texts(page: Seq<char>, selector: Seq<char>) -> Option<
    Seq<Seq<Seq<char>>>,
>;

/// Trusted: `scraper::Selector::parse`, `scraper::Html::parse_document` and
/// `scraper::Html::select`, then `scraper::node::Element::attr` on each
/// element found. The result depends on the three arguments alone.
#[verifier::external_body]
pub(crate) fn select_attrs(page: &str, selector: &str, attr: &str) -> (found: Option<
    Vec<Option<String>>,
>)
    ensures
        found.deep_view() == selected_attrs(page@, selector@, attr@),
{
    let selector = scraper::Selector::parse(selector).ok()?;
    let document = scraper::Html::parse_document(page);
    Some(document.select(&selector).map(|e| e.value().attr(attr).map(|v| v.to_string())).collect())
}

/// Trusted: as `select_attrs`, with `scraper::ElementRef::select` run on
/// each element that matches `outer` to find its descendants that match
/// `inner`. The result depends on the four arguments alone.
#[verifier::external_body]
pub(crate) fn select_nested_attrs(page: &str, outer: &str, inner: &str, attr: &str) -> (found:
    Option<Vec<Vec<Option<String>>>>)
    ensures
        found.deep_view() == selected_nested_attrs(page@, outer@, inner@, attr@),
{
    let outer = scraper::Selector::parse(outer).ok()?;
    let inner = scraper::Selector::parse(inner).ok()?;
    let document = scraper::Html::parse_document(page);
    let attrs = |e: scraper::ElementRef| e.value().attr(attr).map(|v| v.to_string());
    Some(document.select(&outer).map(|e| e.select(&inner).map(attrs).collect()).collect())
}

/// Trusted: `scraper::Selector::parse`, `scraper::Html::parse_document` and
/// `scraper::Html::select`, then `scraper::ElementRef::text` on each
/// element found. The result depends on the two arguments alone.
#[verifier::external_body]
pub(crate) fn select_texts(page: &str, selector: &str) -> (found: Option<Vec<Vec<String>>>)
    ensures
        found.deep_view() == selected_texts(page@, selector@),
{
    let selector = scraper::Selector::parse(selector).ok()?;
    let document = scraper::Html::parse_document(page);
    Some(document.select(&selector).map(|e| e.text().map(|t| t.to_string()).collect()).collect())
}

} // verus!
