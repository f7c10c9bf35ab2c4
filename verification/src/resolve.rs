//! Turning the references found on a page into absolute URLs.
//!
//! A listing page refers to products by path (`/stickershop/product/1/en`,
//! possibly with a query of its own) and to its next page by query alone
//! (`?page=2`, or `page=2`). Both are resolved against the URL of the page
//! they were found on.

use vstd::prelude::*;
use crate::address::{parsed_path, path_set, query_set, with_path, with_query};
use crate::error::CrawlError;
use crate::text::{chars_of, find_first, string_from};

verus! {

/// A reference as found in an `href`, split into the parts that replace
/// those of the page's URL.
#[derive(Debug, PartialEq, Eq)]
pub struct Reference {
    /// The new path, if the reference names one.
    pub path: Option<String>,
    /// The new query, if the reference names one.
    pub query: Option<String>,
}

/// Whether `reference` starts with `/`, and so names a path.
pub open spec fn names_path(reference: Seq<char>) -> bool {
    reference.len() > 0 && reference[0] == '/'
}

/// The path that `reference` names: for one that starts with `/`, what
/// precedes its first `?`.
pub open spec fn reference_path(reference: Seq<char>) -> Option<Seq<char>> {
    if names_path(reference) {
        match reference.index_of_first('?') {
            Some(i) => Some(reference.take(i)),
            None => Some(reference),
        }
    } else {
        None
    }
}

/// The query that `reference` names: for one that starts with `/`, what
/// follows its first `?`, if it has one; for any other, all of it but a
/// leading `?`.
pub open spec fn reference_query(reference: Seq<char>) -> Option<Seq<char>> {
    if names_path(reference) {
        match reference.index_of_first('?') {
            Some(i) => Some(reference.skip(i + 1)),
            None => None,
        }
    } else if reference.len() > 0 && reference[0] == '?' {
        Some(reference.skip(1))
    } else {
        Some(reference)
    }
}

/// The absolute URL that `reference` stands for on the page at `base`:
/// the query of `base` is cleared, then the path is replaced if the
/// reference names one, then the query is set if the reference names one.
/// `None` where `base` is no absolute URL, or a step exceeds the limit or
/// fails.
pub open spec fn resolved(base: Seq<char>, reference: Seq<char>) -> Option<Seq<char>> {
    match query_set(base, None) {
        None => None,
        Some(cleared) => {
            let moved = match reference_path(reference) {
                Some(path) => path_set(cleared, path),
                None => Some(cleared),
            };
            match moved {
                None => None,
                Some(url) => match reference_query(reference) {
                    Some(query) => query_set(url, Some(query)),
                    None => Some(url),
                },
            }
        },
    }
}

/// Splits `reference` into the path and the query that it names.
pub fn split_reference(reference: &str) -> (parts: Reference)
    ensures
        parts.path.deep_view() == reference_path(reference@),
        parts.query.deep_view() == reference_query(reference@),
{
    let chars = chars_of(reference);
    let n = chars.len();
    if n > 0 && chars[0] == '/' {
        match find_first(&chars, '?') {
            Some(i) => {
                let path = string_from(&chars, 0, i);
                let query = string_from(&chars, i + 1, n);
                Reference { path: Some(path), query: Some(query) }
            },
            None => {
                let path = string_from(&chars, 0, n);
                Reference { path: Some(path), query: None }
            },
        }
    } else if n > 0 && chars[0] == '?' {
        let query = string_from(&chars, 1, n);
        Reference { path: None, query: Some(query) }
    } else {
        let query = string_from(&chars, 0, n);
        Reference { path: None, query: Some(query) }
    }
}

/// Resolves the reference `path_or_query_params` against the absolute URL
/// `url`. A `url` that is no absolute URL is an error.
pub fn update_url(url: &str, path_or_query_params: &str) -> (out: Result<String, CrawlError>)
    ensures
        match resolved(url@, path_or_query_params@) {
            Some(absolute) => out matches Ok(text) && text@ == absolute,
            None => out == Err::<String, CrawlError>(CrawlError::InvalidUrl),
        },
        parsed_path(url@) is None ==> out is Err,
{
    let parts = split_reference(path_or_query_params);
    let cleared = match with_query(url, None) {
        Some(cleared) => cleared,
        None => {
            return Err(CrawlError::InvalidUrl);
        },
    };
    let moved = match &parts.path {
        Some(path) => match with_path(cleared.as_str(), path.as_str()) {
            Some(moved) => moved,
            None => {
                return Err(CrawlError::InvalidUrl);
            },
        },
        None => cleared,
    };
    match &parts.query {
        Some(query) => match with_query(moved.as_str(), Some(query.as_str())) {
            Some(done) => Ok(done),
            None => Err(CrawlError::InvalidUrl),
        },
        None => Ok(moved),
    }
}

} // verus!
