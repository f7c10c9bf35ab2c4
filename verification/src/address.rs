//! What the `url` crate computes for this library.
//!
//! URLs travel through the library as strings. Each function here hands one
//! string to the `url` crate and takes a string back, so the crate's parser
//! and serializer do all the URL work and the rest of the library reasons
//! about the named results.

use vstd::prelude::*;
use vstd::string::StrSliceExecFns;

verus! {

/// The longest URL, path or query, in characters, that is handed to the
/// `url` crate. The crate keeps 32-bit offsets into the serialized URL; with
/// this bound no offset can overflow, whatever is percent-encoded.
pub const MAX_URL_CHARS: usize = 0x00ff_ffff;

/// The path of the absolute URL that `url` parses to, `None` if `url` does
/// not parse as an absolute URL.
pub uninterp spec fn parsed_path(url: Seq<char>) -> Option<Seq<char>>;

/// The serialization of the absolute URL `url` after its query was set to
/// `query` (cleared for `None`), `None` if `url` does not parse.
pub uninterp spec fn url_with_query(url: Seq<char>, query: Option<Seq<char>>) -> Option<
    Seq<char>,
>;

/// The serialization of the absolute URL `url` after its path was set to
/// `path`, `None` if `url` does not parse.
pub uninterp spec fn url_with_path(url: Seq<char>, path: Seq<char>) -> Option<Seq<char>>;

/// Whether `text` may be handed to the `url` crate.
pub open spec fn within_limit(text: Seq<char>) -> bool {
    text.len() <= MAX_URL_CHARS
}

/// Trusted: `url::Url::parse` followed by `url::Url::path`. The result is
/// the percent-encoded path of the parsed URL, and `None` where parsing
/// fails; it depends on `url` alone.
#[verifier::external_body]
pub(crate) fn url_path(url: &str) -> (path: Option<String>)
    ensures
        path.deep_view() == parsed_path(url@),
{
    match url::Url::parse(url) {
        Ok(parsed) => Some(parsed.path().to_string()),
        Err(_) => None,
    }
}

/// Trusted: `url::Url::set_query` on the URL that `url` parses to, given
/// back in serialized form; `None` where `url` does not parse, and only
/// there. The result depends on the two arguments alone.
#[verifier::external_body]
pub(crate) fn set_query(url: &str, query: Option<&str>) -> (out: Option<String>)
    requires
        within_limit(url@),
        query matches Some(q) ==> within_limit(q@),
    ensures
        out.deep_view() == url_with_query(url@, query.deep_view()),
        out is Some <==> parsed_path(url@) is Some,
{
    match url::Url::parse(url) {
        Ok(mut parsed) => {
            parsed.set_query(query);
            Some(parsed.to_string())
        },
        Err(_) => None,
    }
}

/// Trusted: `url::Url::set_path` on the URL that `url` parses to, given
/// back in serialized form; `None` where `url` does not parse, and only
/// there. The result depends on the two arguments alone.
#[verifier::external_body]
pub(crate) fn set_path(url: &str, path: &str) -> (out: Option<String>)
    requires
        within_limit(url@),
        within_limit(path@),
    ensures
        out.deep_view() == url_with_path(url@, path@),
        out is Some <==> parsed_path(url@) is Some,
{
    match url::Url::parse(url) {
        Ok(mut parsed) => {
            parsed.set_path(path);
            Some(parsed.to_string())
        },
        Err(_) => None,
    }
}

/// `url_with_query`, for arguments within the limit; `None` beyond it.
pub open spec fn query_set(url: Seq<char>, query: Option<Seq<char>>) -> Option<Seq<char>> {
    if within_limit(url) && (query matches Some(q) ==> within_limit(q)) {
        url_with_query(url, query)
    } else {
        None
    }
}

/// `url_with_path`, for arguments within the limit; `None` beyond it.
pub open spec fn path_set(url: Seq<char>, path: Seq<char>) -> Option<Seq<char>> {
    if within_limit(url) && within_limit(path) {
        url_with_path(url, path)
    } else {
        None
    }
}

/// Whether `text` may be handed to the `url` crate.
pub fn fits(text: &str) -> (ok: bool)
    ensures
        ok == within_limit(text@),
{
    text.unicode_len() <= MAX_URL_CHARS
}

/// The URL `url` with its query set to `query`, or cleared for `None`.
/// There is none if `url` is no absolute URL, or an argument is beyond the
/// limit.
pub fn with_query(url: &str, query: Option<&str>) -> (out: Option<String>)
    ensures
        out.deep_view() == query_set(url@, query.deep_view()),
        out is Some <==> parsed_path(url@) is Some && within_limit(url@) && (query matches Some(
            q,
        ) ==> within_limit(q@)),
{
    if !fits(url) {
        return None;
    }
    match query {
        Some(q) => {
            if fits(q) {
                set_query(url, query)
            } else {
                None
            }
        },
        None => set_query(url, query),
    }
}

/// The URL `url` with its path set to `path`. There is none if `url` is no
/// absolute URL, or an argument is beyond the limit.
pub fn with_path(url: &str, path: &str) -> (out: Option<String>)
    ensures
        out.deep_view() == path_set(url@, path@),
        out is Some <==> parsed_path(url@) is Some && within_limit(url@) && within_limit(path@),
{
    if fits(url) && fits(path) {
        set_path(url, path)
    } else {
        None
    }
}

/// Whether `text` parses as an absolute URL.
pub fn is_absolute_url(text: &str) -> (ok: bool)
    ensures
        ok == parsed_path(text@).is_some(),
{
    url_path(text).is_some()
}

} // verus!
