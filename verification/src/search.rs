//! Paging through the results of a search.
//!
//! A search is answered page by page. Each request names the offset of its
//! first result; each answer names how many results there are in all, and
//! the search goes on until the next offset would reach that count.

use vstd::prelude::*;
use vstd::string::StringExecFns;
use crate::text::{connect, push_char};

verus! {

/// The number of results asked for with each request.
pub const PAGE_SIZE: u32 = 36;

/// What a search URL holds between the base and the offset.
pub const SEARCH_PREFIX: &'static str = "/api/search/sticker?category=sticker&type=ALL&offset=";

/// What a search URL holds between the offset and the limit.
pub const LIMIT_INFIX: &'static str = "&limit=";

/// What a search URL holds between the limit and the query.
pub const QUERY_INFIX: &'static str = "&includeFacets=false&query=";

/// The character of the digit `d`.
pub open spec fn digit(d: nat) -> char {
    ((48 + d) as u8) as char
}

/// `n` written in decimal.
pub open spec fn decimal(n: nat) -> Seq<char>
    decreases n,
{
    if n < 10 {
        seq![digit(n)]
    } else {
        decimal(n / 10).push(digit(n % 10))
    }
}

/// The URL of the request for the results of `query` from `offset` on, at
/// most `limit` of them.
pub open spec fn search_address(base: Seq<char>, offset: nat, limit: nat, query: Seq<char>) -> Seq<
    char,
> {
    base + SEARCH_PREFIX@ + decimal(offset) + LIMIT_INFIX@ + decimal(limit) + QUERY_INFIX@ + query
}

/// The offset of the request that follows the one at `offset`, given the
/// count of all results; `None` once that count is reached.
pub open spec fn following(offset: nat, limit: nat, total_count: nat) -> Option<nat> {
    if offset + limit >= total_count {
        None
    } else {
        Some(offset + limit)
    }
}

/// The number of requests that a search makes from `offset` on, where
/// every answer names the same count of results.
pub open spec fn requests_from(offset: nat, limit: nat, total_count: nat) -> nat
    decreases total_count - offset,
{
    match following(offset, limit, total_count) {
        Some(next) => if limit > 0 {
            1 + requests_from(next, limit, total_count)
        } else {
            1
        },
        None => 1,
    }
}

/// A search makes at least one request, and just as many as it takes for
/// the pages to cover all results.
pub proof fn lemma_requests_cover(offset: nat, limit: nat, total_count: nat)
    requires
        limit > 0,
    ensures
        requests_from(offset, limit, total_count) >= 1,
        offset + requests_from(offset, limit, total_count) * limit >= total_count,
        requests_from(offset, limit, total_count) > 1 ==> offset + (requests_from(
            offset,
            limit,
            total_count,
        ) - 1) * limit < total_count,
    decreases total_count - offset,
{
    match following(offset, limit, total_count) {
        Some(next) => {
            lemma_requests_cover(next, limit, total_count);
            let m = requests_from(next, limit, total_count);
            assert((1 + m) * limit == limit + m * limit) by (nonlinear_arith);
            if m > 1 {
                assert((m - 1) * limit + limit == m * limit) by (nonlinear_arith);
            }
        },
        None => {},
    }
}

/// The URLs of the products `items`, each of them appended to `base`.
pub open spec fn item_addresses(base: Seq<char>, items: Seq<Seq<char>>) -> Seq<Seq<char>> {
    items.map_values(|item: Seq<char>| base + item)
}

fn push_decimal(out: &mut String, n: u32)
    ensures
        final(out)@ == old(out)@ + decimal(n as nat),
    decreases n,
{
    if n >= 10 {
        push_decimal(out, n / 10);
    }
    let d: u8 = (n % 10) as u8;
    push_char(out, (48 + d) as char);
}

/// `n` written in decimal.
pub fn to_decimal(n: u32) -> (out: String)
    ensures
        out@ == decimal(n as nat),
{
    let mut out = String::new();
    push_decimal(&mut out, n);
    out
}

/// The URL of the request for the results of `query` from `offset` on, at
/// most `limit` of them.
pub fn search_url(base: &str, offset: u32, limit: u32, query: &str) -> (url: String)
    ensures
        url@ == search_address(base@, offset as nat, limit as nat, query@),
{
    let mut url = String::from_str(base);
    url.append(SEARCH_PREFIX);
    push_decimal(&mut url, offset);
    url.append(LIMIT_INFIX);
    push_decimal(&mut url, limit);
    url.append(QUERY_INFIX);
    url.append(query);
    url
}

/// The offset of the request that follows the one at `offset`.
pub fn next_offset(offset: u32, limit: u32, total_count: u32) -> (next: Option<u32>)
    ensures
        match following(offset as nat, limit as nat, total_count as nat) {
            Some(expected) => next == Some(expected as u32) && expected <= u32::MAX,
            None => next is None,
        },
{
    let sum: u64 = offset as u64 + limit as u64;
    if sum >= total_count as u64 {
        None
    } else {
        Some(sum as u32)
    }
}

/// The URL of the product that a search result names by `product_url`.
pub fn item_url(base: &str, product_url: &str) -> (url: String)
    ensures
        url@ == base@ + product_url@,
{
    connect(base, product_url)
}

/// The URLs of the products that the search results `items` name.
pub fn item_urls(base: &str, items: &Vec<String>) -> (urls: Vec<String>)
    ensures
        urls.deep_view() == item_addresses(base@, items.deep_view()),
{
    let mut urls: Vec<String> = Vec::new();
    let mut i: usize = 0;
    while i < items.len()
        invariant
            i <= items.len(),
            urls.len() == i,
            forall|j: int| 0 <= j < i ==> urls@[j]@ == base@ + items@[j]@,
        decreases items.len() - i,
    {
        urls.push(item_url(base, items[i].as_str()));
        i += 1;
    }
    urls
}

/// One answer to a search request.
#[derive(Debug, PartialEq, Eq)]
pub struct SearchPage {
    /// The count of all results of the search.
    pub total_count: u32,
    /// The product URL of each result on this page, relative to the base.
    pub product_urls: Vec<String>,
}

/// What to do with one answer to a search request.
#[derive(Debug, PartialEq, Eq)]
pub struct SearchStep {
    /// The URLs to crawl from, in order.
    pub seeds: Vec<String>,
    /// Whether another request is to be made after that.
    pub more: bool,
}

/// Where a search stands: the offset of the request to make next.
#[derive(Debug)]
pub struct SearchPager {
    offset: u32,
}

impl SearchPager {
    /// The offset of the request to make next.
    pub closed spec fn position(&self) -> nat {
        self.offset as nat
    }

    /// A search that has not asked for anything yet.
    pub fn new() -> (pager: SearchPager)
        ensures
            pager.position() == 0,
    {
        SearchPager { offset: 0 }
    }

    /// The offset of the request to make next.
    pub fn offset(&self) -> (offset: u32)
        ensures
            offset == self.position(),
    {
        self.offset
    }

    /// The URL of the request to make next.
    pub fn request_url(&self, base: &str, query: &str) -> (url: String)
        ensures
            url@ == search_address(base@, self.position(), PAGE_SIZE as nat, query@),
    {
        search_url(base, self.offset, PAGE_SIZE, query)
    }

    /// Takes in the count of all results that the last answer named, and
    /// says whether another request is to be made. If so the pager has
    /// moved on by one page, to an offset below that count.
    pub fn advance(&mut self, total_count: u32) -> (more: bool)
        ensures
            match following(old(self).position(), PAGE_SIZE as nat, total_count as nat) {
                Some(next) => more && final(self).position() == next && old(self).position()
                    < next < total_count,
                None => !more && final(self).position() == old(self).position(),
            },
    {
        match next_offset(self.offset, PAGE_SIZE, total_count) {
            Some(next) => {
                self.offset = next;
                true
            },
            None => false,
        }
    }

    /// Takes in an answer: its results are to be crawled, each from its
    /// product URL appended to `base`, and the pager moves on as far as
    /// the count of all results allows.
    pub fn take_page(&mut self, base: &str, page: &SearchPage) -> (step: SearchStep)
        ensures
            step.seeds.deep_view() == item_addresses(base@, page.product_urls.deep_view()),
            match following(old(self).position(), PAGE_SIZE as nat, page.total_count as nat) {
                Some(next) => step.more && final(self).position() == next,
                None => !step.more && final(self).position() == old(self).position(),
            },
    {
        let seeds = item_urls(base, &page.product_urls);
        let more = self.advance(page.total_count);
        SearchStep { seeds, more }
    }
}

} // verus!
