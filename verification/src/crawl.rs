//! The crawl of one seed URL.
//!
//! A crawl keeps the URLs still to visit on a stack. The caller takes the
//! top URL, fetches it and hands the body in; a listing page puts its
//! links on the stack, a product page yields the plan of its downloads.
//! No record is kept of what was visited: a URL that is found twice is
//! visited twice.

use vstd::prelude::*;
use vstd::string::StringExecFns;
use crate::address::{parsed_path, url_path};
use crate::error::CrawlError;
use crate::listing::{extract_author_page_urls, listing_links, LinkSet};
use crate::plan::{plan_product, product_plan, ProductPlan, ProductPlanView};
use crate::text::chars_of;

verus! {

/// What the path of a listing page holds.
pub const LISTING_MARKER: &'static str = "/stickershop/author/";

/// Whether `needle` occurs in `text`.
pub open spec fn occurs_in(needle: Seq<char>, text: Seq<char>) -> bool {
    exists|i: int| occurs_at(needle, text, i)
}

/// Whether `needle` occurs in `text` at position `i`.
pub open spec fn occurs_at(needle: Seq<char>, text: Seq<char>, i: int) -> bool {
    0 <= i <= text.len() - needle.len() && text.subrange(i, i + needle.len()) == needle
}

/// Whether `url` is the URL of a listing page: an absolute URL whose path
/// holds the listing marker.
pub open spec fn is_listing(url: Seq<char>) -> bool {
    match parsed_path(url) {
        Some(path) => occurs_in(LISTING_MARKER@, path),
        None => false,
    }
}

/// What a page turned out to be, as contracts see it.
pub enum PageView {
    /// A listing page, with its links.
    Listing(Seq<Seq<char>>),
    /// A product page, with what is done for it.
    Product(ProductPlanView),
}

/// What the page at `url` with the body `body` turns out to be.
pub open spec fn page_read(url: Seq<char>, body: Seq<char>) -> Result<PageView, CrawlError> {
    if is_listing(url) {
        match listing_links(url, body) {
            Ok(links) => Ok(PageView::Listing(links)),
            Err(error) => Err(error),
        }
    } else {
        match product_plan(body) {
            Ok(plan) => Ok(PageView::Product(plan)),
            Err(error) => Err(error),
        }
    }
}

/// What a page turned out to be.
#[derive(Debug)]
pub enum Page {
    /// A listing page, with its links.
    Listing(LinkSet),
    /// A product page, with what is done for it.
    Product(ProductPlan),
}

/// Whether `found` is `expected`.
pub open spec fn is_page(found: Result<Page, CrawlError>, expected: Result<PageView, CrawlError>)
    -> bool {
    match expected {
        Err(error) => found matches Err(e) && e == error,
        Ok(PageView::Listing(links)) => found matches Ok(Page::Listing(set)) && set.entries()
            == links && links.no_duplicates(),
        Ok(PageView::Product(plan)) => found matches Ok(Page::Product(p)) && p@ == plan,
    }
}

fn matches_at(text: &Vec<char>, needle: &Vec<char>, at: usize) -> (same: bool)
    requires
        at + needle.len() <= text.len(),
    ensures
        same == occurs_at(needle@, text@, at as int),
{
    let mut k: usize = 0;
    while k < needle.len()
        invariant
            k <= needle.len(),
            at + needle.len() <= text.len(),
            forall|j: int| 0 <= j < k ==> text@[at + j] == needle@[j],
        decreases needle.len() - k,
    {
        if text[at + k] != needle[k] {
            return false;
        }
        k += 1;
    }
    assert(text@.subrange(at as int, at + needle.len()) =~= needle@);
    true
}

/// Whether `needle` occurs in `text`.
pub fn contains_text(text: &str, needle: &str) -> (found: bool)
    ensures
        found == occurs_in(needle@, text@),
{
    let hay = chars_of(text);
    let pin = chars_of(needle);
    if pin.len() > hay.len() {
        return false;
    }
    let last: usize = hay.len() - pin.len();
    let mut at: usize = 0;
    while at <= last
        invariant
            hay@ == text@,
            pin@ == needle@,
            last == hay.len() - pin.len(),
            pin.len() <= hay.len(),
            forall|j: int| 0 <= j < at ==> !occurs_at(needle@, text@, j),
        decreases last + 1 - at,
    {
        if matches_at(&hay, &pin, at) {
            return true;
        }
        if at == last {
            return false;
        }
        at += 1;
    }
    false
}

/// Whether the URL path `path` holds the listing marker.
pub fn is_listing_path(path: &str) -> (listing: bool)
    ensures
        listing == occurs_in(LISTING_MARKER@, path@),
{
    contains_text(path, LISTING_MARKER)
}

/// Whether `url` is the URL of a listing page.
pub fn is_listing_url(url: &str) -> (listing: bool)
    ensures
        listing == is_listing(url@),
{
    match url_path(url) {
        Some(path) => is_listing_path(path.as_str()),
        None => false,
    }
}

/// Reads the page that was fetched from `url`: a listing page for its
/// links, any other page as a product page.
pub fn read_page(url: &str, body: &str) -> (page: Result<Page, CrawlError>)
    ensures
        is_page(page, page_read(url@, body@)),
{
    if is_listing_url(url) {
        match extract_author_page_urls(url, body) {
            Ok(links) => Ok(Page::Listing(links)),
            Err(error) => Err(error),
        }
    } else {
        match plan_product(body) {
            Ok(plan) => Ok(Page::Product(plan)),
            Err(error) => Err(error),
        }
    }
}

/// The URLs still to visit, last in, first out.
#[derive(Debug)]
pub struct Crawl {
    frontier: Vec<String>,
}

impl Crawl {
    /// The URLs still to visit; the last one is visited next.
    pub closed spec fn pending(&self) -> Seq<Seq<char>> {
        self.frontier.deep_view()
    }

    /// A crawl that starts at `seed`.
    pub fn new(seed: &str) -> (crawl: Crawl)
        ensures
            crawl.pending() == seq![seed@],
    {
        let mut frontier: Vec<String> = Vec::new();
        frontier.push(String::from_str(seed));
        Crawl { frontier }
    }

    /// Whether nothing is left to visit.
    pub fn is_done(&self) -> (done: bool)
        ensures
            done == (self.pending().len() == 0),
    {
        self.frontier.len() == 0
    }

    /// Takes the URL to visit next: the one that was put in last.
    pub fn next_url(&mut self) -> (url: Option<String>)
        ensures
            match url {
                Some(top) => old(self).pending().len() > 0 && top@ == old(self).pending().last()
                    && final(self).pending() == old(self).pending().drop_last(),
                None => old(self).pending().len() == 0 && final(self).pending() == old(
                    self,
                ).pending(),
            },
    {
        self.frontier.pop()
    }

    /// Puts `links` in, in order, so that the last of them is visited next.
    pub fn enqueue(&mut self, links: &LinkSet)
        ensures
            final(self).pending() == old(self).pending() + links.entries(),
    {
        let ghost before = self.pending();
        let n = links.len();
        let mut i: usize = 0;
        while i < n
            invariant
                i <= n == links.entries().len(),
                self.pending() == before + links.entries().take(i as int),
            decreases n - i,
        {
            let ghost sofar = self.pending();
            self.frontier.push(links.link(i).clone());
            assert(self.pending() =~= sofar.push(links.entries()[i as int]));
            i += 1;
        }
    }

    /// Takes in the body that was fetched from `url`. The links of a
    /// listing page are put in and nothing is handed back; for a product
    /// page the plan of its downloads is handed back. On an error the URLs
    /// still to visit stay as they are.
    pub fn visit(&mut self, url: &str, body: &str) -> (plan: Result<
        Option<ProductPlan>,
        CrawlError,
    >)
        ensures
            match page_read(url@, body@) {
                Err(error) => plan matches Err(e) && e == error && final(self).pending() == old(
                    self,
                ).pending(),
                Ok(PageView::Listing(links)) => plan matches Ok(None) && final(self).pending()
                    == old(self).pending() + links,
                Ok(PageView::Product(expected)) => plan matches Ok(Some(found)) && found@
                    == expected && final(self).pending() == old(self).pending(),
            },
    {
        match read_page(url, body) {
            Err(error) => Err(error),
            Ok(Page::Listing(links)) => {
                self.enqueue(&links);
                Ok(None)
            },
            Ok(Page::Product(plan)) => Ok(Some(plan)),
        }
    }
}

} // verus!
