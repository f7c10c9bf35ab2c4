//! The links of a listing page.
//!
//! A listing page names products, one per author item, and may name a next
//! page. Every reference found is resolved against the URL of the listing
//! page itself, and the absolute URLs are gathered as a set.

use vstd::prelude::*;
use vstd::seq_lib::seq_to_set_is_finite;
use vstd::string::StringExecFns;
use crate::error::CrawlError;
use crate::markup::{select_attrs, select_nested_attrs, selected_attrs, selected_nested_attrs};
use crate::resolve::{resolved, update_url};

verus! {

/// The selector of the list items that each name one product.
pub const AUTHOR_ITEM_SELECTOR: &'static str = "li[data-test=\"author-item\"]";

/// The selector of the anchors inside an author item.
pub const ANCHOR_SELECTOR: &'static str = "a";

/// The selector of the anchor that leads to the next listing page.
pub const NEXT_BUTTON_SELECTOR: &'static str = "a[data-test=\"next-btn\"]";

/// The attribute that holds the reference of an anchor.
pub const HREF_ATTR: &'static str = "href";

/// `links` with `link` added: at the end, unless it is there already.
pub open spec fn added(links: Seq<Seq<char>>, link: Seq<char>) -> Seq<Seq<char>> {
    if links.contains(link) {
        links
    } else {
        links.push(link)
    }
}

/// The reference that a list item stands for, given the `href` of each of
/// its anchors: that of the first anchor, if it has one.
pub open spec fn first_href(anchors: Seq<Option<Seq<char>>>) -> Option<Seq<char>> {
    if anchors.len() > 0 {
        anchors[0]
    } else {
        None
    }
}

/// The references of the list items `items`, in order; an item that stands
/// for none is passed over.
pub open spec fn item_hrefs(items: Seq<Seq<Option<Seq<char>>>>) -> Seq<Seq<char>>
    decreases items.len(),
{
    if items.len() == 0 {
        Seq::empty()
    } else {
        match first_href(items.last()) {
            Some(href) => item_hrefs(items.drop_last()).push(href),
            None => item_hrefs(items.drop_last()),
        }
    }
}

/// The reference to the next page, given the `href` of each anchor that is
/// marked as next button: that of the first of them, if it has one.
pub open spec fn next_href_in(matches: Option<Seq<Option<Seq<char>>>>) -> Result<
    Option<Seq<char>>,
    CrawlError,
> {
    match matches {
        None => Err(CrawlError::Selector),
        Some(anchors) => Ok(first_href(anchors)),
    }
}

/// The reference to the next page that the listing page `page` holds.
pub open spec fn next_href(page: Seq<char>) -> Result<Option<Seq<char>>, CrawlError> {
    next_href_in(selected_attrs(page, NEXT_BUTTON_SELECTOR@, HREF_ATTR@))
}

/// `links` with each of `hrefs`, resolved against `base`, added in order;
/// an error if one of them does not resolve.
pub open spec fn resolved_into(base: Seq<char>, hrefs: Seq<Seq<char>>, links: Seq<Seq<char>>)
    -> Result<Seq<Seq<char>>, CrawlError>
    decreases hrefs.len(),
{
    if hrefs.len() == 0 {
        Ok(links)
    } else {
        match resolved_into(base, hrefs.drop_last(), links) {
            Err(error) => Err(error),
            Ok(sofar) => match resolved(base, hrefs.last()) {
                None => Err(CrawlError::InvalidUrl),
                Some(link) => Ok(added(sofar, link)),
            },
        }
    }
}

/// The links of a listing page at `url`, given the anchors of its author
/// items and the reference to its next page.
pub open spec fn links_from(
    url: Seq<char>,
    items: Option<Seq<Seq<Option<Seq<char>>>>>,
    next: Result<Option<Seq<char>>, CrawlError>,
) -> Result<Seq<Seq<char>>, CrawlError> {
    match items {
        None => Err(CrawlError::Selector),
        Some(found) => match resolved_into(url, item_hrefs(found), Seq::empty()) {
            Err(error) => Err(error),
            Ok(links) => match next {
                Err(error) => Err(error),
                Ok(None) => Ok(links),
                Ok(Some(href)) => resolved_into(url, seq![href], links),
            },
        },
    }
}

/// The links of the listing page `page`, found at `url`.
pub open spec fn listing_links(url: Seq<char>, page: Seq<char>) -> Result<
    Seq<Seq<char>>,
    CrawlError,
> {
    links_from(
        url,
        selected_nested_attrs(page, AUTHOR_ITEM_SELECTOR@, ANCHOR_SELECTOR@, HREF_ATTR@),
        next_href(page),
    )
}

/// Adding a link keeps the links distinct, and adds it to the set they
/// stand for.
pub proof fn lemma_added(links: Seq<Seq<char>>, link: Seq<char>)
    requires
        links.no_duplicates(),
    ensures
        added(links, link).no_duplicates(),
        added(links, link).to_set() == links.to_set().insert(link),
{
    if !links.contains(link) {
        links.lemma_push_to_set_commute(link);
    }
}

/// Resolving references into distinct links leaves the links distinct.
pub proof fn lemma_resolved_into_distinct(
    base: Seq<char>,
    hrefs: Seq<Seq<char>>,
    links: Seq<Seq<char>>,
)
    requires
        links.no_duplicates(),
    ensures
        resolved_into(base, hrefs, links) matches Ok(all) ==> all.no_duplicates(),
    decreases hrefs.len(),
{
    if hrefs.len() > 0 {
        lemma_resolved_into_distinct(base, hrefs.drop_last(), links);
        match resolved_into(base, hrefs.drop_last(), links) {
            Ok(sofar) => match resolved(base, hrefs.last()) {
                Some(link) => {
                    lemma_added(sofar, link);
                },
                None => {},
            },
            Err(_) => {},
        }
    }
}

/// Resolving references into links fails exactly when one of them does
/// not resolve. Where it succeeds, the result holds the links that were
/// there and what the references resolve to, and nothing else.
pub proof fn lemma_resolved_into_members(
    base: Seq<char>,
    hrefs: Seq<Seq<char>>,
    links: Seq<Seq<char>>,
)
    ensures
        resolved_into(base, hrefs, links) is Err <==> exists|i: int|
            0 <= i < hrefs.len() && (#[trigger] resolved(base, hrefs[i])) is None,
        resolved_into(base, hrefs, links) matches Ok(all) ==> forall|link: Seq<char>|
            #[trigger] all.contains(link) <==> links.contains(link) || exists|i: int|
                0 <= i < hrefs.len() && #[trigger] resolved(base, hrefs[i]) == Some(link),
    decreases hrefs.len(),
{
    if hrefs.len() > 0 {
        let rest = hrefs.drop_last();
        let last = hrefs.last();
        lemma_resolved_into_members(base, rest, links);
        assert forall|i: int| 0 <= i < rest.len() implies rest[i] == hrefs[i] by {}
        match resolved_into(base, rest, links) {
            Ok(sofar) => match resolved(base, last) {
                Some(new) => {
                    let all = added(sofar, new);
                    assert forall|link: Seq<char>| #[trigger]
                        all.contains(link) <==> links.contains(link) || exists|i: int|
                            0 <= i < hrefs.len() && #[trigger] resolved(base, hrefs[i]) == Some(
                                link,
                            ) by {
                        lemma_added_members(sofar, new, link);
                    }
                },
                None => {},
            },
            Err(_) => {},
        }
    }
}

proof fn lemma_added_members(links: Seq<Seq<char>>, new: Seq<char>, link: Seq<char>)
    ensures
        added(links, new).contains(link) <==> links.contains(link) || link == new,
{
    if links.contains(new) {
    } else {
        let after = links.push(new);
        if links.contains(link) {
            let i = choose|i: int| 0 <= i < links.len() && links[i] == link;
            assert(after[i] == link);
        }
        if link == new {
            assert(after[links.len() as int] == link);
        }
    }
}

/// An error among the first `n` references is the error of the whole.
proof fn lemma_resolved_into_error(
    base: Seq<char>,
    hrefs: Seq<Seq<char>>,
    links: Seq<Seq<char>>,
    n: int,
)
    requires
        0 <= n <= hrefs.len(),
        resolved_into(base, hrefs.take(n), links) is Err,
    ensures
        resolved_into(base, hrefs, links) == resolved_into(base, hrefs.take(n), links),
    decreases hrefs.len() - n,
{
    if n < hrefs.len() {
        assert(hrefs.take(n + 1).drop_last() == hrefs.take(n));
        lemma_resolved_into_error(base, hrefs, links, n + 1);
    } else {
        assert(hrefs.take(n) == hrefs);
    }
}

/// A set of absolute URLs, handed out in the order in which they were
/// first added.
#[derive(Debug)]
pub struct LinkSet {
    links: Vec<String>,
}

impl View for LinkSet {
    type V = Set<Seq<char>>;

    open spec fn view(&self) -> Set<Seq<char>> {
        self.entries().to_set()
    }
}

impl LinkSet {
    /// The links, in the order in which they are handed out.
    pub closed spec fn entries(&self) -> Seq<Seq<char>> {
        self.links.deep_view()
    }

    #[verifier::type_invariant]
    spec fn well_formed(&self) -> bool {
        self.entries().no_duplicates()
    }

    /// The empty set.
    pub fn new() -> (set: LinkSet)
        ensures
            set.entries() == Seq::<Seq<char>>::empty(),
            set@ == Set::<Seq<char>>::empty(),
    {
        LinkSet { links: Vec::new() }
    }

    /// The number of links.
    pub fn len(&self) -> (n: usize)
        ensures
            n == self.entries().len(),
            n == self@.len(),
            self@.finite(),
            self.entries().no_duplicates(),
    {
        proof {
            use_type_invariant(self);
            self.entries().unique_seq_to_set();
            seq_to_set_is_finite(self.entries());
        }
        self.links.len()
    }

    /// The link at position `i`.
    pub fn link(&self, i: usize) -> (link: &String)
        requires
            i < self.entries().len(),
        ensures
            link@ == self.entries()[i as int],
    {
        &self.links[i]
    }

    /// Whether `link` is in the set.
    pub fn contains(&self, link: &str) -> (found: bool)
        ensures
            found == self@.contains(link@),
            found == self.entries().contains(link@),
    {
        let ghost all = self.entries();
        let wanted = String::from_str(link);
        let mut i: usize = 0;
        while i < self.links.len()
            invariant
                i <= self.links.len(),
                all == self.entries(),
                wanted@ == link@,
                forall|j: int| 0 <= j < i ==> all[j] != link@,
            decreases self.links.len() - i,
        {
            if self.links[i] == wanted {
                assert(all[i as int] == link@);
                return true;
            }
            i += 1;
        }
        false
    }

    /// Adds `link`, unless it is there already.
    pub fn insert(&mut self, link: String)
        ensures
            final(self).entries() == added(old(self).entries(), link@),
            final(self)@ == old(self)@.insert(link@),
            final(self).entries().no_duplicates(),
    {
        proof {
            use_type_invariant(&*self);
            lemma_added(self.entries(), link@);
        }
        let ghost before = self.entries();
        if !self.contains(link.as_str()) {
            let mut links: Vec<String> = Vec::new();
            core::mem::swap(&mut self.links, &mut links);
            links.push(link);
            assert(links.deep_view() =~= before.push(link@));
            self.links = links;
        }
    }
}

/// A reference that was looked for, as contracts see it.
pub open spec fn href_view(href: Result<Option<String>, CrawlError>) -> Result<
    Option<Seq<char>>,
    CrawlError,
> {
    match href {
        Ok(found) => Ok(found.deep_view()),
        Err(error) => Err(error),
    }
}

/// Whether `found` holds the links `expected`, or is the error that
/// `expected` is.
pub open spec fn is_links(
    found: Result<LinkSet, CrawlError>,
    expected: Result<Seq<Seq<char>>, CrawlError>,
) -> bool {
    match expected {
        Err(error) => found matches Err(e) && e == error,
        Ok(links) => found matches Ok(set) && set.entries() == links && links.no_duplicates(),
    }
}

/// The references of the list items `items`, given the `href` of each
/// anchor of each item.
pub fn hrefs_of(items: &Vec<Vec<Option<String>>>) -> (hrefs: Vec<String>)
    ensures
        hrefs.deep_view() == item_hrefs(items.deep_view()),
{
    let mut hrefs: Vec<String> = Vec::new();
    let mut i: usize = 0;
    while i < items.len()
        invariant
            i <= items.len(),
            hrefs.deep_view() == item_hrefs(items.deep_view().take(i as int)),
        decreases items.len() - i,
    {
        let ghost all = items.deep_view();
        assert(all.take(i + 1).drop_last() == all.take(i as int));
        let anchors = &items[i];
        if anchors.len() > 0 {
            match &anchors[0] {
                Some(href) => {
                    hrefs.push(href.clone());
                },
                None => {},
            }
        }
        i += 1;
    }
    assert(items.deep_view().take(i as int) == items.deep_view());
    hrefs
}

/// The reference to the next page, given the `href` of each anchor that is
/// marked as next button.
pub fn next_href_of(matches: &Option<Vec<Option<String>>>) -> (href: Result<
    Option<String>,
    CrawlError,
>)
    ensures
        href_view(href) == next_href_in(matches.deep_view()),
{
    match matches {
        None => Err(CrawlError::Selector),
        Some(anchors) => {
            if anchors.len() > 0 {
                match &anchors[0] {
                    Some(href) => Ok(Some(href.clone())),
                    None => Ok(None),
                }
            } else {
                Ok(None)
            }
        },
    }
}

/// The reference to the next page that the listing page `document` holds.
pub fn extract_next_button_href(document: &str) -> (href: Result<Option<String>, CrawlError>)
    ensures
        href_view(href) == next_href(document@),
{
    let matches = select_attrs(document, NEXT_BUTTON_SELECTOR, HREF_ATTR);
    next_href_of(&matches)
}

/// Resolves each of `hrefs` against `url` and adds it to `links`. On an
/// error `links` holds what was added before it.
pub fn resolve_into(url: &str, hrefs: &Vec<String>, links: &mut LinkSet) -> (done: Result<
    (),
    CrawlError,
>)
    ensures
        match resolved_into(url@, hrefs.deep_view(), old(links).entries()) {
            Ok(all) => done is Ok && final(links).entries() == all,
            Err(error) => done == Err::<(), CrawlError>(error),
        },
        final(links).entries().no_duplicates(),
{
    let ghost start = links.entries();
    let ghost all = hrefs.deep_view();
    proof {
        use_type_invariant(&*links);
    }
    let mut i: usize = 0;
    while i < hrefs.len()
        invariant
            i <= hrefs.len(),
            all == hrefs.deep_view(),
            start == old(links).entries(),
            resolved_into(url@, all.take(i as int), start) == Ok::<Seq<Seq<char>>, CrawlError>(
                links.entries(),
            ),
            links.entries().no_duplicates(),
        decreases hrefs.len() - i,
    {
        assert(all.take(i + 1).drop_last() == all.take(i as int));
        match update_url(url, hrefs[i].as_str()) {
            Ok(link) => {
                links.insert(link);
            },
            Err(error) => {
                proof {
                    lemma_resolved_into_error(url@, all, start, i + 1);
                }
                return Err(error);
            },
        }
        i += 1;
    }
    assert(all.take(i as int) == all);
    Ok(())
}

/// The links of a listing page at `url`, given the anchors of its author
/// items and the reference to its next page.
pub fn links_of(
    url: &str,
    items: &Option<Vec<Vec<Option<String>>>>,
    next: Result<Option<String>, CrawlError>,
) -> (links: Result<LinkSet, CrawlError>)
    ensures
        is_links(links, links_from(url@, items.deep_view(), href_view(next))),
{
    let found = match items {
        Some(found) => found,
        None => {
            return Err(CrawlError::Selector);
        },
    };
    let mut links = LinkSet::new();
    let hrefs = hrefs_of(found);
    match resolve_into(url, &hrefs, &mut links) {
        Ok(()) => {},
        Err(error) => {
            return Err(error);
        },
    }
    match next {
        Err(error) => Err(error),
        Ok(None) => Ok(links),
        Ok(Some(href)) => {
            let mut last: Vec<String> = Vec::new();
            last.push(href);
            assert(last.deep_view() =~= seq![href@]);
            match resolve_into(url, &last, &mut links) {
                Ok(()) => Ok(links),
                Err(error) => Err(error),
            }
        },
    }
}

/// The links of the listing page `document`, found at `url`.
pub fn extract_author_page_urls(url: &str, document: &str) -> (links: Result<
    LinkSet,
    CrawlError,
>)
    ensures
        is_links(links, listing_links(url@, document@)),
{
    let items = select_nested_attrs(document, AUTHOR_ITEM_SELECTOR, ANCHOR_SELECTOR, HREF_ATTR);
    let next = extract_next_button_href(document);
    links_of(url, &items, next)
}

} // verus!
