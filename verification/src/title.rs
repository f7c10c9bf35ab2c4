//! The title of a product page.
//!
//! The title is the text of the first element that carries the title
//! marker, with the white space around it removed. A page without such an
//! element is not a product page.

use vstd::prelude::*;
use vstd::string::StringExecFns;
use crate::error::CrawlError;
use crate::markup::{select_texts, selected_texts};
use crate::text::{chars_of, string_from};

verus! {

/// The selector of the element that holds the title of a product page.
pub const TITLE_SELECTOR: &'static str = "p[data-test=\"sticker-name-title\"]";

/// Whether `c` is white space: a character with the Unicode property
/// `White_Space`.
pub open spec fn is_space(c: char) -> bool {
    let code = c as u32;
    ||| 0x09 <= code <= 0x0d
    ||| code == 0x20
    ||| code == 0x85
    ||| code == 0xa0
    ||| code == 0x1680
    ||| 0x2000 <= code <= 0x200a
    ||| code == 0x2028
    ||| code == 0x2029
    ||| code == 0x202f
    ||| code == 0x205f
    ||| code == 0x3000
}

/// `text` without the white space it starts with.
pub open spec fn trim_start(text: Seq<char>) -> Seq<char>
    decreases text.len(),
{
    if text.len() > 0 && is_space(text[0]) {
        trim_start(text.drop_first())
    } else {
        text
    }
}

/// `text` without the white space it ends with.
pub open spec fn trim_end(text: Seq<char>) -> Seq<char>
    decreases text.len(),
{
    if text.len() > 0 && is_space(text.last()) {
        trim_end(text.drop_last())
    } else {
        text
    }
}

/// `text` without the white space around it.
pub open spec fn trimmed(text: Seq<char>) -> Seq<char> {
    trim_end(trim_start(text))
}

/// The pieces of `parts`, one after the other.
pub open spec fn joined(parts: Seq<Seq<char>>) -> Seq<char>
    decreases parts.len(),
{
    if parts.len() == 0 {
        Seq::empty()
    } else {
        joined(parts.drop_last()) + parts.last()
    }
}

/// The title, given the text nodes of each element that carries the title
/// marker: the trimmed text of the first of them.
pub open spec fn title_in(matches: Option<Seq<Seq<Seq<char>>>>) -> Result<Seq<char>, CrawlError> {
    match matches {
        None => Err(CrawlError::Selector),
        Some(elements) => if elements.len() == 0 {
            Err(CrawlError::MissingTitle)
        } else {
            Ok(trimmed(joined(elements[0])))
        },
    }
}

/// The title of the product page `page`.
pub open spec fn page_title(page: Seq<char>) -> Result<Seq<char>, CrawlError> {
    title_in(selected_texts(page, TITLE_SELECTOR@))
}

/// A page has a title exactly when it has an element that carries the
/// title marker; without one, the title is missing.
pub proof fn lemma_title_found(elements: Seq<Seq<Seq<char>>>)
    ensures
        elements.len() > 0 ==> title_in(Some(elements)) == Ok::<Seq<char>, CrawlError>(
            trimmed(joined(elements[0])),
        ),
        elements.len() == 0 ==> title_in(Some(elements)) == Err::<Seq<char>, CrawlError>(
            CrawlError::MissingTitle,
        ),
{
}

/// A trimmed text neither starts nor ends with white space, and a text
/// that does neither is left as it is.
pub proof fn lemma_trimmed(text: Seq<char>)
    ensures
        trimmed(text).len() > 0 ==> !is_space(trimmed(text).first()) && !is_space(
            trimmed(text).last(),
        ),
        text.len() > 0 && !is_space(text.first()) && !is_space(text.last()) ==> trimmed(text)
            == text,
        text.len() == 0 ==> trimmed(text) == text,
{
    lemma_trim_start(text);
    lemma_trim_end(trim_start(text));
}

proof fn lemma_trim_start(text: Seq<char>)
    ensures
        trim_start(text).len() > 0 ==> !is_space(trim_start(text).first()),
        exists|k: int| 0 <= k <= text.len() && trim_start(text) == text.skip(k),
    decreases text.len(),
{
    if text.len() > 0 && is_space(text[0]) {
        lemma_trim_start(text.drop_first());
        let k = choose|k: int|
            0 <= k <= text.drop_first().len() && trim_start(text.drop_first())
                == text.drop_first().skip(k);
        assert(text.drop_first().skip(k) == text.skip(k + 1));
    } else {
        assert(text == text.skip(0));
    }
}

proof fn lemma_trim_end(text: Seq<char>)
    ensures
        trim_end(text).len() > 0 ==> !is_space(trim_end(text).last()),
        exists|k: int| 0 <= k <= text.len() && trim_end(text) == text.take(k),
        trim_end(text).len() > 0 ==> trim_end(text).first() == text.first(),
    decreases text.len(),
{
    if text.len() > 0 && is_space(text.last()) {
        lemma_trim_end(text.drop_last());
        let k = choose|k: int|
            0 <= k <= text.drop_last().len() && trim_end(text.drop_last())
                == text.drop_last().take(k);
        assert(text.drop_last().take(k) == text.take(k));
    } else {
        assert(text == text.take(text.len() as int));
    }
}

/// Whether `c` is white space.
pub fn is_space_char(c: char) -> (space: bool)
    ensures
        space == is_space(c),
{
    let code: u32 = c as u32;
    (0x09 <= code && code <= 0x0d) || code == 0x20 || code == 0x85 || code == 0xa0 || code
        == 0x1680 || (0x2000 <= code && code <= 0x200a) || code == 0x2028 || code == 0x2029
        || code == 0x202f || code == 0x205f || code == 0x3000
}

/// `text` without the white space around it.
pub fn trim(text: &str) -> (out: String)
    ensures
        out@ == trimmed(text@),
{
    let chars = chars_of(text);
    let mut start: usize = 0;
    assert(chars@.skip(0) == chars@);
    while start < chars.len() && is_space_char(chars[start])
        invariant
            start <= chars.len(),
            trim_start(chars@) == trim_start(chars@.skip(start as int)),
        decreases chars.len() - start,
    {
        assert(chars@.skip(start as int).drop_first() == chars@.skip(start + 1));
        start += 1;
    }
    let mut end: usize = chars.len();
    while end > start && is_space_char(chars[end - 1])
        invariant
            start <= end <= chars.len(),
            trimmed(chars@) == trim_end(chars@.subrange(start as int, end as int)),
        decreases end,
    {
        assert(chars@.subrange(start as int, end as int).drop_last() == chars@.subrange(
            start as int,
            end - 1,
        ));
        end -= 1;
    }
    string_from(&chars, start, end)
}

/// The pieces of `parts`, one after the other.
pub fn join(parts: &Vec<String>) -> (out: String)
    ensures
        out@ == joined(parts.deep_view()),
{
    let mut out = String::new();
    let mut i: usize = 0;
    while i < parts.len()
        invariant
            i <= parts.len(),
            out@ == joined(parts.deep_view().take(i as int)),
        decreases parts.len() - i,
    {
        assert(parts.deep_view().take(i + 1).drop_last() == parts.deep_view().take(i as int));
        out.append(parts[i].as_str());
        i += 1;
    }
    assert(parts.deep_view().take(i as int) == parts.deep_view());
    out
}

/// The title, given the text nodes of each element that carries the title
/// marker.
pub fn title_of(matches: &Option<Vec<Vec<String>>>) -> (title: Result<String, CrawlError>)
    ensures
        match title_in(matches.deep_view()) {
            Ok(text) => title matches Ok(found) && found@ == text,
            Err(error) => title == Err::<String, CrawlError>(error),
        },
{
    match matches {
        None => Err(CrawlError::Selector),
        Some(elements) => {
            if elements.len() == 0 {
                Err(CrawlError::MissingTitle)
            } else {
                let text = join(&elements[0]);
                Ok(trim(text.as_str()))
            }
        },
    }
}

/// The title of the product page `document`.
pub fn extract_title_from_document(document: &str) -> (title: Result<String, CrawlError>)
    ensures
        match page_title(document@) {
            Ok(text) => title matches Ok(found) && found@ == text,
            Err(error) => title == Err::<String, CrawlError>(error),
        },
{
    let matches = select_texts(document, TITLE_SELECTOR);
    title_of(&matches)
}

} // verus!
