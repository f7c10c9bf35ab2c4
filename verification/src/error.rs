//! The failures a crawl can end with.

use vstd::prelude::*;
use vstd::string::StringExecFns;

verus! {

/// Why a crawl step failed.
#[derive(Debug, Clone, Copy, PartialEq, Eq, Structural)]
pub enum CrawlError {
    /// A URL that had to be absolute did not parse as one, or a URL or a
    /// reference is longer than [`crate::address::MAX_URL_CHARS`].
    InvalidUrl,
    /// The page has no title element, so it is not a product page.
    MissingTitle,
    /// The embedded metadata of a sticker item is not JSON.
    MalformedStickerData,
    /// The asset URL has no file extension to name the file with.
    NoExtension,
    /// The markup query library rejected a selector.
    Selector,
}

impl CrawlError {
    /// The text shown to the operator for this failure.
    pub open spec fn spec_message(self) -> Seq<char> {
        match self {
            CrawlError::InvalidUrl => "The URL is not a valid absolute URL"@,
            CrawlError::MissingTitle =>
                "Could not find the sticker-name-title in the document. Please check that the URL points to a valid sticker page."@,
            CrawlError::MalformedStickerData => "Could not parse sticker data"@,
            CrawlError::NoExtension => "Could not extract file extension from url"@,
            CrawlError::Selector => "Could not parse a selector"@,
        }
    }

    /// The text shown to the operator for this failure.
    pub fn message(&self) -> (text: String)
        ensures
            text@ == self.spec_message(),
    {
        match self {
            CrawlError::InvalidUrl => String::from_str("The URL is not a valid absolute URL"),
            CrawlError::MissingTitle => String::from_str(
                "Could not find the sticker-name-title in the document. Please check that the URL points to a valid sticker page.",
            ),
            CrawlError::MalformedStickerData => String::from_str("Could not parse sticker data"),
            CrawlError::NoExtension => String::from_str(
                "Could not extract file extension from url",
            ),
            CrawlError::Selector => String::from_str("Could not parse a selector"),
        }
    }
}

} // verus!
