//! Crawl planning and metadata extraction for a sticker storefront.
//!
//! The library decides what a crawl does and leaves the doing to its
//! caller: it is handed the text of a fetched page and says which pages to
//! fetch next and which assets to store where. Nothing here touches the
//! network or the file system.
//!
//! - [`crawl`] keeps the stack of URLs to visit and reads each page as a
//!   listing page or a product page.
//! - [`listing`] finds the links of a listing page, and [`resolve`] turns
//!   each of them into an absolute URL.
//! - [`title`], [`preview`] and [`sticker`] read the title and the sticker
//!   records of a product page; [`plan`] picks the assets to download and
//!   [`sanitize`] names the directory they go to.
//! - [`asset`] names the file of each asset after its sticker and the
//!   extension of its URL.
//! - [`search`] pages through the results of a search.
//! - [`address`] and [`markup`] hold what the `url` and `scraper` crates
//!   compute for the library; [`text`] holds the character-level helpers.

pub mod address;
pub mod asset;
pub mod crawl;
pub mod error;
pub mod listing;
pub mod markup;
pub mod plan;
pub mod preview;
pub mod resolve;
pub mod sanitize;
pub mod search;
pub mod sticker;
pub mod text;
pub mod title;
