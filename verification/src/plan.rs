//! Which assets of a product page are downloaded.
//!
//! For each sticker the sound is taken if there is one, and one picture:
//! the animation if there is one, else the still image if there is one.

use vstd::prelude::*;
use crate::error::CrawlError;
use crate::preview::{extract_sticker_data_from_document, sticker_data};
use crate::sanitize::{is_reserved, lemma_sanitized_is_safe, sanitize_directory_name, sanitized};
use crate::sticker::{StickerMap, StickerRecord, StickerRecordView};
use crate::title::{extract_title_from_document, page_title};

verus! {

/// One asset to fetch: where it is, and the sticker it belongs to.
#[derive(Debug, PartialEq, Eq)]
pub struct Download {
    pub url: String,
    pub id: String,
}

/// A download as contracts see it.
pub struct DownloadView {
    pub url: Seq<char>,
    pub id: Seq<char>,
}

impl View for Download {
    type V = DownloadView;

    open spec fn view(&self) -> DownloadView {
        DownloadView { url: self.url@, id: self.id@ }
    }
}

impl DeepView for Download {
    type V = DownloadView;

    open spec fn deep_view(&self) -> DownloadView {
        self@
    }
}

/// What is done for one product page.
#[derive(Debug, PartialEq, Eq)]
pub struct ProductPlan {
    /// The title of the product.
    pub title: String,
    /// The directory that the assets are stored in.
    pub directory: String,
    /// The assets to fetch, in order.
    pub downloads: Vec<Download>,
}

/// A product plan as contracts see it.
pub struct ProductPlanView {
    pub title: Seq<char>,
    pub directory: Seq<char>,
    pub downloads: Seq<DownloadView>,
}

impl View for ProductPlan {
    type V = ProductPlanView;

    open spec fn view(&self) -> ProductPlanView {
        ProductPlanView {
            title: self.title@,
            directory: self.directory@,
            downloads: self.downloads.deep_view(),
        }
    }
}

/// The download of `url` for the sticker `id`, if `url` is not empty.
pub open spec fn asset(url: Seq<char>, id: Seq<char>) -> Seq<DownloadView> {
    if url.len() > 0 {
        seq![DownloadView { url, id }]
    } else {
        Seq::empty()
    }
}

/// The picture of `record`: its animation if it has one, else its still
/// image if it has one.
pub open spec fn picture_of(record: StickerRecordView) -> Seq<DownloadView> {
    if record.animation_url.len() > 0 {
        asset(record.animation_url, record.id)
    } else {
        asset(record.static_url, record.id)
    }
}

/// The downloads for `record`: its sound if it has one, then its picture.
pub open spec fn planned(record: StickerRecordView) -> Seq<DownloadView> {
    asset(record.sound_url, record.id) + picture_of(record)
}

/// The downloads for `entries`, record after record.
pub open spec fn planned_all(entries: Seq<StickerRecordView>) -> Seq<DownloadView>
    decreases entries.len(),
{
    if entries.len() == 0 {
        Seq::empty()
    } else {
        planned_all(entries.drop_last()) + planned(entries.last())
    }
}

/// What is done for the product page `page`: its title names the
/// directory, and its sticker records say what to download.
pub open spec fn product_plan(page: Seq<char>) -> Result<ProductPlanView, CrawlError> {
    match page_title(page) {
        Err(error) => Err(error),
        Ok(title) => match sticker_data(page) {
            Err(error) => Err(error),
            Ok(entries) => Ok(
                ProductPlanView {
                    title,
                    directory: sanitized(title),
                    downloads: planned_all(entries),
                },
            ),
        },
    }
}

/// A sticker gives at most two downloads, at most one of them a sound;
/// each is for that sticker and has a URL to fetch.
pub proof fn lemma_planned_shape(record: StickerRecordView)
    ensures
        planned(record).len() <= 2,
        asset(record.sound_url, record.id).len() <= 1,
        picture_of(record).len() <= 1,
        forall|i: int|
            0 <= i < planned(record).len() ==> (#[trigger] planned(record)[i]).id == record.id
                && planned(record)[i].url.len() > 0,
{
}

/// The directory of a product holds no reserved character and no `/`.
pub proof fn lemma_directory_is_safe(page: Seq<char>)
    ensures
        product_plan(page) matches Ok(plan) ==> forall|i: int|
            0 <= i < plan.directory.len() ==> !is_reserved(#[trigger] plan.directory[i])
                && plan.directory[i] != '/',
{
    match page_title(page) {
        Ok(title) => {
            lemma_sanitized_is_safe(title);
        },
        Err(_) => {},
    }
}

/// The downloads for no records are none, and those for records and one
/// more are those for the records and then those for the last.
pub proof fn lemma_planned_all_push(entries: Seq<StickerRecordView>, record: StickerRecordView)
    ensures
        planned_all(Seq::<StickerRecordView>::empty()) == Seq::<DownloadView>::empty(),
        planned_all(entries.push(record)) == planned_all(entries) + planned(record),
        planned_all(entries).len() <= 2 * entries.len(),
    decreases entries.len(),
{
    assert(entries.push(record).drop_last() == entries);
    if entries.len() > 0 {
        lemma_planned_all_push(entries.drop_last(), entries.last());
    }
}

fn push_asset(downloads: &mut Vec<Download>, url: &String, id: &String)
    ensures
        final(downloads).deep_view() == old(downloads).deep_view() + asset(url@, id@),
{
    if !url.as_str().is_empty() {
        downloads.push(Download { url: url.clone(), id: id.clone() });
    }
}

fn push_planned(downloads: &mut Vec<Download>, record: &StickerRecord)
    ensures
        final(downloads).deep_view() == old(downloads).deep_view() + planned(record@),
{
    push_asset(downloads, &record.sound_url, &record.id);
    if !record.animation_url.as_str().is_empty() {
        push_asset(downloads, &record.animation_url, &record.id);
    } else {
        push_asset(downloads, &record.static_url, &record.id);
    }
}

/// The downloads for `record`.
pub fn plan_assets(record: &StickerRecord) -> (downloads: Vec<Download>)
    ensures
        downloads.deep_view() == planned(record@),
{
    let mut downloads: Vec<Download> = Vec::new();
    push_planned(&mut downloads, record);
    downloads
}

/// The downloads for the records of `map`, record after record.
pub fn plan_downloads(map: &StickerMap) -> (downloads: Vec<Download>)
    ensures
        downloads.deep_view() == planned_all(map.entries()),
{
    let mut downloads: Vec<Download> = Vec::new();
    let n = map.len();
    let mut i: usize = 0;
    while i < n
        invariant
            i <= n == map.entries().len(),
            downloads.deep_view() == planned_all(map.entries().take(i as int)),
        decreases n - i,
    {
        assert(map.entries().take(i + 1).drop_last() == map.entries().take(i as int));
        push_planned(&mut downloads, map.entry(i));
        i += 1;
    }
    assert(map.entries().take(i as int) == map.entries());
    downloads
}

/// What is done for the product page `document`.
pub fn plan_product(document: &str) -> (plan: Result<ProductPlan, CrawlError>)
    ensures
        match product_plan(document@) {
            Ok(expected) => plan matches Ok(found) && found@ == expected,
            Err(error) => plan matches Err(e) && e == error,
        },
{
    let title = match extract_title_from_document(document) {
        Ok(title) => title,
        Err(error) => {
            return Err(error);
        },
    };
    let map = match extract_sticker_data_from_document(document) {
        Ok(map) => map,
        Err(error) => {
            return Err(error);
        },
    };
    let directory = sanitize_directory_name(title.as_str());
    let downloads = plan_downloads(&map);
    Ok(ProductPlan { title, directory, downloads })
}

} // verus!
