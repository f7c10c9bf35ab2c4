//! Reading the sticker records that a product page embeds.
//!
//! Each sticker preview item of a product page carries a `data-preview`
//! attribute that holds a JSON object. An item without the attribute is
//! passed over, and so is one whose object names no id; an attribute that
//! is not JSON fails the whole page.

use vstd::prelude::*;
use vstd::string::StringExecFns;
use crate::error::CrawlError;
use crate::markup::{select_attrs, selected_attrs};
use crate::sticker::{distinct_ids, put, StickerMap, StickerRecord, StickerRecordView};

verus! {

/// The selector of the sticker preview items of a product page.
pub const ITEM_SELECTOR: &'static str = "li.FnStickerPreviewItem";

/// The attribute of a preview item that holds its JSON object.
pub const PREVIEW_ATTR: &'static str = "data-preview";

pub const ID_KEY: &'static str = "id";

pub const STATIC_URL_KEY: &'static str = "staticUrl";

pub const FALLBACK_STATIC_URL_KEY: &'static str = "fallbackStaticUrl";

pub const ANIMATION_URL_KEY: &'static str = "animationUrl";

pub const POPUP_URL_KEY: &'static str = "popupUrl";

pub const SOUND_URL_KEY: &'static str = "soundUrl";

/// For JSON `text`, the string found under each of `keys` in its top-level
/// object: `None` for a key that is absent or whose value is no string, and
/// for every key if `text` is JSON but no object. `None` as a whole if
/// `text` is not JSON.
pub uninterp spec fn json_strings(text: Seq<char>, keys: Seq<Seq<char>>) -> Option<
    Seq<Option<Seq<char>>>,
>;

/// Trusted: `serde_json::from_str` into a `serde_json::Value`, then
/// `serde_json::Value::get` and `serde_json::Value::as_str` for each key.
/// The result depends on the two arguments alone, and holds one entry for
/// each key.
#[verifier::external_body]
pub(crate) fn json_string_fields(text: &str, keys: &Vec<String>) -> (fields: Option<
    Vec<Option<String>>,
>)
    ensures
        fields.deep_view() == json_strings(text@, keys.deep_view()),
        fields matches Some(found) ==> found.len() == keys.len(),
{
    let value: serde_json::Value = serde_json::from_str(text).ok()?;
    let field = |key: &String| value.get(key.as_str()).and_then(|v| v.as_str());
    Some(keys.iter().map(|key| field(key).map(|s| s.to_string())).collect())
}

/// The keys of a sticker record, in the order of its fields.
pub open spec fn record_keys() -> Seq<Seq<char>> {
    seq![
        ID_KEY@,
        STATIC_URL_KEY@,
        FALLBACK_STATIC_URL_KEY@,
        ANIMATION_URL_KEY@,
        POPUP_URL_KEY@,
        SOUND_URL_KEY@,
    ]
}

/// The text of `field`, empty where there is none.
pub open spec fn text_or_empty(field: Option<Seq<char>>) -> Seq<char> {
    match field {
        Some(text) => text,
        None => Seq::empty(),
    }
}

/// The record that the strings `fields`, found under `record_keys()`, make
/// up: none without an id, and an empty URL for each that is missing.
pub open spec fn record_in(fields: Seq<Option<Seq<char>>>) -> Option<StickerRecordView> {
    if fields.len() == 6 && fields[0] is Some {
        Some(
            StickerRecordView {
                id: fields[0]->0,
                static_url: text_or_empty(fields[1]),
                fallback_static_url: text_or_empty(fields[2]),
                animation_url: text_or_empty(fields[3]),
                popup_url: text_or_empty(fields[4]),
                sound_url: text_or_empty(fields[5]),
            },
        )
    } else {
        None
    }
}

/// What a preview attribute yields, given the strings found in it: an
/// error if it was not JSON, else the record it describes, if any.
pub open spec fn record_from(fields: Option<Seq<Option<Seq<char>>>>) -> Result<
    Option<StickerRecordView>,
    CrawlError,
> {
    match fields {
        None => Err(CrawlError::MalformedStickerData),
        Some(found) => Ok(record_in(found)),
    }
}

/// What the preview attribute `text` yields.
pub open spec fn preview_record(text: Seq<char>) -> Result<Option<StickerRecordView>, CrawlError> {
    record_from(json_strings(text, record_keys()))
}

/// The records that the preview attributes `previews` yield, taken in
/// order, or the error of the first attribute that is not JSON.
pub open spec fn collected(previews: Seq<Option<Seq<char>>>) -> Result<
    Seq<StickerRecordView>,
    CrawlError,
>
    decreases previews.len(),
{
    if previews.len() == 0 {
        Ok(Seq::empty())
    } else {
        match collected(previews.drop_last()) {
            Err(error) => Err(error),
            Ok(entries) => match previews.last() {
                None => Ok(entries),
                Some(text) => match preview_record(text) {
                    Err(error) => Err(error),
                    Ok(None) => Ok(entries),
                    Ok(Some(record)) => Ok(put(entries, record)),
                },
            },
        }
    }
}

/// The records of the product page `page`.
pub open spec fn sticker_data(page: Seq<char>) -> Result<Seq<StickerRecordView>, CrawlError> {
    match selected_attrs(page, ITEM_SELECTOR@, PREVIEW_ATTR@) {
        None => Err(CrawlError::Selector),
        Some(previews) => collected(previews),
    }
}

/// Whether `found` is `expected`, record by view.
pub open spec fn is_record(
    found: Result<Option<StickerRecord>, CrawlError>,
    expected: Result<Option<StickerRecordView>, CrawlError>,
) -> bool {
    match expected {
        Err(error) => found == Err::<Option<StickerRecord>, CrawlError>(error),
        Ok(None) => found == Ok::<Option<StickerRecord>, CrawlError>(None),
        Ok(Some(view)) => found matches Ok(Some(record)) && record@ == view,
    }
}

/// Whether `found` holds the entries `expected`, or is the error that
/// `expected` is.
pub open spec fn is_collection(
    found: Result<StickerMap, CrawlError>,
    expected: Result<Seq<StickerRecordView>, CrawlError>,
) -> bool {
    match expected {
        Err(error) => found matches Err(e) && e == error,
        Ok(entries) => found matches Ok(map) && map.entries() == entries && distinct_ids(entries),
    }
}

fn text_of(field: &Option<String>) -> (text: String)
    ensures
        text@ == text_or_empty(field.deep_view()),
{
    match field {
        Some(text) => text.clone(),
        None => String::new(),
    }
}

/// What a preview attribute yields, given the strings found in it under
/// `record_keys()`.
pub fn record_of(fields: &Option<Vec<Option<String>>>) -> (record: Result<
    Option<StickerRecord>,
    CrawlError,
>)
    ensures
        is_record(record, record_from(fields.deep_view())),
{
    match fields {
        None => Err(CrawlError::MalformedStickerData),
        Some(found) => {
            if found.len() != 6 {
                return Ok(None);
            }
            match &found[0] {
                None => Ok(None),
                Some(id) => Ok(
                    Some(
                        StickerRecord {
                            id: id.clone(),
                            static_url: text_of(&found[1]),
                            fallback_static_url: text_of(&found[2]),
                            animation_url: text_of(&found[3]),
                            popup_url: text_of(&found[4]),
                            sound_url: text_of(&found[5]),
                        },
                    ),
                ),
            }
        },
    }
}

fn keys() -> (keys: Vec<String>)
    ensures
        keys.deep_view() == record_keys(),
{
    let mut keys: Vec<String> = Vec::new();
    keys.push(String::from_str(ID_KEY));
    keys.push(String::from_str(STATIC_URL_KEY));
    keys.push(String::from_str(FALLBACK_STATIC_URL_KEY));
    keys.push(String::from_str(ANIMATION_URL_KEY));
    keys.push(String::from_str(POPUP_URL_KEY));
    keys.push(String::from_str(SOUND_URL_KEY));
    keys
}

/// What the preview attribute `text` yields.
pub fn parse_preview(text: &str) -> (record: Result<Option<StickerRecord>, CrawlError>)
    ensures
        is_record(record, preview_record(text@)),
{
    let keys = keys();
    let fields = json_string_fields(text, &keys);
    record_of(&fields)
}

/// The records that the preview attributes `previews` yield.
pub fn collect_sticker_data(previews: &Vec<Option<String>>) -> (map: Result<
    StickerMap,
    CrawlError,
>)
    ensures
        is_collection(map, collected(previews.deep_view())),
{
    let mut map = StickerMap::new();
    let mut i: usize = 0;
    while i < previews.len()
        invariant
            i <= previews.len(),
            collected(previews.deep_view().take(i as int)) == Ok::<
                Seq<StickerRecordView>,
                CrawlError,
            >(map.entries()),
            distinct_ids(map.entries()),
        decreases previews.len() - i,
    {
        let ghost all = previews.deep_view();
        assert(all.take(i + 1).drop_last() == all.take(i as int));
        match &previews[i] {
            None => {},
            Some(text) => {
                match parse_preview(text.as_str()) {
                    Err(error) => {
                        proof {
                            lemma_collected_error(all, i + 1);
                        }
                        return Err(error);
                    },
                    Ok(None) => {},
                    Ok(Some(record)) => {
                        map.insert(record);
                    },
                }
            },
        }
        i += 1;
    }
    assert(previews.deep_view().take(i as int) == previews.deep_view());
    Ok(map)
}

/// The records of the product page `document`.
pub fn extract_sticker_data_from_document(document: &str) -> (map: Result<
    StickerMap,
    CrawlError,
>)
    ensures
        is_collection(map, sticker_data(document@)),
{
    match select_attrs(document, ITEM_SELECTOR, PREVIEW_ATTR) {
        None => Err(CrawlError::Selector),
        Some(previews) => collect_sticker_data(&previews),
    }
}

/// An error among the first `n` attributes is the error of the whole.
pub proof fn lemma_collected_error(previews: Seq<Option<Seq<char>>>, n: int)
    requires
        0 <= n <= previews.len(),
        collected(previews.take(n)) is Err,
    ensures
        collected(previews) == collected(previews.take(n)),
    decreases previews.len() - n,
{
    if n < previews.len() {
        assert(previews.take(n + 1).drop_last() == previews.take(n));
        lemma_collected_error(previews, n + 1);
    } else {
        assert(previews.take(n) == previews);
    }
}

/// One attribute that is not JSON fails the whole page, whatever the other
/// items hold.
pub proof fn lemma_malformed_item_fails(previews: Seq<Option<Seq<char>>>, i: int)
    requires
        0 <= i < previews.len(),
        previews[i] matches Some(text) && json_strings(text, record_keys()) is None,
    ensures
        collected(previews) == Err::<Seq<StickerRecordView>, CrawlError>(
            CrawlError::MalformedStickerData,
        ),
    decreases previews.len(),
{
    let rest = previews.drop_last();
    if i < previews.len() - 1 {
        lemma_malformed_item_fails(rest, i);
    } else {
        lemma_collected_only_fails_malformed(rest);
    }
}

/// Attributes yield records exactly when each of them that is there is
/// JSON.
pub proof fn lemma_collected_succeeds(previews: Seq<Option<Seq<char>>>)
    ensures
        collected(previews) is Ok <==> forall|i: int|
            0 <= i < previews.len() && previews[i] is Some ==> (#[trigger] preview_record(
                previews[i]->0,
            )) is Ok,
    decreases previews.len(),
{
    if previews.len() > 0 {
        let rest = previews.drop_last();
        lemma_collected_succeeds(rest);
        assert forall|i: int| 0 <= i < rest.len() implies rest[i] == previews[i] by {}
    }
}

/// The only error that attributes can yield is that one of them is not
/// JSON.
pub proof fn lemma_collected_only_fails_malformed(previews: Seq<Option<Seq<char>>>)
    ensures
        collected(previews) matches Err(error) ==> error == CrawlError::MalformedStickerData,
    decreases previews.len(),
{
    if previews.len() > 0 {
        lemma_collected_only_fails_malformed(previews.drop_last());
    }
}

} // verus!
