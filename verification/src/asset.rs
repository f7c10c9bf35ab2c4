//! Where a downloaded asset is stored.
//!
//! The file of an asset is named after the sticker it belongs to, with the
//! extension that the asset's URL ends in.

use vstd::prelude::*;
use vstd::string::StringExecFns;
use crate::address::{parsed_path, url_path};
use crate::error::CrawlError;
use crate::text::{chars_of, find_last, push_char, slice_of, string_from};

verus! {

/// What follows the last `/` of `path`; all of `path` if it holds no `/`.
pub open spec fn last_segment(path: Seq<char>) -> Seq<char> {
    match path.index_of_last('/') {
        Some(i) => path.skip(i + 1),
        None => path,
    }
}

/// What follows the last `.` in the last segment of `path`; `None` if that
/// segment holds no `.`.
pub open spec fn extension_of(path: Seq<char>) -> Option<Seq<char>> {
    let segment = last_segment(path);
    match segment.index_of_last('.') {
        Some(i) => Some(segment.skip(i + 1)),
        None => None,
    }
}

/// The extension that the asset at `url` is stored with; `None` if `url` is
/// no absolute URL or its path names no extension.
pub open spec fn url_extension(url: Seq<char>) -> Option<Seq<char>> {
    match parsed_path(url) {
        Some(path) => extension_of(path),
        None => None,
    }
}

/// `directory/id.extension`
pub open spec fn file_path(directory: Seq<char>, id: Seq<char>, extension: Seq<char>) -> Seq<
    char,
> {
    directory + seq!['/'] + id + seq!['.'] + extension
}

/// An extension holds neither `.` nor `/`, and the path ends in `.` and
/// the extension. A path has no extension exactly when no `.` follows its
/// last `/`.
pub proof fn lemma_extension_shape(path: Seq<char>)
    ensures
        match extension_of(path) {
            Some(extension) => {
                &&& !extension.contains('.')
                &&& !extension.contains('/')
                &&& path.len() > extension.len()
                &&& path.skip(path.len() - extension.len() - 1) == seq!['.'] + extension
            },
            None => !last_segment(path).contains('.'),
        },
        !last_segment(path).contains('/'),
{
    path.index_of_last_ensures('/');
    last_segment(path).index_of_last_ensures('.');
}

/// The extension that the URL path `path` ends in.
pub fn path_extension(path: &str) -> (extension: Option<String>)
    ensures
        extension.deep_view() == extension_of(path@),
{
    let chars = chars_of(path);
    let start: usize = match find_last(&chars, '/') {
        Some(i) => i + 1,
        None => 0,
    };
    let segment = slice_of(&chars, start, chars.len());
    assert(segment@ == last_segment(path@));
    match find_last(&segment, '.') {
        Some(i) => {
            let extension = string_from(&segment, i + 1, segment.len());
            Some(extension)
        },
        None => None,
    }
}

/// The extension that the asset at `url` is stored with.
pub fn extract_file_extension(url: &str) -> (extension: Option<String>)
    ensures
        extension.deep_view() == url_extension(url@),
{
    match url_path(url) {
        Some(path) => path_extension(path.as_str()),
        None => None,
    }
}

/// The path `directory/id.extension`.
pub fn asset_path(directory: &str, id: &str, extension: &str) -> (path: String)
    ensures
        path@ == file_path(directory@, id@, extension@),
{
    let mut path = String::from_str(directory);
    push_char(&mut path, '/');
    path.append(id);
    push_char(&mut path, '.');
    path.append(extension);
    path
}

/// The file that the asset at `url`, which belongs to sticker `id`, is
/// written to under `directory`. An asset whose URL names no extension is
/// not stored.
pub fn download_target(url: &str, id: &str, directory: &str) -> (target: Result<
    String,
    CrawlError,
>)
    ensures
        match url_extension(url@) {
            Some(extension) => target matches Ok(path) && path@ == file_path(
                directory@,
                id@,
                extension,
            ),
            None => target == Err::<String, CrawlError>(CrawlError::NoExtension),
        },
{
    match extract_file_extension(url) {
        Some(extension) => Ok(asset_path(directory, id, extension.as_str())),
        None => Err(CrawlError::NoExtension),
    }
}

} // verus!
