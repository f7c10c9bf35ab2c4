//! Directory names made from product titles.
//!
//! A title becomes a directory name by turning every `/` into `_` and
//! dropping the characters that file systems reserve.

use vstd::prelude::*;
use crate::text::{chars_of, push_char};

verus! {

/// The regular expression that matches one reserved character.
pub const RESERVED_CLASS: &'static str = "[<>:\"\\\\|?*]";

/// Whether `c` is one of `< > : " \ | ? *`.
pub open spec fn is_reserved(c: char) -> bool {
    c == '<' || c == '>' || c == ':' || c == '"' || c == '\\' || c == '|' || c == '?' || c == '*'
}

/// `_` for `/`, every other character as it is.
pub open spec fn without_slash(c: char) -> char {
    if c == '/' {
        '_'
    } else {
        c
    }
}

/// The directory name for the title `name`.
pub open spec fn sanitized(name: Seq<char>) -> Seq<char> {
    name.map_values(|c: char| without_slash(c)).filter(|c: char| !is_reserved(c))
}

/// `text` without the matches of `pattern`.
///
/// Trusted: calls `regex::Regex::new` and `regex::Regex::replace_all`. The
/// contract covers one pattern only, the bracketed class of the eight
/// reserved characters, and the empty replacement. That class matches exactly
/// one reserved character at a time, and `replace_all` replaces every
/// non-overlapping match, so what comes back is `text` with the reserved
/// characters left out and every other character in place.
#[verifier::external_body]
fn strip_matches(pattern: &str, text: &str, replacement: &str) -> (out: String)
    requires
        pattern@ == RESERVED_CLASS@,
        replacement@.len() == 0,
    ensures
        out@ == text@.filter(|c: char| !is_reserved(c)),
{
    regex::Regex::new(pattern).unwrap().replace_all(text, replacement).to_string()
}

/// Turns every `/` of `name` into `_`.
pub fn replace_slashes(name: &str) -> (out: String)
    ensures
        out@ == name@.map_values(|c: char| without_slash(c)),
{
    let chars = chars_of(name);
    let mut out = String::new();
    let mut i: usize = 0;
    while i < chars.len()
        invariant
            i <= chars.len(),
            chars@ == name@,
            out@ == name@.take(i as int).map_values(|c: char| without_slash(c)),
        decreases chars.len() - i,
    {
        let c = chars[i];
        push_char(&mut out, if c == '/' { '_' } else { c });
        i += 1;
    }
    out
}

/// The directory name for the title `name`.
pub fn sanitize_directory_name(name: &str) -> (out: String)
    ensures
        out@ == sanitized(name@),
{
    let replaced = replace_slashes(name);
    proof {
        reveal_strlit("");
    }
    strip_matches(RESERVED_CLASS, replaced.as_str(), "")
}

/// No character of a directory name is reserved, and none is `/`.
pub proof fn lemma_sanitized_is_safe(name: Seq<char>)
    ensures
        forall|i: int|
            0 <= i < sanitized(name).len() ==> !is_reserved(#[trigger] sanitized(name)[i])
                && sanitized(name)[i] != '/',
{
    let replaced = name.map_values(|c: char| without_slash(c));
    let keep = |c: char| !is_reserved(c);
    assert forall|i: int| 0 <= i < sanitized(name).len() implies !is_reserved(
        #[trigger] sanitized(name)[i],
    ) && sanitized(name)[i] != '/' by {
        replaced.lemma_filter_contains_rev(keep, sanitized(name)[i]);
    }
}

/// A directory name is made character by character: a reserved character
/// is dropped, `/` becomes `_`, and any other character is kept as it is.
pub proof fn lemma_sanitized_push(name: Seq<char>, c: char)
    ensures
        sanitized(Seq::<char>::empty()) == Seq::<char>::empty(),
        sanitized(name.push(c)) == if is_reserved(c) {
            sanitized(name)
        } else if c == '/' {
            sanitized(name).push('_')
        } else {
            sanitized(name).push(c)
        },
{
    let replace = |c: char| without_slash(c);
    let keep = |c: char| !is_reserved(c);
    assert(name.push(c).map_values(replace) == name.map_values(replace).push(without_slash(c)));
    name.map_values(replace).lemma_filter_push(without_slash(c), keep);
}

/// A title that holds no reserved character and no `/` is its own directory
/// name.
pub proof fn lemma_sanitized_keeps_clean_names(name: Seq<char>)
    requires
        forall|i: int| 0 <= i < name.len() ==> !is_reserved(#[trigger] name[i]) && name[i] != '/',
    ensures
        sanitized(name) == name,
    decreases name.len(),
{
    if name.len() == 0 {
        lemma_sanitized_push(name, 'a');
    } else {
        lemma_sanitized_keeps_clean_names(name.drop_last());
        lemma_sanitized_push(name.drop_last(), name.last());
        assert(name.drop_last().push(name.last()) == name);
    }
}

} // verus!
