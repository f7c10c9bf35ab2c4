//! Character-level helpers shared by the rest of the crate.
//!
//! Strings are viewed as sequences of characters. Executable code reads a
//! string once into a `Vec<char>` and builds its results character by
//! character, so every contract here is stated over `Seq<char>`.

use vstd::prelude::*;
use vstd::string::StringExecFns;

verus! {

/// Appends one character to `s`.
///
/// Trusted: wraps `String::push`, which std documents as appending the given
/// character to the end of the string.
#[verifier::external_body]
pub(crate) fn push_char(s: &mut String, c: char)
    ensures
        final(s)@ == old(s)@.push(c),
{
    s.push(c)
}

/// The characters of `s`, in order.
pub fn chars_of(s: &str) -> (out: Vec<char>)
    ensures
        out@ == s@,
{
    let mut out: Vec<char> = Vec::new();
    for c in it: s.chars()
        invariant
            it.seq() == s@,
            out@ == s@.take(it.index() as int),
    {
        out.push(c);
    }
    out
}

/// The string made of `chars[from..to]`.
pub fn string_from(chars: &Vec<char>, from: usize, to: usize) -> (out: String)
    requires
        from <= to <= chars.len(),
    ensures
        out@ == chars@.subrange(from as int, to as int),
{
    let mut out = String::new();
    let mut i: usize = from;
    while i < to
        invariant
            from <= i <= to <= chars.len(),
            out@ == chars@.subrange(from as int, i as int),
        decreases to - i,
    {
        push_char(&mut out, chars[i]);
        i += 1;
    }
    out
}

/// A copy of `chars[from..to]`.
pub fn slice_of(chars: &Vec<char>, from: usize, to: usize) -> (out: Vec<char>)
    requires
        from <= to <= chars.len(),
    ensures
        out@ == chars@.subrange(from as int, to as int),
{
    let mut out: Vec<char> = Vec::new();
    let mut i: usize = from;
    while i < to
        invariant
            from <= i <= to <= chars.len(),
            out@ == chars@.subrange(from as int, i as int),
        decreases to - i,
    {
        out.push(chars[i]);
        i += 1;
    }
    out
}

/// The concatenation of `a` and `b`.
pub fn connect(a: &str, b: &str) -> (out: String)
    ensures
        out@ == a@ + b@,
{
    let mut out = String::from_str(a);
    out.append(b);
    out
}

/// The position of the first `needle` in `chars`, if there is one.
pub fn find_first(chars: &Vec<char>, needle: char) -> (found: Option<usize>)
    ensures
        match found {
            Some(i) => chars@.index_of_first(needle) == Some(i as int),
            None => chars@.index_of_first(needle) is None,
        },
        found matches Some(i) ==> i < chars.len() && chars@[i as int] == needle,
{
    let mut i: usize = 0;
    while i < chars.len()
        invariant
            i <= chars.len(),
            forall|j: int| 0 <= j < i ==> chars@[j] != needle,
        decreases chars.len() - i,
    {
        if chars[i] == needle {
            proof {
                chars@.index_of_first_ensures(needle);
            }
            return Some(i);
        }
        i += 1;
    }
    proof {
        chars@.index_of_first_ensures(needle);
    }
    None
}

/// The position of the last `needle` in `chars`, if there is one.
pub fn find_last(chars: &Vec<char>, needle: char) -> (found: Option<usize>)
    ensures
        match found {
            Some(i) => chars@.index_of_last(needle) == Some(i as int),
            None => chars@.index_of_last(needle) is None,
        },
        found matches Some(i) ==> i < chars.len() && chars@[i as int] == needle,
{
    let mut i: usize = chars.len();
    while i > 0
        invariant
            i <= chars.len(),
            forall|j: int| i <= j < chars.len() ==> chars@[j] != needle,
        decreases i,
    {
        i -= 1;
        if chars[i] == needle {
            proof {
                chars@.index_of_last_ensures(needle);
            }
            return Some(i);
        }
    }
    proof {
        chars@.index_of_last_ensures(needle);
    }
    None
}

} // verus!
