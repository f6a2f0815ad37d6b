//! URL-safe slugs, computed by the `slug` crate.

use vstd::prelude::*;

verus! {

/// What `slug::slugify` returns for a given text. The result depends on the
/// characters alone.
pub uninterp spec fn slug_of(s: Seq<char>) -> Seq<char>;

/// A character that can appear in a slug: lower-case ASCII letters, digits,
/// and the hyphen.
pub open spec fn is_slug_char(c: char) -> bool {
    c == '-' || c == '0' || c == '1' || c == '2' || c == '3' || c == '4' || c == '5' || c == '6'
        || c == '7' || c == '8' || c == '9' || ('a' <= c && c <= 'z')
}

/// Every character of `s` can appear in a slug.
pub open spec fn all_slug_chars(s: Seq<char>) -> bool {
    forall|i: int| 0 <= i < s.len() ==> is_slug_char(#[trigger] s[i])
}

/// Relies on `slug::slugify`: a pure function of the input text whose result
/// consists of `a-z`, `0-9` and `-` only (so in particular it never contains
/// a dot or a path separator).
#[verifier::external_body]
pub(crate) fn slugify(s: &str) -> (r: String)
    ensures
        r@ == slug_of(s@),
        all_slug_chars(r@),
{
    slug::slugify(s)
}

} // verus!
