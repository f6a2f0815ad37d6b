//! Published locations of referenced assets: an image keeps its file name
//! and moves under the site's assets root.

use vstd::prelude::*;
use crate::text::{chars_to_string, push_chars, push_str_chars, str_to_chars};

verus! {

/// The file-name component of a path or URL: everything after the last `/`
/// (the whole text when there is no `/`).
pub open spec fn filename_of(s: Seq<char>) -> Seq<char>
    decreases s.len(),
{
    if s.len() == 0 {
        s
    } else if s.last() == '/' {
        Seq::empty()
    } else {
        filename_of(s.drop_last()) + seq![s.last()]
    }
}

/// The published path of an image: its file name under the `/img` assets
/// root.
pub open spec fn final_image_path(url: Seq<char>) -> Seq<char> {
    "/img/"@ + filename_of(url)
}

proof fn lemma_filename_suffix(s: Seq<char>, k: int)
    requires
        0 <= k <= s.len(),
        forall|i: int| k <= i < s.len() ==> s[i] != '/',
        k > 0 ==> s[k - 1] == '/',
    ensures
        filename_of(s) == s.skip(k),
    decreases s.len(),
{
    if s.len() == 0 {
        assert(filename_of(s) =~= s.skip(k));
    } else if k == s.len() {
        assert(s.last() == '/');
        assert(filename_of(s) =~= s.skip(k));
    } else {
        assert(s.last() != '/');
        let t = s.drop_last();
        lemma_filename_suffix(t, k);
        assert(filename_of(s) == filename_of(t) + seq![s.last()]);
        assert(t.skip(k) + seq![s.last()] =~= s.skip(k));
    }
}

/// Finds the index just after the last `/` of `s` (0 when there is none).
fn filename_start(s: &Vec<char>) -> (k: usize)
    ensures
        0 <= k <= s@.len(),
        forall|i: int| k <= i < s@.len() ==> s@[i] != '/',
        k > 0 ==> s@[k - 1] == '/',
        filename_of(s@) == s@.skip(k as int),
{
    let mut j: usize = s.len();
    while j > 0
        invariant
            0 <= j <= s@.len(),
            forall|i: int| j <= i < s@.len() ==> s@[i] != '/',
        decreases j,
    {
        if s[j - 1] == '/' {
            proof {
                lemma_filename_suffix(s@, j as int);
            }
            return j;
        }
        j = j - 1;
    }
    proof {
        lemma_filename_suffix(s@, 0);
    }
    0
}

/// Appends the file-name component of `s` to `out`.
pub fn push_filename(s: &Vec<char>, out: &mut Vec<char>)
    ensures
        final(out)@ == old(out)@ + filename_of(s@),
{
    let k = filename_start(s);
    let mut i: usize = k;
    while i < s.len()
        invariant
            k <= i <= s@.len(),
            out@ == old(out)@ + s@.subrange(k as int, i as int),
        decreases s@.len() - i,
    {
        out.push(s[i]);
        proof {
            assert(old(out)@ + s@.subrange(k as int, i as int) + seq![s@[i as int]] == old(out)@
                + s@.subrange(k as int, i + 1));
        }
        i = i + 1;
    }
    proof {
        assert(s@.subrange(k as int, s@.len() as int) =~= s@.skip(k as int));
    }
}

/// Rewrites an image URL to its published location: the file name kept,
/// namespaced under the `/img` assets root.
pub fn rewrite_image_url(url: &str) -> (r: String)
    ensures
        r@ == final_image_path(url@),
{
    let cs = str_to_chars(url);
    let mut out: Vec<char> = Vec::new();
    push_str_chars("/img/", &mut out);
    push_filename(&cs, &mut out);
    chars_to_string(&out)
}

} // verus!
