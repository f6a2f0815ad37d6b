//! Plain-text helpers: conversion between strings and character vectors,
//! word counting, and decimal formatting.

use vstd::prelude::*;

verus! {

/// Relies on `str::chars` and `Iterator::collect`: the characters of the
/// string, in order.
#[verifier::external_body]
pub(crate) fn str_to_chars(s: &str) -> (v: Vec<char>)
    ensures
        v@ == s@,
{
    s.chars().collect()
}

/// Relies on `Iterator::collect` for `String`: the string made of exactly
/// these characters, in order.
#[verifier::external_body]
pub(crate) fn chars_to_string(v: &Vec<char>) -> (s: String)
    ensures
        s@ == v@,
{
    v.iter().collect()
}

/// The characters the library treats as word separators: the ASCII
/// whitespace set. Unusual Unicode spaces count as word characters, for
/// the reading time and the description truncation alike.
pub open spec fn is_space_char(c: char) -> bool {
    c == ' ' || c == '\t' || c == '\n' || c == '\r' || c == '\u{b}' || c == '\u{c}'
}

pub fn is_space(c: char) -> (r: bool)
    ensures
        r == is_space_char(c),
{
    c == ' ' || c == '\t' || c == '\n' || c == '\r' || c == '\u{b}' || c == '\u{c}'
}

/// Number of maximal runs of non-separator characters in `s`, where
/// `prev_space` says whether the character just before `s` was a separator.
pub open spec fn word_count_from(s: Seq<char>, prev_space: bool) -> nat
    decreases s.len(),
{
    if s.len() == 0 {
        0
    } else {
        (if prev_space && !is_space_char(s[0]) {
            1nat
        } else {
            0nat
        }) + word_count_from(s.drop_first(), is_space_char(s[0]))
    }
}

/// Number of whitespace-delimited words in a text.
pub open spec fn word_count(s: Seq<char>) -> nat {
    word_count_from(s, true)
}

/// Counts the whitespace-delimited words of a text.
pub fn count_words(v: &Vec<char>) -> (r: usize)
    ensures
        r == word_count(v@),
{
    let mut i: usize = 0;
    let mut count: usize = 0;
    let mut prev_space: bool = true;
    proof {
        assert(v@.skip(0) == v@);
    }
    while i < v.len()
        invariant
            0 <= i <= v@.len(),
            count <= i,
            word_count(v@) == count + word_count_from(v@.skip(i as int), prev_space),
        decreases v@.len() - i,
    {
        let c = v[i];
        proof {
            assert(v@.skip(i as int).drop_first() == v@.skip(i + 1));
            assert(v@.skip(i as int)[0] == v@[i as int]);
        }
        if prev_space && !is_space(c) {
            count = count + 1;
        }
        prev_space = is_space(c);
        i = i + 1;
    }
    proof {
        assert(v@.skip(v@.len() as int).len() == 0);
    }
    count
}

/// The decimal digit `d` as a character; meaningful for `0 <= d <= 9`.
pub open spec fn digit_char(d: int) -> char {
    if d == 0 {
        '0'
    } else if d == 1 {
        '1'
    } else if d == 2 {
        '2'
    } else if d == 3 {
        '3'
    } else if d == 4 {
        '4'
    } else if d == 5 {
        '5'
    } else if d == 6 {
        '6'
    } else if d == 7 {
        '7'
    } else if d == 8 {
        '8'
    } else {
        '9'
    }
}

/// The decimal representation of `n`, without leading zeros (except for 0
/// itself).
pub open spec fn dec_chars(n: nat) -> Seq<char>
    decreases n,
{
    if n < 10 {
        seq![digit_char(n as int)]
    } else {
        dec_chars(n / 10) + seq![digit_char((n % 10) as int)]
    }
}

/// The decimal representation of `n`, zero-padded on the left to two digits.
pub open spec fn dec_chars_pad2(n: nat) -> Seq<char> {
    if n < 10 {
        seq!['0'] + dec_chars(n)
    } else {
        dec_chars(n)
    }
}

/// The decimal representation of `n`, zero-padded on the left to four
/// digits.
pub open spec fn dec_chars_pad4(n: nat) -> Seq<char> {
    if n < 10 {
        seq!['0', '0', '0'] + dec_chars(n)
    } else if n < 100 {
        seq!['0', '0'] + dec_chars(n)
    } else if n < 1000 {
        seq!['0'] + dec_chars(n)
    } else {
        dec_chars(n)
    }
}

fn digit_to_char(d: u32) -> (c: char)
    requires
        d <= 9,
    ensures
        c == digit_char(d as int),
{
    if d == 0 {
        '0'
    } else if d == 1 {
        '1'
    } else if d == 2 {
        '2'
    } else if d == 3 {
        '3'
    } else if d == 4 {
        '4'
    } else if d == 5 {
        '5'
    } else if d == 6 {
        '6'
    } else if d == 7 {
        '7'
    } else if d == 8 {
        '8'
    } else {
        '9'
    }
}

/// Appends the decimal representation of `n` to `out`.
pub fn push_decimal(n: u32, out: &mut Vec<char>)
    ensures
        final(out)@ == old(out)@ + dec_chars(n as nat),
    decreases n,
{
    if n < 10 {
        out.push(digit_to_char(n));
    } else {
        push_decimal(n / 10, out);
        out.push(digit_to_char(n % 10));
        proof {
            assert(old(out)@ + dec_chars((n / 10) as nat) + seq![
                digit_char((n % 10) as int),
            ] == old(out)@ + dec_chars(n as nat));
        }
    }
}

/// Appends the decimal representation of `n`, zero-padded to two digits.
pub fn push_decimal_pad2(n: u32, out: &mut Vec<char>)
    ensures
        final(out)@ == old(out)@ + dec_chars_pad2(n as nat),
{
    if n < 10 {
        out.push('0');
    }
    push_decimal(n, out);
    proof {
        if n < 10 {
            assert(old(out)@ + seq!['0'] + dec_chars(n as nat) == old(out)@ + dec_chars_pad2(
                n as nat,
            ));
        }
    }
}

/// Appends the decimal representation of `n`, zero-padded to four digits.
pub fn push_decimal_pad4(n: u32, out: &mut Vec<char>)
    ensures
        final(out)@ == old(out)@ + dec_chars_pad4(n as nat),
{
    if n < 10 {
        out.push('0');
        out.push('0');
        out.push('0');
    } else if n < 100 {
        out.push('0');
        out.push('0');
    } else if n < 1000 {
        out.push('0');
    }
    push_decimal(n, out);
    proof {
        if n < 10 {
            assert(old(out)@ + seq!['0', '0', '0'] + dec_chars(n as nat) =~= old(out)@
                + dec_chars_pad4(n as nat));
        } else if n < 100 {
            assert(old(out)@ + seq!['0', '0'] + dec_chars(n as nat) =~= old(out)@ + dec_chars_pad4(
                n as nat,
            ));
        } else if n < 1000 {
            assert(old(out)@ + seq!['0'] + dec_chars(n as nat) =~= old(out)@ + dec_chars_pad4(
                n as nat,
            ));
        }
    }
}

/// Appends every character of `s` to `out`.
pub fn push_chars(s: &Vec<char>, out: &mut Vec<char>)
    ensures
        final(out)@ == old(out)@ + s@,
{
    let mut i: usize = 0;
    while i < s.len()
        invariant
            0 <= i <= s@.len(),
            out@ == old(out)@ + s@.take(i as int),
        decreases s@.len() - i,
    {
        out.push(s[i]);
        proof {
            assert(old(out)@ + s@.take(i as int) + seq![s@[i as int]] == old(out)@ + s@.take(
                i + 1,
            ));
        }
        i = i + 1;
    }
    proof {
        assert(s@.take(s@.len() as int) == s@);
    }
}

/// Appends every character of the string `s` to `out`.
pub fn push_str_chars(s: &str, out: &mut Vec<char>)
    ensures
        final(out)@ == old(out)@ + s@,
{
    let cs = str_to_chars(s);
    push_chars(&cs, out);
}

} // verus!
