//! Texts: what the machine does with strings, character by character.

use crate::comparison::{compare_texts, Comparison};
use core::cmp::Ordering;
use vstd::prelude::*;

verus! {

/// Whether a character is white space: the Unicode property `White_Space`, as
/// `char::is_whitespace` decides it.
pub uninterp spec fn is_whitespace(c: char) -> bool;

/// The first position from `from` on that holds no white space.
pub open spec fn trim_start(s: Seq<char>, from: int) -> int
    decreases s.len() - from,
{
    if 0 <= from < s.len() && is_whitespace(s[from]) {
        trim_start(s, from + 1)
    } else {
        from
    }
}

/// The position behind the last character before `to` that is no white
/// space, not going below `from`.
pub open spec fn trim_end(s: Seq<char>, from: int, to: int) -> int
    decreases to - from,
{
    if from < to <= s.len() && is_whitespace(s[to - 1]) {
        trim_end(s, from, to - 1)
    } else {
        to
    }
}

/// A text without the white space at its start and at its end.
pub open spec fn trimmed(s: Seq<char>) -> Seq<char> {
    let from = trim_start(s, 0);
    s.subrange(from, trim_end(s, from, s.len() as int))
}

/// The parts of a list, with a separator between each two neighbours.
pub open spec fn join(parts: Seq<Seq<char>>, separator: Seq<char>) -> Seq<char>
    decreases parts.len(),
{
    if parts.len() == 0 {
        Seq::empty()
    } else if parts.len() == 1 {
        parts[0]
    } else {
        join(parts.drop_last(), separator) + separator + parts.last()
    }
}

/// The character whose code point is a byte.
pub open spec fn byte_char(b: u8) -> char {
    b as char
}

/// The lowest eight bits of a character's code point.
pub open spec fn char_byte(c: char) -> u8 {
    ((c as u32) % 256) as u8
}

/// Trusted: `String::push` appends one character.
#[verifier::external_body]
pub(crate) fn push_char(s: &mut String, c: char)
    ensures
        final(s)@ == old(s)@.push(c),
{
    s.push(c)
}

/// Trusted: `String::pop` removes the last character and returns it, or
/// returns `None` and leaves an empty string as it is.
#[verifier::external_body]
pub(crate) fn pop_char(s: &mut String) -> (r: Option<char>)
    ensures
        match r {
            Some(c) => old(s)@.len() > 0 && c == old(s)@.last() && final(s)@ == old(
                s,
            )@.drop_last(),
            None => old(s)@.len() == 0 && final(s)@ == old(s)@,
        },
{
    s.pop()
}

/// Trusted: `char::is_whitespace` depends on the character alone; its result
/// is named [`is_whitespace`].
#[verifier::external_body]
pub(crate) fn char_is_whitespace(c: char) -> (r: bool)
    ensures
        r == is_whitespace(c),
{
    c.is_whitespace()
}

/// Trusted: `Ord::cmp` on `str` orders strings lexicographically by their
/// bytes, which for UTF-8 is the lexicographic order by code points.
#[verifier::external_body]
pub(crate) fn compare_strs(a: &str, b: &str) -> (r: Comparison)
    ensures
        r == compare_texts(a@, b@),
{
    match a.cmp(b) {
        Ordering::Less => Comparison::Less,
        Ordering::Equal => Comparison::Equal,
        Ordering::Greater => Comparison::Greater,
    }
}

/// The characters of a text.
pub fn chars_of(s: &str) -> (r: Vec<char>)
    ensures
        r@ == s@,
{
    let mut out: Vec<char> = Vec::new();
    for c in it: s.chars()
        invariant
            out@ == it.seq().take(it.index() as int),
            it.seq() == s@,
    {
        out.push(c);
        proof {
            assert(it.seq().take(it.index() + 1) =~= it.seq().take(it.index() as int).push(c));
        }
    }
    proof {
        assert(s@.take(s@.len() as int) =~= s@);
    }
    out
}

/// The text made of the characters from `from` up to `to`.
pub fn text_of(chars: &Vec<char>, from: usize, to: usize) -> (r: String)
    requires
        from <= to <= chars.len(),
    ensures
        r@ == chars@.subrange(from as int, to as int),
{
    let mut out = String::new();
    let mut i: usize = from;
    while i < to
        invariant
            from <= i <= to <= chars.len(),
            out@ == chars@.subrange(from as int, i as int),
        decreases to - i,
    {
        push_char(&mut out, chars[i]);
        proof {
            assert(chars@.subrange(from as int, i + 1) =~= chars@.subrange(
                from as int,
                i as int,
            ).push(chars@[i as int]));
        }
        i += 1;
    }
    out
}

/// A text without the white space at its start and at its end.
pub fn trim(s: &str) -> (r: String)
    ensures
        r@ == trimmed(s@),
{
    let chars = chars_of(s);
    let mut from: usize = 0;
    while from < chars.len() && char_is_whitespace(chars[from])
        invariant
            from <= chars.len(),
            trim_start(chars@, 0) == trim_start(chars@, from as int),
        decreases chars.len() - from,
    {
        from += 1;
    }
    let mut to: usize = chars.len();
    while from < to && char_is_whitespace(chars[to - 1])
        invariant
            from <= to <= chars.len(),
            trim_end(chars@, from as int, chars.len() as int) == trim_end(
                chars@,
                from as int,
                to as int,
            ),
        decreases to - from,
    {
        to -= 1;
    }
    text_of(&chars, from, to)
}

/// Where the white space at the start of a text ends: everything before
/// that place is white space, and what stands there is not.
pub proof fn lemma_trim_start(s: Seq<char>, from: int)
    requires
        0 <= from <= s.len(),
    ensures
        from <= trim_start(s, from) <= s.len(),
        forall|i: int| from <= i < trim_start(s, from) ==> is_whitespace(#[trigger] s[i]),
        trim_start(s, from) < s.len() ==> !is_whitespace(s[trim_start(s, from)]),
    decreases s.len() - from,
{
    if from < s.len() && is_whitespace(s[from]) {
        lemma_trim_start(s, from + 1);
    }
}

/// Where the white space at the end of a text begins: everything from that
/// place on is white space, and what stands before it is not.
pub proof fn lemma_trim_end(s: Seq<char>, from: int, to: int)
    requires
        0 <= from <= to <= s.len(),
    ensures
        from <= trim_end(s, from, to) <= to,
        forall|i: int| trim_end(s, from, to) <= i < to ==> is_whitespace(#[trigger] s[i]),
        from < trim_end(s, from, to) ==> !is_whitespace(s[trim_end(s, from, to) - 1]),
    decreases to - from,
{
    if from < to && is_whitespace(s[to - 1]) {
        lemma_trim_end(s, from, to - 1);
    }
}

/// Trimming takes white space off and nothing else: the text is some white
/// space, what trimming leaves, and some white space again, and what is left
/// neither begins nor ends with white space.
pub proof fn lemma_trimmed(s: Seq<char>)
    ensures
        ({
            let from = trim_start(s, 0);
            let to = trim_end(s, from, s.len() as int);
            &&& 0 <= from <= to <= s.len()
            &&& s == s.subrange(0, from) + trimmed(s) + s.subrange(to, s.len() as int)
            &&& forall|i: int| 0 <= i < from ==> is_whitespace(#[trigger] s[i])
            &&& forall|i: int| to <= i < s.len() ==> is_whitespace(#[trigger] s[i])
            &&& trimmed(s).len() > 0 ==> !is_whitespace(trimmed(s).first()) && !is_whitespace(
                trimmed(s).last(),
            )
        }),
{
    let from = trim_start(s, 0);
    lemma_trim_start(s, 0);
    let to = trim_end(s, from, s.len() as int);
    lemma_trim_end(s, from, s.len() as int);
    assert(s =~= s.subrange(0, from) + trimmed(s) + s.subrange(to, s.len() as int));
}

} // verus!
