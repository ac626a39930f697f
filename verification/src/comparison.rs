//! The outcome of comparing two values, and the orders of integers and texts.

use core::cmp::Ordering;
use vstd::prelude::*;

verus! {

/// How one value stands to another in an order.
#[derive(Debug, Clone, Copy, PartialEq, Eq, Structural)]
pub enum Comparison {
    /// The first is below the second.
    Less,
    /// Neither is below the other.
    Equal,
    /// The first is above the second.
    Greater,
}

/// The order of the integers.
pub open spec fn compare_ints(a: int, b: int) -> Comparison {
    if a < b {
        Comparison::Less
    } else if a == b {
        Comparison::Equal
    } else {
        Comparison::Greater
    }
}

/// The order of booleans: `false` is below `true`.
pub open spec fn compare_bools(a: bool, b: bool) -> Comparison {
    compare_ints(
        if a {
            1
        } else {
            0
        },
        if b {
            1
        } else {
            0
        },
    )
}

/// The lexicographic order of texts by the code points of their characters:
/// the first place where two texts differ decides, and a text is above each
/// of its proper prefixes.
pub open spec fn compare_texts(a: Seq<char>, b: Seq<char>) -> Comparison
    decreases a.len(),
{
    if a.len() == 0 || b.len() == 0 {
        compare_ints(a.len() as int, b.len() as int)
    } else if a[0] != b[0] {
        compare_ints(a[0] as u32 as int, b[0] as u32 as int)
    } else {
        compare_texts(a.drop_first(), b.drop_first())
    }
}

impl Comparison {
    /// The order of two booleans.
    pub fn of_bools(a: bool, b: bool) -> (r: Comparison)
        ensures
            r == compare_bools(a, b),
    {
        if a == b {
            Comparison::Equal
        } else if b {
            Comparison::Less
        } else {
            Comparison::Greater
        }
    }

    /// The order of two lengths.
    pub fn of_lengths(a: usize, b: usize) -> (r: Comparison)
        ensures
            r == compare_ints(a as int, b as int),
    {
        if a < b {
            Comparison::Less
        } else if a == b {
            Comparison::Equal
        } else {
            Comparison::Greater
        }
    }
}

/// The outcome of a comparison in the terms of the standard library.
pub open spec fn ordering(c: Comparison) -> Ordering {
    match c {
        Comparison::Less => Ordering::Less,
        Comparison::Equal => Ordering::Equal,
        Comparison::Greater => Ordering::Greater,
    }
}

/// The outcome of a comparison that may have none, in the terms of the
/// standard library.
pub open spec fn partial_ordering(c: Option<Comparison>) -> Option<Ordering> {
    match c {
        Some(c) => Some(ordering(c)),
        None => None,
    }
}

/// The outcome of a comparison that may have none, in the terms of the
/// standard library.
pub fn to_partial_ordering(c: Option<Comparison>) -> (r: Option<Ordering>)
    ensures
        r == partial_ordering(c),
{
    match c {
        Some(Comparison::Less) => Some(Ordering::Less),
        Some(Comparison::Equal) => Some(Ordering::Equal),
        Some(Comparison::Greater) => Some(Ordering::Greater),
        None => None,
    }
}

/// The opposite outcome: what the second value is to the first.
pub open spec fn reversed(c: Comparison) -> Comparison {
    match c {
        Comparison::Less => Comparison::Greater,
        Comparison::Equal => Comparison::Equal,
        Comparison::Greater => Comparison::Less,
    }
}

/// Two texts compare as equal if and only if they are the same text, and
/// comparing them the other way round gives the opposite outcome.
pub proof fn lemma_compare_texts(a: Seq<char>, b: Seq<char>)
    ensures
        compare_texts(a, b) == Comparison::Equal <==> a == b,
        compare_texts(b, a) == reversed(compare_texts(a, b)),
    decreases a.len(),
{
    if a.len() == 0 || b.len() == 0 {
        if a.len() == 0 && b.len() == 0 {
            assert(a =~= b);
        }
    } else if a[0] == b[0] {
        lemma_compare_texts(a.drop_first(), b.drop_first());
        if a.drop_first() == b.drop_first() {
            assert(a =~= seq![a[0]] + a.drop_first());
            assert(b =~= seq![b[0]] + b.drop_first());
        }
    } else {
        vstd::utf8::char_u32_cast(a[0], a[0] as u32);
        vstd::utf8::char_u32_cast(b[0], b[0] as u32);
        assert(a[0] as u32 != b[0] as u32);
    }
}

} // verus!
