//! Lexicographic order on text, by code point.

use std::cmp::Ordering;
use std::str::Chars;
use vstd::prelude::*;
use vstd::std_specs::iter::IteratorSpec;

verus! {

/// How one value stands to another in an order.
#[derive(Clone, Copy, Debug, PartialEq, Eq, Structural)]
pub enum Rank {
    /// The first value comes before the second.
    Before,
    /// Neither comes before the other.
    Same,
    /// The first value comes after the second.
    After,
}

impl Rank {
    /// The rank seen from the other side.
    pub open spec fn flip(self) -> Rank {
        match self {
            Rank::Before => Rank::After,
            Rank::Same => Rank::Same,
            Rank::After => Rank::Before,
        }
    }

    /// The rank in the words of the standard library.
    pub fn into_ordering(self) -> (r: Ordering)
        ensures
            r == ordering_of(self),
    {
        match self {
            Rank::Before => Ordering::Less,
            Rank::Same => Ordering::Equal,
            Rank::After => Ordering::Greater,
        }
    }

    /// This rank, unless it is `Same`: then `next` decides.
    pub open spec fn or(self, next: Rank) -> Rank {
        match self {
            Rank::Same => next,
            _ => self,
        }
    }
}

/// The rank in the words of the standard library.
pub open spec fn ordering_of(rank: Rank) -> Ordering {
    match rank {
        Rank::Before => Ordering::Less,
        Rank::Same => Ordering::Equal,
        Rank::After => Ordering::Greater,
    }
}

/// The rank of two integers.
pub open spec fn int_rank(a: int, b: int) -> Rank {
    if a < b {
        Rank::Before
    } else if a == b {
        Rank::Same
    } else {
        Rank::After
    }
}

/// The code point of a character.
pub open spec fn code_point(c: char) -> int {
    (c as u32) as int
}

/// Different characters have different code points.
pub proof fn lemma_code_point_injective(c: char, d: char)
    ensures
        code_point(c) == code_point(d) <==> c == d,
{
    vstd::utf8::char_u32_cast(c, c as u32);
    vstd::utf8::char_u32_cast(d, d as u32);
}

/// The rank of two texts: the first code point at which they differ decides,
/// and a text comes before every longer text that starts with it.
pub open spec fn lex_rank(a: Seq<char>, b: Seq<char>) -> Rank
    decreases a.len(),
{
    if a.len() == 0 {
        if b.len() == 0 {
            Rank::Same
        } else {
            Rank::Before
        }
    } else if b.len() == 0 {
        Rank::After
    } else if a[0] != b[0] {
        int_rank(code_point(a[0]), code_point(b[0]))
    } else {
        lex_rank(a.drop_first(), b.drop_first())
    }
}

/// Two texts rank the same exactly when they are the same text.
pub proof fn lemma_lex_same(a: Seq<char>, b: Seq<char>)
    ensures
        lex_rank(a, b) == Rank::Same <==> a == b,
    decreases a.len(),
{
    if a.len() > 0 && b.len() > 0 {
        lemma_code_point_injective(a[0], b[0]);
        if a[0] == b[0] {
            lemma_lex_same(a.drop_first(), b.drop_first());
            if a.drop_first() == b.drop_first() {
                assert(a =~= seq![a[0]] + a.drop_first());
                assert(b =~= seq![b[0]] + b.drop_first());
            }
        }
    }
    if a == b {
        assert(a.len() == b.len());
    }
    if a.len() == 0 && b.len() == 0 {
        assert(a =~= b);
    }
}

/// Swapping the two texts flips their rank.
pub proof fn lemma_lex_flip(a: Seq<char>, b: Seq<char>)
    ensures
        lex_rank(b, a) == lex_rank(a, b).flip(),
    decreases a.len(),
{
    if a.len() > 0 && b.len() > 0 {
        lemma_code_point_injective(a[0], b[0]);
        if a[0] == b[0] {
            lemma_lex_flip(a.drop_first(), b.drop_first());
        }
    }
}

/// The order of texts is transitive, and strict as soon as one step is.
pub proof fn lemma_lex_transitive(a: Seq<char>, b: Seq<char>, c: Seq<char>)
    requires
        lex_rank(a, b) != Rank::After,
        lex_rank(b, c) != Rank::After,
    ensures
        lex_rank(a, c) != Rank::After,
        lex_rank(a, b) == Rank::Before || lex_rank(b, c) == Rank::Before ==> lex_rank(a, c)
            == Rank::Before,
    decreases a.len(),
{
    if a.len() > 0 && b.len() > 0 && c.len() > 0 {
        lemma_code_point_injective(a[0], b[0]);
        lemma_code_point_injective(b[0], c[0]);
        lemma_code_point_injective(a[0], c[0]);
        if a[0] == b[0] && b[0] == c[0] {
            lemma_lex_transitive(a.drop_first(), b.drop_first(), c.drop_first());
        }
    }
}

/// Compares what two cursors have left to give.
pub(crate) fn rank_rest(a: Chars<'_>, b: Chars<'_>) -> (r: Rank)
    requires
        a.decrease() is Some,
    ensures
        r == lex_rank(a.remaining(), b.remaining()),
{
    let mut x = a;
    let mut y = b;
    loop
        invariant
            x.decrease() is Some,
            lex_rank(a.remaining(), b.remaining()) == lex_rank(x.remaining(), y.remaining()),
        decreases x.decrease()->0,
    {
        let p = x.next();
        let q = y.next();
        match (p, q) {
            (None, None) => {
                return Rank::Same;
            },
            (None, Some(_)) => {
                return Rank::Before;
            },
            (Some(_), None) => {
                return Rank::After;
            },
            (Some(c), Some(d)) => {
                if c != d {
                    proof {
                        lemma_code_point_injective(c, d);
                    }
                    return if (c as u32) < (d as u32) {
                        Rank::Before
                    } else {
                        Rank::After
                    };
                }
            },
        }
    }
}

/// Compares two texts.
pub fn rank_text(a: &str, b: &str) -> (r: Rank)
    ensures
        r == lex_rank(a@, b@),
{
    rank_rest(a.chars(), b.chars())
}

/// Whether two texts are the same.
pub fn same_text(a: &str, b: &str) -> (r: bool)
    ensures
        r == (a@ == b@),
{
    proof {
        lemma_lex_same(a@, b@);
    }
    rank_text(a, b) == Rank::Same
}

} // verus!
