//! Decimal numbers as they are written in tags.

use crate::order::code_point;
use vstd::prelude::*;
use vstd::std_specs::iter::IteratorSpec;

verus! {

/// `c` is one of the digits `0` to `9`.
pub open spec fn is_digit(c: char) -> bool {
    48 <= code_point(c) <= 57
}

/// What the digit `c` counts for.
pub open spec fn digit_value(c: char) -> int {
    code_point(c) - 48
}

/// `s` holds digits only.
pub open spec fn all_digits(s: Seq<char>) -> bool {
    forall|i: int| 0 <= i < s.len() ==> is_digit(#[trigger] s[i])
}

/// The number that the digits `s` spell in base ten.
pub open spec fn decimal_value(s: Seq<char>) -> int
    decreases s.len(),
{
    if s.len() == 0 {
        0
    } else {
        10 * decimal_value(s.drop_last()) + digit_value(s.last())
    }
}

/// `s` without a leading `+`.
pub open spec fn unsigned_digits(s: Seq<char>) -> Seq<char> {
    if s.len() > 0 && s[0] == '+' {
        s.drop_first()
    } else {
        s
    }
}

/// The number that `s` spells: an optional `+`, then one digit or more and
/// nothing else, for a number that is at most `max`. Anything else spells no
/// number.
pub open spec fn parse_unsigned(s: Seq<char>, max: int) -> Option<int> {
    let digits = unsigned_digits(s);
    if digits.len() > 0 && all_digits(digits) && decimal_value(digits) <= max {
        Some(decimal_value(digits))
    } else {
        None
    }
}

/// How many characters stand in `s` before the first `c`; the length of `s`
/// where it holds no `c`.
pub open spec fn span_before(s: Seq<char>, c: char) -> int
    decreases s.len(),
{
    if s.len() == 0 || s[0] == c {
        0
    } else {
        1 + span_before(s.drop_first(), c)
    }
}

/// What stands in `s` before the first `-`.
pub open spec fn before_hyphen(s: Seq<char>) -> Seq<char> {
    s.take(span_before(s, '-'))
}

/// The track number that a tag's value spells, zero where it spells none.
pub open spec fn track_of(s: Seq<char>) -> u32 {
    match parse_unsigned(s, u32::MAX as int) {
        Some(v) => v as u32,
        None => 0,
    }
}

/// The year that a date spells: the number before the first `-`, zero where
/// that is no number.
pub open spec fn year_of(s: Seq<char>) -> i32 {
    match parse_unsigned(before_hyphen(s), i32::MAX as int) {
        Some(v) => v as i32,
        None => 0,
    }
}

/// The span before the first `c` is within `s` and free of `c`, and `c`
/// stands right behind it unless `s` ends there.
pub proof fn lemma_span_before(s: Seq<char>, c: char)
    ensures
        0 <= span_before(s, c) <= s.len(),
        forall|j: int| 0 <= j < span_before(s, c) ==> #[trigger] s[j] != c,
        span_before(s, c) < s.len() ==> s[span_before(s, c)] == c,
    decreases s.len(),
{
    if s.len() > 0 && s[0] != c {
        let t = s.drop_first();
        lemma_span_before(t, c);
        let n = span_before(t, c);
        assert forall|j: int| 0 <= j < n + 1 implies #[trigger] s[j] != c by {
            if j > 0 {
                assert(s[j] == t[j - 1]);
            }
        }
        if n < t.len() {
            assert(s[n + 1] == t[n]);
        }
    }
}

/// Digits spell a number that is not negative, and more digits behind them
/// do not make it smaller.
pub proof fn lemma_decimal_value_grows(s: Seq<char>, k: int)
    requires
        all_digits(s),
        0 <= k <= s.len(),
    ensures
        0 <= decimal_value(s.take(k)) <= decimal_value(s),
    decreases s.len() - k,
{
    if k == s.len() {
        assert(s.take(k) =~= s);
        lemma_decimal_value_grows_base(s);
    } else {
        lemma_decimal_value_grows(s, k + 1);
        assert(s.take(k + 1).drop_last() =~= s.take(k));
        assert(is_digit(s[k]));
        assert(s.take(k + 1).last() == s[k]);
        lemma_decimal_value_grows_base(s.take(k));
    }
}

/// Digits spell a number that is not negative.
proof fn lemma_decimal_value_grows_base(s: Seq<char>)
    requires
        all_digits(s),
    ensures
        0 <= decimal_value(s),
    decreases s.len(),
{
    if s.len() > 0 {
        assert(is_digit(s.last()));
        assert forall|i: int| 0 <= i < s.drop_last().len() implies is_digit(
            #[trigger] s.drop_last()[i],
        ) by {
            assert(s.drop_last()[i] == s[i]);
        }
        lemma_decimal_value_grows_base(s.drop_last());
    }
}

/// Reads the number that `s` spells, or that the part of `s` before the
/// first `-` spells.
fn parse_leading(s: &str, until_hyphen: bool, max: u32) -> (r: Option<u32>)
    ensures
        r matches Some(v) ==> parse_unsigned(
            if until_hyphen {
                before_hyphen(s@)
            } else {
                s@
            },
            max as int,
        ) == Some(v as int),
        r is None ==> parse_unsigned(
            if until_hyphen {
                before_hyphen(s@)
            } else {
                s@
            },
            max as int,
        ) is None,
{
    let mut it = s.chars();
    let ghost text = s@;
    let ghost mut i: int = 0;
    let ghost mut start: int = 0;
    let mut first = true;
    let mut any = false;
    let mut acc: u64 = 0;
    proof {
        lemma_span_before(text, '-');
        assert(text.skip(0) =~= text);
    }
    loop
        invariant
            it.decrease() is Some,
            text == s@,
            0 <= start <= i <= text.len(),
            start <= 1,
            it.remaining() == text.skip(i),
            first == (i == 0),
            start == 1 ==> text[0] == '+',
            start == 0 && i > 0 ==> text[0] != '+',
            until_hyphen ==> forall|j: int| 0 <= j < i ==> #[trigger] text[j] != '-',
            all_digits(text.subrange(start, i)),
            acc == decimal_value(text.subrange(start, i)),
            acc <= max,
            any == (i > start),
            0 <= span_before(text, '-') <= text.len(),
            forall|j: int| 0 <= j < span_before(text, '-') ==> #[trigger] text[j] != '-',
            span_before(text, '-') < text.len() ==> text[span_before(text, '-')] == '-',
        decreases it.decrease()->0,
    {
        let ghost end = if until_hyphen {
            span_before(text, '-')
        } else {
            text.len() as int
        };
        let ghost whole = text.take(end);
        proof {
            if !until_hyphen {
                assert(whole =~= text);
            }
        }
        match it.next() {
            None => {
                proof {
                    assert(i == text.len());
                    assert(end == i);
                    assert(unsigned_digits(whole) =~= text.subrange(start, i));
                }
                return if any {
                    Some(acc as u32)
                } else {
                    None
                };
            },
            Some(c) => {
                assert(c == text[i]);
                if until_hyphen && c == '-' {
                    proof {
                        assert(end == i);
                        assert(unsigned_digits(whole) =~= text.subrange(start, i));
                    }
                    return if any {
                        Some(acc as u32)
                    } else {
                        None
                    };
                }
                proof {
                    assert(end > i);
                }
                if first && c == '+' {
                    proof {
                        start = 1;
                        assert(text.subrange(1, 1) =~= Seq::<char>::empty());
                    }
                } else {
                    let ghost digits = unsigned_digits(whole);
                    proof {
                        assert(digits =~= text.subrange(start, end));
                        assert(digits[i - start] == c);
                    }
                    let v = c as u32;
                    if v < 48 || v > 57 {
                        return None;
                    }
                    let next = acc * 10 + (v - 48) as u64;
                    proof {
                        assert(text.subrange(start, i + 1).drop_last() =~= text.subrange(
                            start,
                            i,
                        ));
                        assert(next == decimal_value(text.subrange(start, i + 1)));
                        assert(digits.take(i + 1 - start) =~= text.subrange(start, i + 1));
                        if all_digits(digits) {
                            lemma_decimal_value_grows(digits, i + 1 - start);
                        }
                    }
                    if next > max as u64 {
                        return None;
                    }
                    acc = next;
                    any = true;
                    proof {
                        assert forall|j: int| 0 <= j < i + 1 - start implies is_digit(
                            #[trigger] text.subrange(start, i + 1)[j],
                        ) by {
                            if j < i - start {
                                assert(text.subrange(start, i)[j] == text.subrange(
                                    start,
                                    i + 1,
                                )[j]);
                            }
                        }
                    }
                }
                first = false;
                proof {
                    assert(text.skip(i).drop_first() =~= text.skip(i + 1));
                    i = i + 1;
                }
            },
        }
    }
}

/// Reads a track number from a tag's value; zero where it spells none.
pub fn parse_track(s: &str) -> (r: u32)
    ensures
        r == track_of(s@),
{
    match parse_leading(s, false, u32::MAX) {
        Some(v) => v,
        None => 0,
    }
}

/// Reads the year from a date; zero where no number stands before the first
/// `-`.
pub fn parse_year(s: &str) -> (r: i32)
    ensures
        r == year_of(s@),
{
    match parse_leading(s, true, 0x7fff_ffff) {
        Some(v) => v as i32,
        None => 0,
    }
}

} // verus!
