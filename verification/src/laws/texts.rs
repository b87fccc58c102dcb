//! What the order of texts, decimal numbers, two's complement and trimming mean.

use crate::number::{decimal, digit, twos_complement};
use crate::text::{
    optional_str, optional_text, precedes, text_pairs, texts, trimmed, trimmed_end, trimmed_start,
    white_space,
};
use vstd::prelude::*;

verus! {

/// A text stands before another exactly where, at the first place where they differ, it has the
/// character with the smaller code point or has ended.
pub proof fn law_order_is_lexicographic(a: Seq<char>, b: Seq<char>)
    ensures
        precedes(a, b) <==> exists|n: int|
            {
                &&& 0 <= n <= a.len()
                &&& n < b.len()
                &&& #[trigger] a.take(n) == b.take(n)
                &&& n == a.len() || (a[n] as u32) < (b[n] as u32)
            },
    decreases a.len(),
{
    if a.len() > 0 && b.len() > 0 && a[0] == b[0] {
        let x = a.drop_first();
        let y = b.drop_first();
        law_order_is_lexicographic(x, y);
        if precedes(x, y) {
            let n = choose|n: int|
                {
                    &&& 0 <= n <= x.len()
                    &&& n < y.len()
                    &&& #[trigger] x.take(n) == y.take(n)
                    &&& n == x.len() || (x[n] as u32) < (y[n] as u32)
                };
            assert(a.take(n + 1) =~= seq![a[0]] + x.take(n));
            assert(b.take(n + 1) =~= seq![b[0]] + y.take(n));
            assert(a.take(n + 1) == b.take(n + 1));
        }
        if exists|n: int|
            {
                &&& 0 <= n <= a.len()
                &&& n < b.len()
                &&& #[trigger] a.take(n) == b.take(n)
                &&& n == a.len() || (a[n] as u32) < (b[n] as u32)
            } {
            let n = choose|n: int|
                {
                    &&& 0 <= n <= a.len()
                    &&& n < b.len()
                    &&& #[trigger] a.take(n) == b.take(n)
                    &&& n == a.len() || (a[n] as u32) < (b[n] as u32)
                };
            assert(n > 0);
            assert(x.take(n - 1) =~= a.take(n).drop_first());
            assert(y.take(n - 1) =~= b.take(n).drop_first());
            assert(x.take(n - 1) == y.take(n - 1));
        }
    } else if b.len() > 0 {
        assert(a.take(0) =~= b.take(0));
        assert forall|n: int| 0 < n <= a.len() && n < b.len() implies #[trigger] a.take(n) != b.take(
            n,
        ) by {
            assert(a.take(n)[0] == a[0]);
            assert(b.take(n)[0] == b[0]);
        }
    }
}

/// What strings hold is taken as it is, one for one.
pub proof fn law_strings_are_taken_as_they_are(
    string: String,
    slice: &str,
    strings: Seq<String>,
    pairs: Seq<(String, String)>,
)
    ensures
        optional_text(None) is None,
        optional_text(Some(string)) == Some(string@),
        optional_str(None) is None,
        optional_str(Some(slice)) == Some(slice@),
        texts(strings).len() == strings.len(),
        forall|i: int| 0 <= i < strings.len() ==> #[trigger] texts(strings)[i] == strings[i]@,
        text_pairs(pairs).len() == pairs.len(),
        forall|i: int|
            0 <= i < pairs.len() ==> #[trigger] text_pairs(pairs)[i] == (pairs[i].0@, pairs[i].1@),
{
}

/// The number that a text of decimal digits stands for.
pub open spec fn decimal_value(text: Seq<char>) -> int
    decreases text.len(),
{
    if text.len() == 0 {
        0
    } else {
        decimal_value(text.drop_last()) * 10 + (text.last() as u32 - '0' as u32)
    }
}

/// The decimal text of a number consists of digits, stands for the number, and has no leading zero.
pub proof fn law_decimal_reads_back(value: nat)
    ensures
        decimal(value).len() > 0,
        forall|i: int| 0 <= i < decimal(value).len() ==> '0' <= #[trigger] decimal(value)[i] <= '9',
        decimal_value(decimal(value)) == value,
        decimal(value)[0] == '0' ==> value == 0 && decimal(value).len() == 1,
    decreases value,
{
    reveal_with_fuel(decimal_value, 2);
    if value < 10 {
        assert(decimal(value) =~= seq![digit(value)]);
        assert(decimal(value).drop_last() =~= seq![]);
    } else {
        law_decimal_reads_back(value / 10);
        let text = decimal(value);
        assert(text.drop_last() =~= decimal(value / 10));
        assert(text.last() == digit(value % 10));
        assert(text[0] == decimal(value / 10)[0]);
        assert forall|i: int| 0 <= i < text.len() implies '0' <= #[trigger] text[i] <= '9' by {
            if i < text.len() - 1 {
                assert(text[i] == decimal(value / 10)[i]);
            }
        }
    }
}

/// Two's complement keeps a number that fits and takes 2^64 from one that does not.
pub proof fn law_twos_complement_keeps_bits(value: u64)
    ensures
        i64::MIN <= twos_complement(value) <= i64::MAX,
        value <= i64::MAX ==> twos_complement(value) == value,
        value > i64::MAX ==> twos_complement(value) == value - 0x1_0000_0000_0000_0000,
{
}

/// Leading white space is all that `trimmed_start` takes away.
proof fn lemma_trimmed_start(text: Seq<char>) -> (n: int)
    ensures
        0 <= n <= text.len(),
        trimmed_start(text) == text.skip(n),
        forall|i: int| 0 <= i < n ==> white_space(#[trigger] text[i]),
        n < text.len() ==> !white_space(text[n]),
    decreases text.len(),
{
    if text.len() > 0 && white_space(text[0]) {
        let n = lemma_trimmed_start(text.drop_first());
        assert(text.drop_first().skip(n) =~= text.skip(n + 1));
        assert forall|i: int| 0 <= i < n + 1 implies white_space(#[trigger] text[i]) by {
            if i > 0 {
                assert(text.drop_first()[i - 1] == text[i]);
            }
        }
        n + 1
    } else {
        assert(text.skip(0) =~= text);
        0
    }
}

/// Trailing white space is all that `trimmed_end` takes away.
proof fn lemma_trimmed_end(text: Seq<char>) -> (n: int)
    ensures
        0 <= n <= text.len(),
        trimmed_end(text) == text.take(n),
        forall|i: int| n <= i < text.len() ==> white_space(#[trigger] text[i]),
        n > 0 ==> !white_space(text[n - 1]),
    decreases text.len(),
{
    if text.len() > 0 && white_space(text.last()) {
        let n = lemma_trimmed_end(text.drop_last());
        assert(text.drop_last().take(n) =~= text.take(n));
        assert forall|i: int| n <= i < text.len() implies white_space(#[trigger] text[i]) by {
            if i < text.len() - 1 {
                assert(text.drop_last()[i] == text[i]);
            }
        }
        n
    } else {
        assert(text.take(text.len() as int) =~= text);
        text.len() as int
    }
}

/// Trimming takes away white space at both ends, all of it and nothing else. Gives where the rest
/// begins and ends.
pub proof fn law_trimmed_takes_white_space_only(text: Seq<char>) -> (ends: (int, int))
    ensures
        0 <= ends.0 <= ends.1 <= text.len(),
        trimmed(text) == text.subrange(ends.0, ends.1),
        forall|i: int| 0 <= i < ends.0 ==> white_space(#[trigger] text[i]),
        forall|i: int| ends.1 <= i < text.len() ==> white_space(#[trigger] text[i]),
        ends.0 < ends.1 ==> !white_space(text[ends.0]) && !white_space(text[ends.1 - 1]),
{
    let start = lemma_trimmed_start(text);
    let rest = text.skip(start);
    let len = lemma_trimmed_end(rest);
    assert(rest.take(len) =~= text.subrange(start, start + len));
    assert forall|i: int| start + len <= i < text.len() implies white_space(#[trigger] text[i]) by {
        assert(rest[i - start] == text[i]);
    }
    (start, start + len)
}

} // verus!
