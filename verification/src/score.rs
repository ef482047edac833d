//! Scoring: the points a destroyed hazard is worth, the saturating score
//! counter, and the parser for the persisted high-score text.

use vstd::prelude::*;
use crate::entities::{MAX_SIZE, SUBUNITS};

verus! {

/// ASCII '+'.
pub const ASCII_PLUS: u8 = 43;

/// ASCII '0'.
pub const ASCII_ZERO: u8 = 48;

/// ASCII '9'.
pub const ASCII_NINE: u8 = 57;

/// Points awarded for destroying a hazard: its edge length rounded to whole
/// screen units, then halved (truncating).
pub open spec fn points_for(size: int) -> int {
    ((size + SUBUNITS / 2) / (SUBUNITS as int)) / 2
}

/// `a + b`, saturating at `u32::MAX`.
pub open spec fn sat_add_u32(a: u32, b: u32) -> u32 {
    if a + b <= u32::MAX {
        (a + b) as u32
    } else {
        u32::MAX
    }
}

/// The larger of two counters.
pub open spec fn max_u32(a: u32, b: u32) -> u32 {
    if a >= b {
        a
    } else {
        b
    }
}

/// Points awarded for destroying a hazard of the given edge length.
pub fn hazard_points(size: i64) -> (r: u32)
    requires
        0 < size <= MAX_SIZE,
    ensures
        r == points_for(size as int),
{
    let p: i64 = ((size + SUBUNITS / 2) / SUBUNITS) / 2;
    assert(0 <= p <= MAX_SIZE);
    p as u32
}

/// Add `amount` to the score, saturating, and raise the high score to match
/// if the score passed it.
pub fn bump_score(score: &mut u32, high: &mut u32, amount: u32)
    ensures
        *final(score) == sat_add_u32(*old(score), amount),
        *final(high) == max_u32(*old(high), *final(score)),
{
    if *score <= u32::MAX - amount {
        *score = *score + amount;
    } else {
        *score = u32::MAX;
    }
    if *score > *high {
        *high = *score;
    }
}

/// The numeric value of a sequence of ASCII digits, most significant first.
pub open spec fn digits_value(s: Seq<u8>) -> int
    decreases s.len(),
{
    if s.len() == 0 {
        0
    } else {
        digits_value(s.drop_last()) * 10 + (s.last() - ASCII_ZERO)
    }
}

/// Every byte of `s` is an ASCII digit.
pub open spec fn all_digits(s: Seq<u8>) -> bool {
    forall|i: int| 0 <= i < s.len() ==> ASCII_ZERO <= #[trigger] s[i] <= ASCII_NINE
}

/// The value the stored high-score text denotes: an optional leading '+',
/// then one or more digits, denoting a value that fits in `u32`; anything
/// else counts as 0.
pub open spec fn parsed_high_score(s: Seq<u8>) -> u32 {
    let digits = if s.len() > 0 && s[0] == ASCII_PLUS {
        s.subrange(1, s.len() as int)
    } else {
        s
    };
    if digits.len() > 0 && all_digits(digits) && digits_value(digits) <= u32::MAX {
        digits_value(digits) as u32
    } else {
        0
    }
}

/// A digit string has a non-negative value.
proof fn lemma_digits_value_nonneg(s: Seq<u8>)
    requires
        all_digits(s),
    ensures
        digits_value(s) >= 0,
    decreases s.len(),
{
    if s.len() > 0 {
        assert(all_digits(s.drop_last())) by {
            assert(forall|i: int|
                0 <= i < s.drop_last().len() ==> s.drop_last()[i] == #[trigger] s[i]);
        }
        lemma_digits_value_nonneg(s.drop_last());
    }
}

/// Dropping a suffix of a digit string cannot increase its value.
proof fn lemma_digits_value_prefix_le(s: Seq<u8>, k: int)
    requires
        all_digits(s),
        0 <= k <= s.len(),
    ensures
        digits_value(s.take(k)) <= digits_value(s),
    decreases s.len() - k,
{
    if k == s.len() {
        assert(s.take(k) =~= s);
    } else {
        assert(all_digits(s.drop_last())) by {
            assert(forall|i: int|
                0 <= i < s.drop_last().len() ==> s.drop_last()[i] == #[trigger] s[i]);
        }
        assert(s.take(k) =~= s.drop_last().take(k));
        lemma_digits_value_prefix_le(s.drop_last(), k);
        lemma_digits_value_nonneg(s.drop_last());
    }
}

/// Parse the stored high-score text.  Returns the denoted value, or 0 for
/// anything that is not a plain non-negative integer in range.
pub fn parse_high_score(text: &Vec<u8>) -> (r: u32)
    ensures
        r == parsed_high_score(text@),
{
    let n = text.len();
    let start: usize = if n > 0 && text[0] == ASCII_PLUS {
        1
    } else {
        0
    };
    if start == n {
        return 0;
    }
    let ghost digits = if text@.len() > 0 && text@[0] == ASCII_PLUS {
        text@.subrange(1, text@.len() as int)
    } else {
        text@
    };
    assert(digits.len() == n - start);
    assert(forall|j: int| 0 <= j < digits.len() ==> #[trigger] digits[j] == text@[start + j]);
    let mut acc: u64 = 0;
    let mut i: usize = start;
    while i < n
        invariant
            start <= i <= n,
            n == text@.len(),
            digits == (if text@.len() > 0 && text@[0] == ASCII_PLUS {
                text@.subrange(1, text@.len() as int)
            } else {
                text@
            }),
            digits.len() == n - start,
            forall|j: int| 0 <= j < digits.len() ==> #[trigger] digits[j] == text@[start + j],
            all_digits(digits.take(i - start)),
            acc == digits_value(digits.take(i - start)),
            acc <= u32::MAX,
        decreases n - i,
    {
        let c = text[i];
        if c < ASCII_ZERO || c > ASCII_NINE {
            assert(digits[i - start] == c);
            assert(!all_digits(digits));
            return 0;
        }
        let d: u64 = (c - ASCII_ZERO) as u64;
        proof {
            let pre = digits.take(i - start);
            let ext = digits.take(i + 1 - start);
            assert(ext.drop_last() =~= pre);
            assert(ext.last() == digits[i - start]);
        }
        acc = acc * 10 + d;
        proof {
            let pre = digits.take(i - start);
            let ext = digits.take(i + 1 - start);
            assert(digits_value(ext) == digits_value(pre) * 10 + (digits[i - start] - ASCII_ZERO));
            assert(acc == digits_value(ext));
        }
        if acc > u32::MAX as u64 {
            proof {
                let ext = digits.take(i + 1 - start);
                if all_digits(digits) {
                    lemma_digits_value_prefix_le(digits, i + 1 - start);
                    assert(digits_value(digits) >= digits_value(ext));
                    assert(digits_value(digits) > u32::MAX);
                }
                assert(parsed_high_score(text@) == 0);
            }
            return 0;
        }
        i = i + 1;
    }
    assert(digits =~= digits.take(i - start));
    acc as u32
}

/// Seed the running high score from the persisted store: a missing store
/// counts as 0, and unparsable contents count as 0.
pub fn load_high_score(stored: Option<&Vec<u8>>) -> (r: u32)
    ensures
        r == match stored {
            Option::None => 0u32,
            Option::Some(t) => parsed_high_score(t@),
        },
{
    match stored {
        Option::None => 0,
        Option::Some(t) => parse_high_score(t),
    }
}

} // verus!
