//! Unsigned decimal numbers, read as `usize::from_str` reads them: an
//! optional `+`, then one or more ASCII digits, with no overflow.
use vstd::prelude::*;

verus! {

/// Every character is an ASCII digit.
pub open spec fn all_digits(s: Seq<char>) -> bool {
    forall|i: int| 0 <= i < s.len() ==> '0' <= #[trigger] s[i] <= '9'
}

/// The value of a string of digits.
pub open spec fn digits_value(s: Seq<char>) -> int
    decreases s.len(),
{
    if s.len() == 0 {
        0
    } else {
        digits_value(s.drop_last()) * 10 + (s.last() as int - '0' as int)
    }
}

/// The digits of `s`, without a leading `+`.
pub open spec fn unsigned_digits(s: Seq<char>) -> Seq<char> {
    if s.len() > 0 && s[0] == '+' {
        s.drop_first()
    } else {
        s
    }
}

/// The number that `s` writes, if it is well formed and fits in `usize`.
pub open spec fn decimal_value(s: Seq<char>) -> Option<usize> {
    let d = unsigned_digits(s);
    if d.len() > 0 && all_digits(d) && digits_value(d) <= usize::MAX {
        Some(digits_value(d) as usize)
    } else {
        None
    }
}

/// A value written in digits is never negative.
proof fn lemma_digits_value_nonneg(s: Seq<char>)
    requires
        all_digits(s),
    ensures
        0 <= digits_value(s),
    decreases s.len(),
{
    if s.len() > 0 {
        assert(all_digits(s.drop_last())) by {
            assert forall|i: int| 0 <= i < s.len() - 1 implies '0' <= #[trigger] s.drop_last()[i]
                <= '9' by {
                assert(s.drop_last()[i] == s[i]);
            }
        }
        lemma_digits_value_nonneg(s.drop_last());
        assert('0' <= s[s.len() - 1] <= '9');
    }
}

/// More digits never make a value smaller.
proof fn lemma_digits_value_grows(s: Seq<char>, i: int, j: int)
    requires
        0 <= i <= j <= s.len(),
        all_digits(s),
    ensures
        digits_value(s.take(i)) <= digits_value(s.take(j)),
    decreases j,
{
    if j > i {
        lemma_digits_value_grows(s, i, j - 1);
        assert(s.take(j).drop_last() =~= s.take(j - 1));
        assert(all_digits(s.take(j - 1))) by {
            assert forall|k: int| 0 <= k < j - 1 implies '0' <= #[trigger] s.take(j - 1)[k]
                <= '9' by {
                assert(s.take(j - 1)[k] == s[k]);
            }
        }
        lemma_digits_value_nonneg(s.take(j - 1));
        assert('0' <= s[j - 1] <= '9');
    }
}

/// Reads an unsigned decimal number.
pub fn parse_usize(s: &str) -> (r: Option<usize>)
    ensures
        r == decimal_value(s@),
{
    let n = s.unicode_len();
    let mut start: usize = 0;
    if n > 0 && s.get_char(0) == '+' {
        start = 1;
    }
    let ghost d = unsigned_digits(s@);
    assert(d =~= s@.subrange(start as int, n as int));
    if start == n {
        return None;
    }
    let mut value: usize = 0;
    let mut i: usize = start;
    while i < n
        invariant
            start <= i <= n,
            n == s@.len(),
            d =~= s@.subrange(start as int, n as int),
            d == unsigned_digits(s@),
            all_digits(d.take(i - start)),
            value == digits_value(d.take(i - start)),
        decreases n - i,
    {
        let c = s.get_char(i);
        let ghost k = (i - start) as int;
        assert(d[k] == c);
        if !('0' <= c && c <= '9') {
            assert(!all_digits(d));
            return None;
        }
        let digit = (c as u32 - '0' as u32) as usize;
        assert(d.take(k + 1).drop_last() =~= d.take(k));
        assert(all_digits(d.take(k + 1)));
        if value > (usize::MAX - digit) / 10 {
            proof {
                assert(value * 10 + digit > usize::MAX) by (nonlinear_arith)
                    requires
                        value > (usize::MAX - digit) / 10,
                        digit <= 9,
                ;
                if all_digits(d) {
                    lemma_digits_value_grows(d, k + 1, d.len() as int);
                    assert(d.take(d.len() as int) =~= d);
                }
            }
            return None;
        }
        assert(value * 10 + digit <= usize::MAX) by (nonlinear_arith)
            requires
                value <= (usize::MAX - digit) / 10,
                digit <= 9,
        ;
        value = value * 10 + digit;
        i = i + 1;
    }
    assert(d.take(n - start) =~= d);
    Some(value)
}

} // verus!
