//! Parsing a lifetime value out of a label string.
//!
//! A label value is a base-10 non-negative integer written in seconds, with
//! an optional leading `+`. Anything else — an empty string, a sign other
//! than `+`, a non-digit, a value beyond the integer range — fails to parse.

use vstd::prelude::*;
use vstd::string::StrSliceExecFns;

verus! {

/// Whether `c` is a decimal digit.
pub open spec fn is_digit_char(c: char) -> bool {
    48 <= c as u32 <= 57
}

/// The numeric value of a digit character.
pub open spec fn digit_val(c: char) -> int {
    c as u32 - 48
}

/// Every character of `s` is a decimal digit.
pub open spec fn all_digits(s: Seq<char>) -> bool {
    forall|i: int| 0 <= i < s.len() ==> is_digit_char(#[trigger] s[i])
}

/// The value of a digit string read in base 10.
pub open spec fn digits_val(s: Seq<char>) -> int
    decreases s.len(),
{
    if s.len() == 0 {
        0
    } else {
        digits_val(s.drop_last()) * 10 + digit_val(s.last())
    }
}

/// The digits of a value string: the string itself, or what follows a single
/// leading `+`.
pub open spec fn digit_part(s: Seq<char>) -> Seq<char> {
    if s.len() >= 1 && s[0] == '+' {
        s.subrange(1, s.len() as int)
    } else {
        s
    }
}

/// What parsing `s` as a 64-bit unsigned integer yields: its base-10 value
/// when the digit part is non-empty, consists of digits only, and fits;
/// nothing otherwise.
pub open spec fn parse_u64_spec(s: Seq<char>) -> Option<u64> {
    let d = digit_part(s);
    if d.len() >= 1 && all_digits(d) && digits_val(d) <= u64::MAX {
        Some(digits_val(d) as u64)
    } else {
        None
    }
}

/// The value of a digit string is non-negative.
pub proof fn lemma_digits_val_nonneg(s: Seq<char>)
    requires
        all_digits(s),
    ensures
        digits_val(s) >= 0,
    decreases s.len(),
{
    if s.len() > 0 {
        assert(all_digits(s.drop_last()));
        lemma_digits_val_nonneg(s.drop_last());
    }
}

/// Reading more digits never shrinks the value: the value of a prefix is at
/// most the value of the whole string.
pub proof fn lemma_digits_val_take_le(s: Seq<char>, k: int)
    requires
        all_digits(s),
        0 <= k <= s.len(),
    ensures
        digits_val(s.take(k)) <= digits_val(s),
    decreases s.len() - k,
{
    if k < s.len() {
        lemma_digits_val_take_le(s, k + 1);
        assert(s.take(k + 1).drop_last() =~= s.take(k));
        assert(all_digits(s.take(k)));
        lemma_digits_val_nonneg(s.take(k));
        assert(digits_val(s.take(k + 1)) == digits_val(s.take(k)) * 10 + digit_val(s[k]));
    } else {
        assert(s.take(k) =~= s);
    }
}

/// Parses `s` as a base-10 unsigned 64-bit integer, accepting one optional
/// leading `+` and rejecting everything that is not a digit string or does
/// not fit.
pub fn parse_u64_str(s: &str) -> (r: Option<u64>)
    ensures
        r == parse_u64_spec(s@),
{
    let n = s.unicode_len();
    let mut i: usize = 0;
    if n >= 1 && s.get_char(0) == '+' {
        i = 1;
    }
    let ghost d = digit_part(s@);
    proof {
        assert(d =~= s@.subrange(i as int, s@.len() as int));
    }
    if i >= n {
        proof {
            assert(d.len() == 0);
        }
        return None;
    }
    let mut acc: u64 = 0;
    let mut j: usize = i;
    while j < n
        invariant
            i <= j <= n,
            n == s@.len(),
            d == digit_part(s@),
            d == s@.subrange(i as int, s@.len() as int),
            all_digits(d.take(j - i)),
            acc == digits_val(d.take(j - i)),
        decreases n - j,
    {
        let c = s.get_char(j);
        let u = c as u32;
        if u < 48 || u > 57 {
            proof {
                assert(d[j - i] == s@[j as int]);
                assert(!is_digit_char(d[j - i]));
                assert(!all_digits(d));
            }
            return None;
        }
        let dgt = (u - 48) as u64;
        let next: Option<u64> = match acc.checked_mul(10) {
            Some(x) => x.checked_add(dgt),
            None => None,
        };
        match next {
            Some(y) => {
                proof {
                    assert(d.take(j - i + 1).drop_last() =~= d.take(j - i));
                    assert(d.take(j - i + 1).last() == s@[j as int]);
                }
                acc = y;
            }
            None => {
                proof {
                    assert(d.take(j - i + 1).drop_last() =~= d.take(j - i));
                    assert(d.take(j - i + 1).last() == s@[j as int]);
                    assert(digits_val(d.take(j - i + 1)) == acc * 10 + dgt);
                    assert(digits_val(d.take(j - i + 1)) > u64::MAX);
                    if all_digits(d) {
                        lemma_digits_val_take_le(d, j - i + 1);
                        assert(digits_val(d) > u64::MAX);
                    }
                }
                return None;
            }
        }
        j = j + 1;
    }
    proof {
        assert(d.take(j - i) =~= d);
    }
    Some(acc)
}

} // verus!
