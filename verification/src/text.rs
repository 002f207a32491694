//! Character-level helpers: substring search and decimal integer parsing.

use vstd::prelude::*;
use vstd::string::StrSliceExecFns;

verus! {

/// True when `needle` occurs in `hay` starting at position `i`.
pub open spec fn matches_at(hay: Seq<char>, needle: Seq<char>, i: int) -> bool {
    0 <= i && i + needle.len() <= hay.len() && hay.subrange(i, i + needle.len() as int)
        == needle
}

/// True when `needle` occurs somewhere in `hay` (always true for an empty needle).
pub open spec fn is_substring(hay: Seq<char>, needle: Seq<char>) -> bool {
    exists|i: int| matches_at(hay, needle, i)
}

fn matches_prefix_at(hay: &str, needle: &str, i: usize) -> (r: bool)
    requires
        i + needle@.len() <= hay@.len(),
        hay@.len() <= usize::MAX,
    ensures
        r == matches_at(hay@, needle@, i as int),
{
    let n = needle.unicode_len();
    let mut j: usize = 0;
    while j < n
        invariant
            n == needle@.len(),
            i + n <= hay@.len(),
            hay@.len() <= usize::MAX,
            0 <= j <= n,
            forall|k: int| 0 <= k < j ==> hay@[i + k] == needle@[k],
        decreases n - j,
    {
        if hay.get_char(i + j) != needle.get_char(j) {
            proof {
                assert(hay@.subrange(i as int, i + needle@.len() as int) != needle@) by {
                    assert(hay@.subrange(i as int, i + needle@.len() as int)[j as int]
                        == hay@[i + j]);
                }
            }
            return false;
        }
        j += 1;
    }
    proof {
        assert(hay@.subrange(i as int, i + needle@.len() as int) =~= needle@);
    }
    true
}

/// Decides whether `needle` occurs anywhere in `hay`, as a contiguous run of
/// characters.
pub fn contains_substring(hay: &str, needle: &str) -> (r: bool)
    ensures
        r == is_substring(hay@, needle@),
{
    let h = hay.unicode_len();
    let n = needle.unicode_len();
    if n > h {
        proof {
            assert(forall|i: int| !matches_at(hay@, needle@, i));
        }
        return false;
    }
    if n == 0 {
        proof {
            assert(hay@.subrange(0, 0) =~= needle@);
            assert(matches_at(hay@, needle@, 0));
        }
        return true;
    }
    let mut i: usize = 0;
    while i <= h - n
        invariant
            h == hay@.len(),
            n == needle@.len(),
            1 <= n <= h,
            0 <= i <= h - n + 1,
            forall|k: int| 0 <= k < i ==> !matches_at(hay@, needle@, k),
        decreases h - n + 1 - i,
    {
        if matches_prefix_at(hay, needle, i) {
            return true;
        }
        i += 1;
    }
    proof {
        assert(!is_substring(hay@, needle@)) by {
            if is_substring(hay@, needle@) {
                let k = choose|k: int| matches_at(hay@, needle@, k);
                assert(k + needle@.len() <= hay@.len());
                assert(!matches_at(hay@, needle@, k));
            }
        }
    }
    false
}

/// A decimal digit.
pub open spec fn is_digit(c: char) -> bool {
    48 <= c as int && c as int <= 57
}

pub open spec fn digit_val(c: char) -> int {
    c as int - 48
}

pub open spec fn all_digits(s: Seq<char>) -> bool {
    forall|i: int| 0 <= i < s.len() ==> is_digit(#[trigger] s[i])
}

/// Numeric value of a sequence of decimal digits, most significant first.
pub open spec fn digits_val(s: Seq<char>) -> int
    decreases s.len(),
{
    if s.len() == 0 {
        0
    } else {
        digits_val(s.drop_last()) * 10 + digit_val(s.last())
    }
}

/// Whether the text starts with a minus sign.
pub open spec fn int_neg(s: Seq<char>) -> bool {
    s.len() > 0 && s[0] == '-'
}

/// The digit part of the text: everything after a leading minus sign.
pub open spec fn int_digits(s: Seq<char>) -> Seq<char> {
    if int_neg(s) {
        s.drop_first()
    } else {
        s
    }
}

/// The value denoted by a numeric cell: an optional minus sign followed by
/// one or more decimal digits, denoting a value that fits a 64-bit signed
/// integer. Anything else does not parse.
pub open spec fn parsed_int(s: Seq<char>) -> Option<int> {
    let digits = int_digits(s);
    if 1 <= digits.len() && all_digits(digits) {
        let mag = digits_val(digits);
        if int_neg(s) {
            if -mag >= i64::MIN as int {
                Some(-mag)
            } else {
                None
            }
        } else {
            if mag <= i64::MAX as int {
                Some(mag)
            } else {
                None
            }
        }
    } else {
        None
    }
}

pub proof fn lemma_digits_val_nonneg(s: Seq<char>)
    requires
        all_digits(s),
    ensures
        digits_val(s) >= 0,
    decreases s.len(),
{
    if s.len() > 0 {
        assert(all_digits(s.drop_last()));
        lemma_digits_val_nonneg(s.drop_last());
    }
}

/// A digit sequence is worth at least as much as any of its prefixes.
pub proof fn lemma_digits_val_prefix(s: Seq<char>, k: int)
    requires
        all_digits(s),
        0 <= k <= s.len(),
    ensures
        digits_val(s.take(k)) <= digits_val(s),
    decreases s.len(),
{
    if k == s.len() {
        assert(s.take(k) =~= s);
    } else {
        let rest = s.drop_last();
        assert(all_digits(rest));
        lemma_digits_val_prefix(rest, k);
        assert(rest.take(k) =~= s.take(k));
        lemma_digits_val_nonneg(rest);
    }
}

/// Parses a decimal integer cell: optional minus sign, then digits, with the
/// value in the 64-bit signed range. Returns the parsed value, or nothing
/// when the text has any other shape or the value is out of range.
pub fn parse_i64(s: &str) -> (r: Option<i64>)
    ensures
        r is Some <==> parsed_int(s@) is Some,
        r is Some ==> r->0 as int == parsed_int(s@)->0,
{
    let len = s.unicode_len();
    let neg = len > 0 && s.get_char(0) == '-';
    let start: usize = if neg {
        1
    } else {
        0
    };
    let ghost digits = int_digits(s@);
    proof {
        assert(neg == int_neg(s@));
        assert(digits =~= s@.subrange(start as int, len as int));
    }
    if len - start == 0 {
        return None;
    }
    let mut val: i128 = 0;
    let mut i: usize = start;
    while i < len
        invariant
            len == s@.len(),
            start <= i <= len,
            start <= 1,
            1 <= len - start,
            neg == int_neg(s@),
            digits == int_digits(s@),
            digits =~= s@.subrange(start as int, len as int),
            all_digits(s@.subrange(start as int, i as int)),
            val == digits_val(s@.subrange(start as int, i as int)),
            0 <= val <= 0x8000000000000000,
        decreases len - i,
    {
        let c = s.get_char(i);
        let u = c as u32;
        if u < 48 || u > 57 {
            proof {
                assert(c as int == u as int);
                assert(digits[i - start] == s@[i as int]);
                assert(!is_digit(digits[i - start]));
            }
            return None;
        }
        proof {
            let pre = s@.subrange(start as int, i as int);
            let post = s@.subrange(start as int, i + 1);
            assert(post.drop_last() =~= pre);
            assert(post.last() == s@[i as int]);
        }
        val = val * 10 + ((u - 48) as i128);
        i += 1;
        if val > 0x8000000000000000i128 {
            proof {
                // Longer digit prefixes are worth at least as much, so the
                // full magnitude is out of the 64-bit range on either sign.
                if all_digits(digits) {
                    assert(s@.subrange(start as int, i as int) =~= digits.take(i - start));
                    lemma_digits_val_prefix(digits, i - start);
                }
            }
            return None;
        }
    }
    proof {
        assert(s@.subrange(start as int, len as int) =~= digits);
    }
    if neg {
        Some((0i128 - val) as i64)
    } else {
        if val > 0x7fffffffffffffffi128 {
            return None;
        }
        Some(val as i64)
    }
}

} // verus!
