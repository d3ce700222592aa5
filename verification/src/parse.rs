use vstd::prelude::*;
use vstd::string::*;

verus! {

/// A decimal digit byte (`'0'` is 48, `'9'` is 57).
pub open spec fn is_digit(b: u8) -> bool {
    48 <= b <= 57
}

/// Every byte of the sequence is a decimal digit.
pub open spec fn all_digits(s: Seq<u8>) -> bool {
    forall|i: int| 0 <= i < s.len() ==> is_digit(s[i])
}

/// The integer a sequence of decimal digit bytes denotes.
pub open spec fn digits_value(s: Seq<u8>) -> int
    decreases s.len(),
{
    if s.len() == 0 {
        0
    } else {
        digits_value(s.drop_last()) * 10 + (s.last() - 48)
    }
}

/// The digit part of a literal: the input without its single leading `+`
/// (43) or `-` (45), if it has one.
pub open spec fn digit_part(s: Seq<u8>) -> Seq<u8> {
    if s.len() > 0 && (s[0] == 43 || s[0] == 45) {
        s.skip(1)
    } else {
        s
    }
}

/// The literal carries a leading minus sign.
pub open spec fn is_negative(s: Seq<u8>) -> bool {
    s.len() > 0 && s[0] == 45
}

/// The integer a signed decimal literal denotes.
pub open spec fn literal_value(s: Seq<u8>) -> int {
    if is_negative(s) {
        -digits_value(digit_part(s))
    } else {
        digits_value(digit_part(s))
    }
}

/// The byte sequence is a decimal literal of a 64-bit signed integer: an
/// optional single sign, then at least one digit and nothing else, with a
/// value inside the representable range.
pub open spec fn is_i64_literal(s: Seq<u8>) -> bool {
    &&& digit_part(s).len() > 0
    &&& all_digits(digit_part(s))
    &&& i64::MIN <= literal_value(s) <= i64::MAX
}

proof fn lemma_digits_value_nonneg(s: Seq<u8>)
    requires
        all_digits(s),
    ensures
        digits_value(s) >= 0,
    decreases s.len(),
{
    if s.len() > 0 {
        assert(all_digits(s.drop_last()));
        lemma_digits_value_nonneg(s.drop_last());
    }
}

proof fn lemma_digits_take_step(s: Seq<u8>, k: int)
    requires
        0 <= k < s.len(),
    ensures
        digits_value(s.take(k + 1)) == digits_value(s.take(k)) * 10 + (s[k] - 48),
{
    assert(s.take(k + 1).drop_last() =~= s.take(k));
    assert(s.take(k + 1).last() == s[k]);
}

proof fn lemma_digits_prefix_le(s: Seq<u8>, k: int)
    requires
        all_digits(s),
        0 <= k <= s.len(),
    ensures
        digits_value(s.take(k)) <= digits_value(s),
    decreases s.len() - k,
{
    if k == s.len() {
        assert(s.take(k) =~= s);
    } else {
        assert(all_digits(s.take(k)));
        lemma_digits_value_nonneg(s.take(k));
        lemma_digits_take_step(s, k);
        lemma_digits_prefix_le(s, k + 1);
    }
}

/// Parses a decimal 64-bit signed integer exactly as an optional sign
/// followed by digits; anything else, or a value out of range, is rejected.
pub fn parse_i64(s: &str) -> (r: Option<i64>)
    ensures
        r == if is_i64_literal(s.spec_bytes()) {
            Some(literal_value(s.spec_bytes()) as i64)
        } else {
            None::<i64>
        },
{
    let bytes = s.as_bytes();
    let ghost all = s.spec_bytes();
    let n = bytes.len();
    let mut start: usize = 0;
    let mut neg = false;
    if n > 0 && (bytes[0] == 43 || bytes[0] == 45) {
        neg = bytes[0] == 45;
        start = 1;
    }
    let ghost d = digit_part(all);
    proof {
        assert(d =~= all.skip(start as int));
        assert(neg == is_negative(all));
    }
    if start == n {
        // no digits at all
        return None;
    }
    let limit: u64 = if neg {
        9223372036854775808
    } else {
        9223372036854775807
    };
    let mut acc: u64 = 0;
    let mut j: usize = 0;
    while j < n - start
        invariant
            0 <= j <= n - start,
            start <= n,
            all == s.spec_bytes(),
            n == all.len(),
            bytes@ == all,
            d =~= all.skip(start as int),
            d.len() == n - start,
            all_digits(d.take(j as int)),
            acc == digits_value(d.take(j as int)),
            acc <= limit,
            limit == if neg { 9223372036854775808u64 } else { 9223372036854775807u64 },
            neg == is_negative(all),
            d == digit_part(all),
        decreases n - start - j,
    {
        let b = bytes[start + j];
        proof {
            assert(d[j as int] == all[(start + j) as int]);
        }
        if b < 48 || b > 57 {
            // not a digit: the literal is malformed
            proof {
                assert(!is_digit(d[j as int]));
                assert(!all_digits(d));
            }
            return None;
        }
        let dig = (b - 48) as u64;
        if acc > (limit - dig) / 10 {
            // any continuation of these digits is out of range
            proof {
                lemma_digits_take_step(d, j as int);
                assert(acc * 10 + dig > limit) by {
                    let x = (limit - dig) as int;
                    vstd::arithmetic::div_mod::lemma_fundamental_div_mod(x, 10);
                    vstd::arithmetic::div_mod::lemma_mod_bound(x, 10);
                    assert(acc >= x / 10 + 1);
                }
                assert(digits_value(d.take(j + 1)) > limit);
                if all_digits(d) {
                    lemma_digits_prefix_le(d, j + 1);
                    assert(digits_value(d) > limit);
                    if neg {
                        assert(literal_value(all) < i64::MIN);
                    } else {
                        assert(literal_value(all) > i64::MAX);
                    }
                }
            }
            return None;
        }
        proof {
            lemma_digits_take_step(d, j as int);
            assert(d.take(j + 1).take(j as int) =~= d.take(j as int));
        }
        acc = acc * 10 + dig;
        j = j + 1;
    }
    proof {
        assert(d.take(j as int) =~= d);
        assert(is_i64_literal(all)) by {
            if neg {
                assert(literal_value(all) == -(acc as int));
            } else {
                assert(literal_value(all) == acc as int);
            }
        }
    }
    if neg {
        if acc == 9223372036854775808 {
            Some(i64::MIN)
        } else {
            Some(-(acc as i64))
        }
    } else {
        Some(acc as i64)
    }
}

} // verus!
