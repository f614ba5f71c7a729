//! Decimal text: how numbers are written in the wire protocol and how they are
//! read back.
use vstd::prelude::*;

use crate::consts::{MINUS, PLUS};

verus! {

/// An ASCII decimal digit.
pub open spec fn is_digit(c: u8) -> bool {
    48 <= c <= 57
}

/// Every byte of `s` is a decimal digit.
pub open spec fn all_digits(s: Seq<u8>) -> bool {
    forall|i: int| 0 <= i < s.len() ==> is_digit(#[trigger] s[i])
}

/// The shortest decimal spelling of `n` (no sign, no leading zeros).
pub open spec fn nat_digits(n: nat) -> Seq<u8>
    decreases n,
{
    if n < 10 {
        seq![(48 + n) as u8]
    } else {
        nat_digits(n / 10).push((48 + n % 10) as u8)
    }
}

/// The decimal spelling of `i`, with a leading `-` when negative.
pub open spec fn int_digits(i: int) -> Seq<u8> {
    if i < 0 {
        seq![MINUS] + nat_digits((-i) as nat)
    } else {
        nat_digits(i as nat)
    }
}

/// The value of a string of decimal digits.
pub open spec fn digits_value(s: Seq<u8>) -> nat
    decreases s.len(),
{
    if s.len() == 0 {
        0
    } else {
        digits_value(s.drop_last()) * 10 + (s.last() - 48) as nat
    }
}

/// Reads an optionally signed decimal integer that spans all of `s`.
pub open spec fn parse_signed(s: Seq<u8>) -> Option<int> {
    if s.len() > 0 && (s[0] == MINUS || s[0] == PLUS) {
        let rest = s.drop_first();
        if rest.len() > 0 && all_digits(rest) {
            if s[0] == MINUS {
                Some(-digits_value(rest))
            } else {
                Some(digits_value(rest) as int)
            }
        } else {
            None
        }
    } else if s.len() > 0 && all_digits(s) {
        Some(digits_value(s) as int)
    } else {
        None
    }
}

/// `parse_signed`, kept only where the value fits in an `i64`.
pub open spec fn parse_i64(s: Seq<u8>) -> Option<i64> {
    match parse_signed(s) {
        Some(v) => if i64::MIN <= v <= i64::MAX {
            Some(v as i64)
        } else {
            None
        },
        None => None,
    }
}

/// Reads an unsigned decimal integer, with an optional `+`, that spans all
/// of `s`, kept only where it fits in a `u64`.
pub open spec fn parse_u64(s: Seq<u8>) -> Option<u64> {
    if s.len() > 0 && s[0] == MINUS {
        None
    } else {
        match parse_signed(s) {
            Some(v) => if 0 <= v <= u64::MAX {
                Some(v as u64)
            } else {
                None
            },
            None => None,
        }
    }
}

pub proof fn lemma_nat_digits(n: nat)
    ensures
        nat_digits(n).len() > 0,
        all_digits(nat_digits(n)),
        digits_value(nat_digits(n)) == n,
    decreases n,
{
    if n >= 10 {
        lemma_nat_digits(n / 10);
        let s = nat_digits(n);
        assert(s.drop_last() =~= nat_digits(n / 10));
        assert(n == (n / 10) * 10 + n % 10) by (nonlinear_arith);
        assert(s.last() == (48 + n % 10) as u8);
        assert(digits_value(s) == digits_value(s.drop_last()) * 10 + (s.last() - 48) as nat);
    } else {
        let s = nat_digits(n);
        assert(s.drop_last() =~= Seq::<u8>::empty());
        assert(digits_value(s.drop_last()) == 0);
        assert(digits_value(s) == digits_value(s.drop_last()) * 10 + (s.last() - 48) as nat);
    }
}

/// Writing an integer in decimal and reading it back gives the integer.
pub proof fn lemma_int_digits_parse(i: int)
    ensures
        parse_signed(int_digits(i)) == Some(i),
        int_digits(i).len() > 0,
        forall|j: int| 0 <= j < int_digits(i).len() ==> #[trigger] int_digits(i)[j] != 13u8,
{
    if i < 0 {
        lemma_nat_digits((-i) as nat);
        let s = int_digits(i);
        assert(s.drop_first() =~= nat_digits((-i) as nat));
    } else {
        lemma_nat_digits(i as nat);
    }
}

/// A longer run of digits never has a smaller value.
pub proof fn lemma_digits_value_prefix(s: Seq<u8>, k: int)
    requires
        0 <= k <= s.len(),
        all_digits(s),
    ensures
        digits_value(s.subrange(0, k)) <= digits_value(s),
    decreases s.len(),
{
    if k < s.len() {
        assert(s.drop_last().subrange(0, k) =~= s.subrange(0, k));
        lemma_digits_value_prefix(s.drop_last(), k);
    } else {
        assert(s.subrange(0, k) =~= s);
    }
}

/// Appends the decimal spelling of `n`.
pub fn push_decimal(out: &mut Vec<u8>, n: u64)
    ensures
        final(out)@ == old(out)@ + nat_digits(n as nat),
    decreases n,
{
    if n >= 10 {
        push_decimal(out, n / 10);
    }
    out.push((48 + n % 10) as u8);
    proof {
        if n >= 10 {
            assert(final(out)@ =~= old(out)@ + nat_digits(n as nat));
        } else {
            assert(final(out)@ =~= old(out)@ + nat_digits(n as nat));
        }
    }
}

/// Appends the decimal spelling of `n`, with a `-` when it is negative.
pub fn push_signed_decimal(out: &mut Vec<u8>, n: i64)
    ensures
        final(out)@ == old(out)@ + int_digits(n as int),
{
    if n < 0 {
        out.push(MINUS);
        let magnitude: u64 = (0i128 - n as i128) as u64;
        push_decimal(out, magnitude);
        assert(final(out)@ =~= old(out)@ + int_digits(n as int));
    } else {
        push_decimal(out, n as u64);
    }
}

/// Reads the bytes `b[start..end]` as an optionally signed decimal `i64`.
pub fn parse_decimal_i64(b: &[u8], start: usize, end: usize) -> (r: Option<i64>)
    requires
        start <= end <= b@.len(),
    ensures
        r == parse_i64(b@.subrange(start as int, end as int)),
{
    let ghost s = b@.subrange(start as int, end as int);
    if start == end {
        return None;
    }
    let negative = b[start] == MINUS;
    let first: usize = if b[start] == MINUS || b[start] == PLUS {
        start + 1
    } else {
        start
    };
    if first == end {
        return None;
    }
    let ghost digits = b@.subrange(first as int, end as int);
    assert(first > start ==> digits =~= s.drop_first());
    assert(first == start ==> digits =~= s);
    // Magnitudes above 2^63 fit no i64 whatever the sign.
    let limit: u128 = 0x8000_0000_0000_0000;
    let mut acc: u128 = 0;
    let mut i: usize = first;
    while i < end
        invariant
            first <= i <= end <= b@.len(),
            first < end,
            digits == b@.subrange(first as int, end as int),
            s == b@.subrange(start as int, end as int),
            s.len() > 0,
            negative == (s[0] == MINUS),
            first == start || first == start + 1,
            (first == start + 1) == (s[0] == MINUS || s[0] == PLUS),
            first > start ==> digits == s.drop_first(),
            first == start ==> digits == s,
            all_digits(b@.subrange(first as int, i as int)),
            acc == digits_value(b@.subrange(first as int, i as int)),
            acc <= limit,
            limit == 0x8000_0000_0000_0000,
        decreases end - i,
    {
        let c = b[i];
        if c < 48 || c > 57 {
            assert(digits[i - first] == c);
            assert(!all_digits(digits));
            return None;
        }
        let ghost prev = b@.subrange(first as int, i as int);
        let ghost next = b@.subrange(first as int, i + 1);
        assert(next.drop_last() =~= prev);
        assert(next.last() == c);
        assert(acc * 10 <= limit * 10) by (nonlinear_arith)
            requires acc <= limit;
        acc = acc * 10 + (c - 48) as u128;
        assert(acc == digits_value(next));
        i = i + 1;
        assert(all_digits(next)) by {
            assert forall|j: int| 0 <= j < next.len() implies is_digit(#[trigger] next[j]) by {
                if j < prev.len() {
                    assert(next[j] == prev[j]);
                }
            }
        }
        if acc > limit {
            proof {
                // `digits` is all digits or the function returns `None` anyway.
                if all_digits(digits) {
                    assert(digits.subrange(0, i - first) =~= next);
                    lemma_digits_value_prefix(digits, i - first);
                }
            }
            return None;
        }
    }
    assert(b@.subrange(first as int, i as int) =~= digits);
    if negative {
        Some((0i128 - acc as i128) as i64)
    } else if acc <= 0x7FFF_FFFF_FFFF_FFFF {
        Some(acc as i64)
    } else {
        None
    }
}

/// Reads the bytes `b[start..end]` as an unsigned decimal `u64`, with an
/// optional `+`.
pub fn parse_decimal_u64(b: &[u8], start: usize, end: usize) -> (r: Option<u64>)
    requires
        start <= end <= b@.len(),
    ensures
        r == parse_u64(b@.subrange(start as int, end as int)),
{
    let ghost s = b@.subrange(start as int, end as int);
    if start == end {
        return None;
    }
    assert(s[0] == b@[start as int]);
    if b[start] == MINUS {
        return None;
    }
    let first: usize = if b[start] == PLUS {
        start + 1
    } else {
        start
    };
    if first == end {
        return None;
    }
    let ghost digits = b@.subrange(first as int, end as int);
    assert(first > start ==> digits =~= s.drop_first());
    assert(first == start ==> digits =~= s);
    let limit: u128 = 0xFFFF_FFFF_FFFF_FFFF;
    let mut acc: u128 = 0;
    let mut i: usize = first;
    while i < end
        invariant
            first <= i <= end <= b@.len(),
            first < end,
            digits == b@.subrange(first as int, end as int),
            s == b@.subrange(start as int, end as int),
            s.len() > 0,
            s[0] != MINUS,
            first == start || first == start + 1,
            (first == start + 1) == (s[0] == PLUS),
            first > start ==> digits == s.drop_first(),
            first == start ==> digits == s,
            all_digits(b@.subrange(first as int, i as int)),
            acc == digits_value(b@.subrange(first as int, i as int)),
            acc <= limit,
            limit == 0xFFFF_FFFF_FFFF_FFFF,
        decreases end - i,
    {
        let c = b[i];
        if c < 48 || c > 57 {
            assert(digits[i - first] == c);
            assert(!all_digits(digits));
            return None;
        }
        let ghost prev = b@.subrange(first as int, i as int);
        let ghost next = b@.subrange(first as int, i + 1);
        assert(next.drop_last() =~= prev);
        assert(next.last() == c);
        assert(acc * 10 <= limit * 10) by (nonlinear_arith)
            requires
                acc <= limit,
        ;
        acc = acc * 10 + (c - 48) as u128;
        assert(acc == digits_value(next));
        i = i + 1;
        assert(all_digits(next)) by {
            assert forall|j: int| 0 <= j < next.len() implies is_digit(#[trigger] next[j]) by {
                if j < prev.len() {
                    assert(next[j] == prev[j]);
                }
            }
        }
        if acc > limit {
            proof {
                if all_digits(digits) {
                    assert(digits.subrange(0, i - first) =~= next);
                    lemma_digits_value_prefix(digits, i - first);
                }
            }
            return None;
        }
    }
    assert(b@.subrange(first as int, i as int) =~= digits);
    Some(acc as u64)
}

} // verus!
