//! Decimal numerals: the text of a non-negative integer as one or more ASCII
//! digits.

use vstd::prelude::*;
use crate::value::RawValue;

verus! {

/// Whether `b` is an ASCII digit.
pub open spec fn is_digit(b: u8) -> bool {
    48 <= b <= 57
}

/// Whether `s` holds ASCII digits only.
pub open spec fn all_digits(s: Seq<u8>) -> bool {
    forall|i: int| 0 <= i < s.len() ==> is_digit(#[trigger] s[i])
}

/// The number that the digits of `s` write in base ten, the first digit
/// weighing most. The empty text writes zero.
pub open spec fn digits_value(s: Seq<u8>) -> nat
    decreases s.len(),
{
    if s.len() == 0 {
        0
    } else {
        (10 * digits_value(s.drop_last()) + (s.last() - 48)) as nat
    }
}

/// The numeral of `n`: its digits in base ten without leading zeros, the
/// single digit `0` for zero.
pub open spec fn decimal_digits(n: nat) -> Seq<u8>
    decreases n,
{
    if n < 10 {
        seq![(48 + n) as u8]
    } else {
        decimal_digits(n / 10).push((48 + n % 10) as u8)
    }
}

/// What `s` stands for as a count that fits 64 bits: the number it writes,
/// where it is one digit or more and nothing but digits, and the number is
/// no greater than `u64::MAX`.
pub open spec fn parse_decimal(s: Seq<u8>) -> Option<u64> {
    if s.len() > 0 && all_digits(s) && digits_value(s) <= u64::MAX {
        Some(digits_value(s) as u64)
    } else {
        None
    }
}

/// A numeral holds digits only, and at least one.
pub proof fn lemma_numeral_is_digits(n: nat)
    ensures
        decimal_digits(n).len() > 0,
        all_digits(decimal_digits(n)),
    decreases n,
{
    if n >= 10 {
        lemma_numeral_is_digits(n / 10);
    }
}

/// A numeral writes the number it was made of.
pub proof fn lemma_numeral_value(n: nat)
    ensures
        digits_value(decimal_digits(n)) == n,
    decreases n,
{
    let s = decimal_digits(n);
    if n < 10 {
        assert(s.drop_last() =~= Seq::<u8>::empty());
        assert(digits_value(s.drop_last()) == 0);
    } else {
        lemma_numeral_value(n / 10);
        assert(s.drop_last() =~= decimal_digits(n / 10));
    }
}

/// Reading a numeral gives back the number: every count that fits 64 bits
/// survives being written and read again.
pub proof fn lemma_parse_numeral(n: u64)
    ensures
        parse_decimal(decimal_digits(n as nat)) == Some(n),
{
    lemma_numeral_is_digits(n as nat);
    lemma_numeral_value(n as nat);
}

/// Among texts of digits, a text writes at least what any of its prefixes
/// writes.
pub proof fn lemma_prefix_value(s: Seq<u8>, k: int)
    requires
        all_digits(s),
        0 <= k <= s.len(),
    ensures
        digits_value(s.take(k)) <= digits_value(s),
    decreases s.len() - k,
{
    if k == s.len() {
        assert(s.take(k) =~= s);
    } else {
        lemma_prefix_value(s, k + 1);
        let t = s.take(k + 1);
        assert(t.drop_last() =~= s.take(k));
        assert(is_digit(t.last()));
    }
}

/// The digits of `n` in base ten, without leading zeros.
pub fn numeral(n: u64) -> (digits: Vec<u8>)
    ensures
        digits@ == decimal_digits(n as nat),
{
    let mut digits: Vec<u8> = Vec::new();
    let mut rest: u64 = n;
    while rest >= 10
        invariant
            decimal_digits(n as nat) == decimal_digits(rest as nat) + digits@,
        decreases rest,
    {
        let digit: u8 = 48 + (rest % 10) as u8;
        proof {
            assert(decimal_digits(rest as nat) == decimal_digits((rest / 10) as nat).push(digit));
            assert(decimal_digits((rest / 10) as nat).push(digit) + digits@
                =~= decimal_digits((rest / 10) as nat) + digits@.insert(0, digit));
        }
        digits.insert(0, digit);
        rest = rest / 10;
    }
    let digit: u8 = 48 + rest as u8;
    proof {
        assert(decimal_digits(rest as nat) + digits@ =~= digits@.insert(0, digit));
    }
    digits.insert(0, digit);
    digits
}

/// Writes `n` as a decimal numeral.
pub fn write_decimal(n: u64) -> (v: RawValue)
    ensures
        v@ == decimal_digits(n as nat),
{
    let digits = numeral(n);
    proof {
        lemma_numeral_is_digits(n as nat);
    }
    RawValue::from_field_content(digits)
}

/// Reads `text` as a decimal count of at most 64 bits.
pub fn read_decimal(text: &[u8]) -> (r: Option<u64>)
    ensures
        r == parse_decimal(text@),
{
    let n: usize = text.len();
    if n == 0 {
        return None;
    }
    let mut acc: u64 = 0;
    let mut i: usize = 0;
    assert(text@.take(0) =~= Seq::<u8>::empty());
    while i < n
        invariant
            n == text@.len(),
            0 <= i <= n,
            all_digits(text@.take(i as int)),
            acc == digits_value(text@.take(i as int)),
        decreases n - i,
    {
        let b: u8 = text[i];
        if b < 48 || b > 57 {
            return None;
        }
        let d: u64 = (b - 48) as u64;
        let ghost next = text@.take(i + 1);
        proof {
            assert(next.drop_last() =~= text@.take(i as int));
            assert(next.last() == b);
            assert(all_digits(next)) by {
                assert forall|j: int| 0 <= j < next.len() implies is_digit(#[trigger] next[j]) by {
                    if j < i {
                        assert(next[j] == text@.take(i as int)[j]);
                    }
                }
            }
        }
        if acc > (u64::MAX - d) / 10 {
            proof {
                assert(digits_value(next) > u64::MAX);
                if all_digits(text@) {
                    lemma_prefix_value(text@, i + 1);
                }
            }
            return None;
        }
        acc = acc * 10 + d;
        i = i + 1;
    }
    assert(text@.take(n as int) =~= text@);
    Some(acc)
}

} // verus!
