//! Reading numbers: a number is the longest run of digits at a position, and
//! only the one way of writing it is accepted.

use vstd::prelude::*;
use crate::wire::format::{NINE, ZERO, decimal};
use crate::wire::scan::stands_at;

verus! {

/// A decimal digit.
pub open spec fn is_digit(byte: u8) -> bool {
    ZERO <= byte <= NINE
}

/// There is a digit at the position `at`.
pub open spec fn digit_follows(bytes: Seq<u8>, at: int) -> bool {
    0 <= at < bytes.len() && is_digit(bytes[at])
}

/// A string of digits.
pub open spec fn all_digits(digits: Seq<u8>) -> bool {
    forall|i: int| 0 <= i < digits.len() ==> is_digit(#[trigger] digits[i])
}

/// The number that a string of digits writes.
pub open spec fn digits_value(digits: Seq<u8>) -> nat
    decreases digits.len(),
{
    if digits.len() == 0 {
        0
    } else {
        (digits_value(digits.drop_last()) * 10 + (digits.last() - ZERO)) as nat
    }
}

/// A number as it is written: at least one digit, and no zero in front of
/// another digit.
pub open spec fn is_numeral(digits: Seq<u8>) -> bool {
    all_digits(digits) && digits.len() >= 1 && (digits.len() > 1 ==> digits[0] != ZERO)
}

/// The decimal form of a number is a numeral that writes the number.
pub proof fn lemma_decimal_is_numeral(n: nat)
    ensures
        is_numeral(decimal(n)),
        digits_value(decimal(n)) == n,
        n >= 10 ==> decimal(n).len() > 1,
        n > 0 ==> decimal(n)[0] != ZERO,
    decreases n,
{
    if n < 10 {
        assert(digits_value(decimal(n).drop_last()) == 0);
    } else {
        lemma_decimal_is_numeral(n / 10);
        let shorter = decimal(n / 10);
        assert(decimal(n).drop_last() =~= shorter);
    }
}

/// A numeral is the decimal form of the number that it writes.
pub proof fn lemma_numeral_is_decimal(digits: Seq<u8>)
    requires
        is_numeral(digits),
    ensures
        decimal(digits_value(digits)) == digits,
        digits.len() > 1 ==> digits_value(digits) >= 10,
        digits[0] != ZERO ==> digits_value(digits) > 0,
    decreases digits.len(),
{
    let shorter = digits.drop_last();
    if digits.len() == 1 {
        assert(digits_value(shorter) == 0);
    } else {
        lemma_numeral_is_decimal(shorter);
    }
}

/// A string of digits writes at least what any of its beginnings writes.
pub proof fn lemma_digits_value_grows(digits: Seq<u8>, k: int)
    requires
        all_digits(digits),
        0 <= k <= digits.len(),
    ensures
        digits_value(digits.subrange(0, k)) <= digits_value(digits),
    decreases digits.len() - k,
{
    if k == digits.len() {
        assert(digits.subrange(0, k) =~= digits);
    } else {
        let shorter = digits.drop_last();
        lemma_digits_value_grows(shorter, k);
        assert(shorter.subrange(0, k) =~= digits.subrange(0, k));
    }
}

/// Digits that run from `at` up to `end`, where no further digit follows, are
/// the decimal form of `n` if that form stands at `at` with no digit behind
/// it.
pub proof fn lemma_digits_end(bytes: Seq<u8>, at: int, end: int, n: nat)
    requires
        0 <= at <= end <= bytes.len(),
        all_digits(bytes.subrange(at, end)),
        !digit_follows(bytes, end),
        stands_at(bytes, at, decimal(n)),
        !digit_follows(bytes, at + decimal(n).len()),
    ensures
        bytes.subrange(at, end) == decimal(n),
{
    lemma_decimal_is_numeral(n);
    let form = decimal(n);
    let found = bytes.subrange(at, at + form.len());
    if end < at + form.len() {
        assert(found[end - at] == form[end - at]);
    }
    if end > at + form.len() {
        assert(is_digit(bytes.subrange(at, end)[form.len() as int]));
    }
}

/// Where the digits from `at` up to `end` write more than `n`, the decimal
/// form of `n` does not stand at `at` with no digit behind it.
pub proof fn lemma_overlong_digits(bytes: Seq<u8>, at: int, end: int, n: nat)
    requires
        0 <= at <= end <= bytes.len(),
        all_digits(bytes.subrange(at, end)),
        digits_value(bytes.subrange(at, end)) > n,
        stands_at(bytes, at, decimal(n)),
    ensures
        digit_follows(bytes, at + decimal(n).len()),
{
    lemma_decimal_is_numeral(n);
    let form = decimal(n);
    let read = bytes.subrange(at, end);
    if end <= at + form.len() {
        assert(form.subrange(0, end - at) =~= read);
        lemma_digits_value_grows(form, end - at);
    } else {
        assert(is_digit(read[form.len() as int]));
    }
}

/// At one position at most one number stands with no digit behind it.
pub proof fn lemma_decimal_unique(bytes: Seq<u8>, at: int, n: nat, m: nat)
    requires
        stands_at(bytes, at, decimal(n)),
        !digit_follows(bytes, at + decimal(n).len()),
        stands_at(bytes, at, decimal(m)),
        !digit_follows(bytes, at + decimal(m).len()),
    ensures
        n == m,
{
    lemma_decimal_is_numeral(n);
    lemma_decimal_is_numeral(m);
    lemma_digits_end(bytes, at, at + decimal(m).len(), n);
}

/// Reads a number at the position `at`: the digits that stand there, as far
/// as they go. Refused are digits that are no numeral and a number that does
/// not fit 64 bits.
pub fn parse_decimal(bytes: &[u8], at: usize) -> (r: Option<(u64, usize)>)
    requires
        at <= bytes@.len(),
    ensures
        r matches Some((n, end)) ==> {
            &&& stands_at(bytes@, at as int, decimal(n as nat))
            &&& end == at + decimal(n as nat).len()
            &&& !digit_follows(bytes@, end as int)
        },
        forall|n: u64|
            #[trigger] stands_at(bytes@, at as int, decimal(n as nat)) && !digit_follows(
                bytes@,
                at + decimal(n as nat).len(),
            ) ==> r == Some((n, (at + decimal(n as nat).len()) as usize)),
{
    let mut i: usize = at;
    let mut value: u64 = 0;
    while i < bytes.len() && ZERO <= bytes[i] && bytes[i] <= NINE
        invariant
            at <= i <= bytes@.len(),
            all_digits(bytes@.subrange(at as int, i as int)),
            value == digits_value(bytes@.subrange(at as int, i as int)),
        decreases bytes@.len() - i,
    {
        let digit = (bytes[i] - ZERO) as u64;
        let ghost read = bytes@.subrange(at as int, i + 1);
        proof {
            assert(read.drop_last() =~= bytes@.subrange(at as int, i as int));
        }
        if value > (u64::MAX - digit) / 10 {
            proof {
                assert forall|n: u64|
                    #[trigger] stands_at(bytes@, at as int, decimal(n as nat)) && !digit_follows(
                        bytes@,
                        at + decimal(n as nat).len(),
                    ) implies false by {
                    lemma_overlong_digits(bytes@, at as int, i + 1, n as nat);
                }
            }
            return None;
        }
        value = value * 10 + digit;
        i = i + 1;
    }
    let ghost read = bytes@.subrange(at as int, i as int);
    proof {
        assert forall|n: u64|
            #[trigger] stands_at(bytes@, at as int, decimal(n as nat)) && !digit_follows(
                bytes@,
                at + decimal(n as nat).len(),
            ) implies read == decimal(n as nat) && value == n by {
            lemma_digits_end(bytes@, at as int, i as int, n as nat);
            lemma_decimal_is_numeral(n as nat);
        }
    }
    if i == at {
        return None;
    }
    if bytes[at] == ZERO && i - at > 1 {
        proof {
            assert forall|n: u64|
                #[trigger] stands_at(bytes@, at as int, decimal(n as nat)) && !digit_follows(
                    bytes@,
                    at + decimal(n as nat).len(),
                ) implies false by {
                lemma_decimal_is_numeral(n as nat);
            }
        }
        return None;
    }
    proof {
        lemma_numeral_is_decimal(read);
    }
    Some((value, i))
}

} // verus!
