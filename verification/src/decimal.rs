//! ASCII decimal rendering of integers, as used in message topics.
use vstd::prelude::*;

verus! {

/// The ASCII code of the decimal digit `d` (for `0 <= d < 10`).
pub open spec fn digit_byte(d: int) -> u8 {
    (48 + d) as u8
}

/// Whether `b` is the ASCII code of a decimal digit.
pub open spec fn is_digit_byte(b: u8) -> bool {
    48 <= b <= 57
}

/// The decimal digits of a natural number, most significant first,
/// without leading zeros (zero itself is written `0`).
pub open spec fn nat_decimal(n: nat) -> Seq<u8>
    decreases n,
{
    if n < 10 {
        seq![digit_byte(n as int)]
    } else {
        nat_decimal(n / 10).push(digit_byte((n % 10) as int))
    }
}

/// The decimal text of an integer: a minus sign before the digits of
/// its magnitude when it is negative.
pub open spec fn int_decimal(i: int) -> Seq<u8> {
    if i < 0 {
        seq![45u8] + nat_decimal((-i) as nat)
    } else {
        nat_decimal(i as nat)
    }
}

/// Every byte of a natural number's decimal text is a digit, and the
/// text is never empty.
pub proof fn lemma_nat_decimal_digits(n: nat)
    ensures
        nat_decimal(n).len() >= 1,
        forall|k: int| 0 <= k < nat_decimal(n).len() ==> is_digit_byte(#[trigger] nat_decimal(n)[k]),
        nat_decimal(n).len() == 1 <==> n < 10,
    decreases n,
{
    if n >= 10 {
        lemma_nat_decimal_digits(n / 10);
    }
}

/// Distinct natural numbers have distinct decimal texts.
pub proof fn lemma_nat_decimal_injective(a: nat, b: nat)
    requires
        nat_decimal(a) == nat_decimal(b),
    ensures
        a == b,
    decreases a,
{
    lemma_nat_decimal_digits(a);
    lemma_nat_decimal_digits(b);
    if a >= 10 && b >= 10 {
        let da = nat_decimal(a / 10);
        let db = nat_decimal(b / 10);
        assert(nat_decimal(a).last() == digit_byte((a % 10) as int));
        assert(nat_decimal(b).last() == digit_byte((b % 10) as int));
        assert(da == nat_decimal(a).drop_last());
        assert(db == nat_decimal(b).drop_last());
        lemma_nat_decimal_injective(a / 10, b / 10);
        assert(a % 10 == b % 10);
        assert(a == 10 * (a / 10) + a % 10);
        assert(b == 10 * (b / 10) + b % 10);
    } else if a < 10 && b < 10 {
        assert(nat_decimal(a) == seq![digit_byte(a as int)]);
        assert(nat_decimal(b) == seq![digit_byte(b as int)]);
        assert(seq![digit_byte(a as int)][0] == digit_byte(a as int));
        assert(seq![digit_byte(b as int)][0] == digit_byte(b as int));
        assert(digit_byte(a as int) == digit_byte(b as int));
    }
}

/// Distinct integers have distinct decimal texts.
pub proof fn lemma_int_decimal_injective(a: int, b: int)
    requires
        int_decimal(a) == int_decimal(b),
    ensures
        a == b,
{
    lemma_nat_decimal_digits((-a) as nat);
    lemma_nat_decimal_digits((-b) as nat);
    lemma_nat_decimal_digits(a as nat);
    lemma_nat_decimal_digits(b as nat);
    if a < 0 && b < 0 {
        assert(nat_decimal((-a) as nat) == int_decimal(a).subrange(1, int_decimal(a).len() as int));
        assert(nat_decimal((-b) as nat) == int_decimal(b).subrange(1, int_decimal(b).len() as int));
        lemma_nat_decimal_injective((-a) as nat, (-b) as nat);
    } else if a >= 0 && b >= 0 {
        lemma_nat_decimal_injective(a as nat, b as nat);
    } else if a < 0 {
        assert(int_decimal(a)[0] == 45u8);
        assert(is_digit_byte(nat_decimal(b as nat)[0]));
    } else {
        assert(int_decimal(b)[0] == 45u8);
        assert(is_digit_byte(nat_decimal(a as nat)[0]));
    }
}

/// The decimal text of an integer is never empty, every byte of it but
/// the first is a digit, and the first is a digit or a minus sign.
pub proof fn lemma_int_decimal_shape(i: int)
    ensures
        int_decimal(i).len() >= 1,
        forall|k: int| 1 <= k < int_decimal(i).len() ==> is_digit_byte(#[trigger] int_decimal(i)[k]),
        is_digit_byte(int_decimal(i)[0]) || int_decimal(i)[0] == 45u8,
{
    if i < 0 {
        lemma_nat_decimal_digits((-i) as nat);
        assert forall|k: int| 1 <= k < int_decimal(i).len() implies is_digit_byte(
            #[trigger] int_decimal(i)[k],
        ) by {
            assert(int_decimal(i)[k] == nat_decimal((-i) as nat)[k - 1]);
        }
    } else {
        lemma_nat_decimal_digits(i as nat);
    }
}

/// Appends the decimal digits of `n` to `out`.
pub fn push_nat_decimal(out: &mut Vec<u8>, n: u64)
    ensures
        final(out)@ == old(out)@ + nat_decimal(n as nat),
    decreases n,
{
    if n >= 10 {
        push_nat_decimal(out, n / 10);
    }
    let d: u64 = n % 10;
    out.push((48 + d) as u8);
    proof {
        if n >= 10 {
            assert(nat_decimal(n as nat) == nat_decimal((n / 10) as nat).push(digit_byte((n % 10) as int)));
        }
    }
}

/// Appends the decimal text of `i` to `out`.
pub fn push_int_decimal(out: &mut Vec<u8>, i: isize)
    ensures
        final(out)@ == old(out)@ + int_decimal(i as int),
{
    if i < 0 {
        out.push(45u8);
        let wide: i128 = i as i128;
        let magnitude: u64 = (-wide) as u64;
        push_nat_decimal(out, magnitude);
        assert(old(out)@.push(45u8) + nat_decimal(magnitude as nat) == old(out)@ + (seq![45u8] + nat_decimal(magnitude as nat)));
    } else {
        push_nat_decimal(out, i as u64);
    }
}

} // verus!
