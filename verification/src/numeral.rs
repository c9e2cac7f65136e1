//! Positional numerals: what a sequence of digits is worth, and the digits of a number.
use vstd::arithmetic::div_mod::{
    lemma_div_basics, lemma_div_decreases, lemma_div_denominator, lemma_fundamental_div_mod,
    lemma_fundamental_div_mod_converse, lemma_multiply_divide_lt,
};
use vstd::arithmetic::mul::lemma_mul_is_commutative;
use vstd::arithmetic::power::{lemma_pow0, lemma_pow_positive, pow};
use vstd::prelude::*;

verus! {

/// The number that `digits` write in `base`, the most significant digit first.
pub open spec fn digits_value(digits: Seq<nat>, base: nat) -> nat
    decreases digits.len(),
{
    if digits.len() == 0 {
        0
    } else {
        digits_value(digits.drop_last(), base) * base + digits.last()
    }
}

/// The digits of `value` in `base` without a leading zero; no digits at all for zero.
pub open spec fn minimal_digits(value: nat, base: nat) -> Seq<nat>
    decreases value,
{
    if value == 0 || base < 2 {
        Seq::empty()
    } else {
        proof {
            lemma_div_decreases(value as int, base as int);
        }
        minimal_digits(value / base, base).push(value % base)
    }
}

/// The last `count` digits of `value` in `base`, leading zeros and all.
pub open spec fn fixed_digits(value: nat, base: nat, count: nat) -> Seq<nat>
    decreases count,
{
    if count == 0 {
        Seq::empty()
    } else {
        fixed_digits(value / base, base, (count - 1) as nat).push(value % base)
    }
}

/// How many zeros `digits` start with.
pub open spec fn leading_zeros(digits: Seq<nat>) -> nat
    decreases digits.len(),
{
    if digits.len() > 0 && digits[0] == 0 {
        1 + leading_zeros(digits.drop_first())
    } else {
        0
    }
}

/// A run of `count` zeros.
pub open spec fn zeros(count: nat) -> Seq<nat> {
    Seq::new(count, |i: int| 0nat)
}

/// Every digit is smaller than `base`.
pub open spec fn all_below(digits: Seq<nat>, base: nat) -> bool {
    forall|i: int| 0 <= i < digits.len() ==> #[trigger] digits[i] < base
}

/// Dropping the last digit divides by the base; the last digit is the remainder.
pub proof fn lemma_value_div_mod(digits: Seq<nat>, base: nat)
    requires
        base > 0,
        digits.len() > 0,
        digits.last() < base,
    ensures
        digits_value(digits, base) / base == digits_value(digits.drop_last(), base),
        digits_value(digits, base) % base == digits.last(),
{
    let rest = digits_value(digits.drop_last(), base) as int;
    lemma_fundamental_div_mod_converse(
        digits_value(digits, base) as int,
        base as int,
        rest,
        digits.last() as int,
    );
}

/// A positive leading digit makes the value positive.
pub proof fn lemma_value_positive(digits: Seq<nat>, base: nat)
    requires
        base > 0,
        digits.len() > 0,
        digits[0] > 0,
    ensures
        digits_value(digits, base) > 0,
    decreases digits.len(),
{
    if digits.len() > 1 {
        lemma_value_positive(digits.drop_last(), base);
        let rest = digits_value(digits.drop_last(), base);
        assert(rest * base >= rest) by (nonlinear_arith)
            requires
                base > 0,
        ;
    } else {
        assert(digits.last() == digits[0]);
        assert(digits_value(digits.drop_last(), base) == 0);
        assert(0 * base == 0);
    }
}

/// Digits without a leading zero are the minimal digits of their value.
pub proof fn lemma_minimal_of_value(digits: Seq<nat>, base: nat)
    requires
        base >= 2,
        all_below(digits, base),
        digits.len() > 0 ==> digits[0] > 0,
    ensures
        minimal_digits(digits_value(digits, base), base) == digits,
    decreases digits.len(),
{
    if digits.len() > 0 {
        lemma_value_positive(digits, base);
        lemma_value_div_mod(digits, base);
        lemma_minimal_of_value(digits.drop_last(), base);
        assert(digits.drop_last().push(digits.last()) =~= digits);
    }
}

/// The minimal digits of a number are digits, do not start with zero, and are worth the number.
pub proof fn lemma_value_of_minimal(value: nat, base: nat)
    requires
        base >= 2,
    ensures
        all_below(minimal_digits(value, base), base),
        minimal_digits(value, base).len() > 0 ==> minimal_digits(value, base)[0] > 0,
        digits_value(minimal_digits(value, base), base) == value,
    decreases value,
{
    if value > 0 {
        lemma_div_decreases(value as int, base as int);
        lemma_value_of_minimal(value / base, base);
        lemma_fundamental_div_mod(value as int, base as int);
        let rest = minimal_digits(value / base, base);
        let digits = minimal_digits(value, base);
        assert(digits.drop_last() =~= rest);
        lemma_mul_is_commutative(base as int, (value / base) as int);
        if rest.len() == 0 {
            assert(value / base == 0);
            assert(0 * base == 0);
        }
    }
}

/// Digits are recovered from their value when their number is known.
pub proof fn lemma_fixed_of_value(digits: Seq<nat>, base: nat)
    requires
        base >= 1,
        all_below(digits, base),
    ensures
        fixed_digits(digits_value(digits, base), base, digits.len()) == digits,
    decreases digits.len(),
{
    if digits.len() > 0 {
        lemma_value_div_mod(digits, base);
        lemma_fixed_of_value(digits.drop_last(), base);
        assert(digits.drop_last().push(digits.last()) =~= digits);
    }
}

/// There are `count` of the fixed digits, and each of them is a digit.
pub proof fn lemma_fixed_are_digits(value: nat, base: nat, count: nat)
    requires
        base >= 1,
    ensures
        fixed_digits(value, base, count).len() == count,
        all_below(fixed_digits(value, base, count), base),
    decreases count,
{
    if count > 0 {
        lemma_fixed_are_digits(value / base, base, (count - 1) as nat);
    }
}

/// A number below `base` to the power `count` is the value of its `count` fixed digits.
pub proof fn lemma_value_of_fixed(value: nat, base: nat, count: nat)
    requires
        base >= 1,
        value < pow(base as int, count),
    ensures
        digits_value(fixed_digits(value, base, count), base) == value,
    decreases count,
{
    reveal(pow);
    if count > 0 {
        let rest = (count - 1) as nat;
        let p = pow(base as int, rest);
        lemma_pow_positive(base as int, rest);
        lemma_fundamental_div_mod(value as int, base as int);
        assert(value / base < p) by {
            lemma_multiply_divide_lt(value as int, base as int, p);
            lemma_mul_is_commutative(base as int, p);
        }
        lemma_value_of_fixed(value / base, base, rest);
        let digits = fixed_digits(value, base, count);
        assert(digits.drop_last() =~= fixed_digits(value / base, base, rest));
        lemma_mul_is_commutative(base as int, (value / base) as int);
    }
}

/// `n` digits are worth less than `base` to the power `n`.
pub proof fn lemma_value_bound(digits: Seq<nat>, base: nat)
    requires
        base >= 1,
        all_below(digits, base),
    ensures
        digits_value(digits, base) < pow(base as int, digits.len()),
    decreases digits.len(),
{
    reveal(pow);
    if digits.len() > 0 {
        lemma_value_bound(digits.drop_last(), base);
        let rest = digits_value(digits.drop_last(), base) as int;
        let p = pow(base as int, (digits.len() - 1) as nat);
        let b = base as int;
        let last = digits.last() as int;
        assert(rest * b + last < b * p) by (nonlinear_arith)
            requires
                rest <= p - 1,
                0 <= last < b,
                b >= 1,
        ;
    }
}

/// Zeros in front of digits do not change their value.
pub proof fn lemma_value_ignores_zeros(count: nat, digits: Seq<nat>, base: nat)
    ensures
        digits_value(zeros(count) + digits, base) == digits_value(digits, base),
    decreases count + digits.len(),
{
    let all = zeros(count) + digits;
    if digits.len() > 0 {
        assert(all.drop_last() =~= zeros(count) + digits.drop_last());
        lemma_value_ignores_zeros(count, digits.drop_last(), base);
    } else if count > 0 {
        let fewer = (count - 1) as nat;
        assert(all.drop_last() =~= zeros(fewer) + digits);
        lemma_value_ignores_zeros(fewer, digits, base);
        assert(0 * base == 0);
    }
}

/// Digits are their leading zeros followed by digits that do not start with zero.
pub proof fn lemma_split_leading_zeros(digits: Seq<nat>)
    ensures
        leading_zeros(digits) <= digits.len(),
        digits == zeros(leading_zeros(digits)) + digits.skip(leading_zeros(digits) as int),
        leading_zeros(digits) < digits.len() ==> digits[leading_zeros(digits) as int] > 0,
    decreases digits.len(),
{
    if digits.len() > 0 && digits[0] == 0 {
        let tail = digits.drop_first();
        lemma_split_leading_zeros(tail);
        let z = leading_zeros(tail);
        assert(digits =~= zeros(1 + z) + digits.skip((1 + z) as int)) by {
            assert forall|i: int| 0 <= i < digits.len() implies digits[i] == (zeros(1 + z)
                + digits.skip((1 + z) as int))[i] by {
                if i > 0 {
                    assert(digits[i] == tail[i - 1]);
                    assert(tail[i - 1] == (zeros(z) + tail.skip(z as int))[i - 1]);
                }
            }
        }
    } else {
        assert(digits =~= zeros(0) + digits.skip(0));
    }
}

/// The leading zeros of zeros followed by a nonzero digit, or by nothing, are those zeros.
pub proof fn lemma_leading_zeros_of_join(count: nat, digits: Seq<nat>)
    requires
        digits.len() > 0 ==> digits[0] > 0,
    ensures
        leading_zeros(zeros(count) + digits) == count,
    decreases count,
{
    let all = zeros(count) + digits;
    if count > 0 {
        let fewer = (count - 1) as nat;
        assert(all.drop_first() =~= zeros(fewer) + digits);
        lemma_leading_zeros_of_join(fewer, digits);
    }
}

/// Digits followed by `n` digits are worth `base` to the power `n` as much, and the others.
pub proof fn lemma_value_of_join(head: Seq<nat>, tail: Seq<nat>, base: nat)
    ensures
        digits_value(head + tail, base) == digits_value(head, base) * pow(base as int, tail.len())
            + digits_value(tail, base),
    decreases tail.len(),
{
    reveal(pow);
    if tail.len() == 0 {
        assert(head + tail =~= head);
    } else {
        let fewer = tail.drop_last();
        assert((head + tail).drop_last() =~= head + fewer);
        lemma_value_of_join(head, fewer, base);
        let h = digits_value(head, base) as int;
        let t = digits_value(fewer, base) as int;
        let p = pow(base as int, fewer.len());
        let b = base as int;
        assert((h * p + t) * b == h * (b * p) + t * b) by (nonlinear_arith);
    }
}

/// The digits of a number start with those of its quotient by a power of the base.
pub proof fn lemma_first_digits(value: nat, base: nat, count: nat)
    requires
        base >= 2,
        value as int / pow(base as int, count) > 0,
    ensures
        minimal_digits(value, base).len() >= count,
        minimal_digits(value, base).take(minimal_digits(value, base).len() - count)
            == minimal_digits((value as int / pow(base as int, count)) as nat, base),
    decreases count,
{
    reveal(pow);
    let digits = minimal_digits(value, base);
    let power = pow(base as int, count);
    lemma_pow_positive(base as int, count);
    if count == 0 {
        assert(digits.take(digits.len() as int) =~= digits);
    } else {
        let fewer = (count - 1) as nat;
        let q = value / base;
        lemma_pow_positive(base as int, fewer);
        lemma_div_denominator(value as int, base as int, pow(base as int, fewer));
        assert(q as int / pow(base as int, fewer) == value as int / power);
        assert(value > 0) by {
            if value == 0 {
                assert(0int / power == 0) by (nonlinear_arith)
                    requires
                        power > 0,
                ;
            }
        }
        lemma_first_digits(q, base, fewer);
        assert(digits == minimal_digits(q, base).push(value % base));
        assert(digits.take(digits.len() - count) =~= minimal_digits(q, base).take(
            minimal_digits(q, base).len() - fewer,
        ));
    }
}

/// The digit at place `i`, counted from the first, is how often the power of that place goes into
/// the value, without what the digits before it take.
pub proof fn digit_at_its_place(value: nat, base: nat, count: nat, i: int)
    requires
        base >= 2,
    ensures
        0 <= i < minimal_digits(value, base).len() ==> minimal_digits(value, base)[i] == value / (
        pow(base as int, (minimal_digits(value, base).len() - 1 - i) as nat) as nat) % base,
        fixed_digits(value, base, count).len() == count,
        0 <= i < count ==> fixed_digits(value, base, count)[i] == value / (pow(
            base as int,
            (count - 1 - i) as nat,
        ) as nat) % base,
{
    lemma_minimal_digit(value, base, i);
    lemma_fixed_digit(value, base, count, i);
}

proof fn lemma_minimal_digit(value: nat, base: nat, i: int)
    requires
        base >= 2,
    ensures
        0 <= i < minimal_digits(value, base).len() ==> minimal_digits(value, base)[i] == value / (
        pow(base as int, (minimal_digits(value, base).len() - 1 - i) as nat) as nat) % base,
    decreases value,
{
    let len = minimal_digits(value, base).len();
    if 0 <= i < len {
        lemma_div_decreases(value as int, base as int);
        if i == len - 1 {
            lemma_last_digit(value, base);
        } else {
            lemma_minimal_digit(value / base, base, i);
            lemma_shifted_digit(value, base, (len - 2 - i) as nat);
        }
    }
}

proof fn lemma_fixed_digit(value: nat, base: nat, count: nat, i: int)
    requires
        base >= 2,
    ensures
        fixed_digits(value, base, count).len() == count,
        0 <= i < count ==> fixed_digits(value, base, count)[i] == value / (pow(
            base as int,
            (count - 1 - i) as nat,
        ) as nat) % base,
    decreases count,
{
    if count > 0 {
        lemma_fixed_digit(value / base, base, (count - 1) as nat, i);
        if 0 <= i < count {
            if i == count - 1 {
                lemma_last_digit(value, base);
            } else {
                lemma_shifted_digit(value, base, (count - 2 - i) as nat);
            }
        }
    }
}

proof fn lemma_last_digit(value: nat, base: nat)
    ensures
        value / (pow(base as int, 0) as nat) == value,
{
    lemma_pow0(base as int);
    lemma_div_basics(value as int);
}

proof fn lemma_shifted_digit(value: nat, base: nat, place: nat)
    requires
        base >= 2,
    ensures
        value / base / (pow(base as int, place) as nat) == value / (pow(
            base as int,
            place + 1,
        ) as nat),
{
    lemma_pow_positive(base as int, place);
    lemma_pow_positive(base as int, place + 1);
    reveal(pow);
    lemma_div_denominator(value as int, base as int, pow(base as int, place));
    assert(pow(base as int, place + 1) == base * pow(base as int, place));
}

} // verus!
