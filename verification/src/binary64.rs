//! Double-precision arithmetic over integers.
//!
//! A finite, non-negative double is a whole number of units of `2^-1074`, the
//! smallest positive double. Every operation rounds its exact result to the
//! nearest double, ties to even, as IEEE 754 has it.

use crate::wide;
use vstd::arithmetic::power2::pow2;
use vstd::prelude::*;

verus! {

/// The number one, in units.
pub open spec fn one() -> nat {
    pow2(1074)
}

/// Infinity: the first power of two that is too large for a double, in units.
pub open spec fn infinity() -> nat {
    pow2(2098)
}

/// The smallest `k`, from the given one up, at which `num / (den * 2^k)` has at
/// most `bits` bits; 2046 where no double is large enough.
pub open spec fn shift_from(num: nat, den: nat, bits: nat, k: nat) -> nat
    decreases 2046 - k,
{
    if k >= 2046 {
        2046
    } else if num < den * pow2(k + bits) {
        k
    } else {
        shift_from(num, den, bits, k + 1)
    }
}

/// `num / step`, rounded to the nearest integer, ties to even.
pub open spec fn round_even(num: nat, step: nat) -> nat {
    let q = num / step;
    let r = num % step;
    if 2 * r > step || (2 * r == step && q % 2 == 1) {
        q + 1
    } else {
        q
    }
}

/// The number of at most `bits` significant bits nearest to `num / den` units.
pub open spec fn nearest_in(num: nat, den: nat, bits: nat) -> nat {
    let k = shift_from(num, den, bits, 0);
    if k >= 2046 {
        infinity()
    } else {
        let v = round_even(num, den * pow2(k)) * pow2(k);
        if v >= infinity() {
            infinity()
        } else {
            v
        }
    }
}

/// The double nearest to `num / den` units.
pub open spec fn nearest(num: nat, den: nat) -> nat {
    nearest_in(num, den, 53)
}

/// The single-precision number nearest to `num / den` units, where that lies
/// within the range of such numbers.
pub open spec fn nearest_single(num: nat, den: nat) -> nat {
    nearest_in(num, den, 24)
}

/// The single-precision number nearest to a whole number.
pub open spec fn whole_single(n: nat) -> nat {
    nearest_single(n * one(), 1)
}

/// `done / total` in single precision, at most one.
pub open spec fn fraction(done: nat, total: nat) -> nat {
    at_most_one(nearest_single(whole_single(done) * one(), whole_single(total)))
}

/// A part in single precision, as a percentage.
pub open spec fn percent_of(a: nat) -> nat {
    nearest_single(a * 100, 1)
}

/// `a`, or one where it is more.
pub open spec fn at_most_one(a: nat) -> nat {
    if a > one() {
        one()
    } else {
        a
    }
}

pub open spec fn larger(a: nat, b: nat) -> nat {
    if a >= b {
        a
    } else {
        b
    }
}

/// The double nearest to a whole number.
pub open spec fn whole(n: nat) -> nat {
    nearest(n * one(), 1)
}

/// The product of two doubles.
pub open spec fn product(a: nat, b: nat) -> nat {
    if a >= infinity() || b >= infinity() {
        infinity()
    } else {
        nearest(a * b, one())
    }
}

/// The sum of two doubles.
pub open spec fn sum(a: nat, b: nat) -> nat {
    nearest(a + b, 1)
}

/// The quotient of two doubles, the second positive.
pub open spec fn quotient(a: nat, b: nat) -> nat {
    if b >= infinity() {
        0
    } else if a >= infinity() {
        infinity()
    } else {
        nearest(a * one(), b)
    }
}

/// The integer part, or the largest 64-bit number where it does not fit.
pub open spec fn truncated(a: nat) -> u64 {
    if a / one() > u64::MAX {
        u64::MAX
    } else {
        (a / one()) as u64
    }
}

/// The nearest integer, halves up, or the largest 64-bit number where it does
/// not fit.
pub open spec fn rounded(a: nat) -> u64 {
    let n = (2 * a + one()) / (2 * one());
    if n > u64::MAX {
        u64::MAX
    } else {
        n as u64
    }
}

/// `a * scale`, rounded to the nearest integer, ties to even; the largest 64-bit
/// number where it does not fit.
pub open spec fn scaled_round(a: nat, scale: nat) -> u64 {
    let n = round_even(a * scale, one());
    if n > u64::MAX {
        u64::MAX
    } else {
        n as u64
    }
}

/// The sign and the size that the bits of a double stand for; none for NaN.
pub open spec fn decoded(bits: u64) -> Option<(bool, nat)> {
    let negative = bits >= 0x8000_0000_0000_0000;
    let rest = bits % 0x8000_0000_0000_0000;
    let exponent = rest / 0x10_0000_0000_0000;
    let fraction = rest % 0x10_0000_0000_0000;
    if exponent == 2047 {
        if fraction == 0 {
            Some((negative, infinity()))
        } else {
            None
        }
    } else if exponent == 0 {
        Some((negative, fraction as nat * pow2(0)))
    } else {
        Some((negative, (0x10_0000_0000_0000 + fraction) as nat * pow2((exponent - 1) as nat)))
    }
}

/// The sign and the size that the bits of a double stand for; none for NaN.
pub fn decode(bits: u64) -> (r: Option<(bool, Magnitude)>)
    ensures
        match r {
            Some((negative, m)) => decoded(bits) == Some((negative, m@)),
            None => decoded(bits) is None,
        },
{
    let negative: bool = bits >= 0x8000_0000_0000_0000;
    let rest: u64 = bits % 0x8000_0000_0000_0000;
    let exponent: u64 = rest / 0x10_0000_0000_0000;
    let fraction: u64 = rest % 0x10_0000_0000_0000;
    if exponent == 2047 {
        if fraction == 0 {
            Some((negative, Magnitude::infinite()))
        } else {
            None
        }
    } else if exponent == 0 {
        Some((negative, Magnitude { mantissa: fraction, shift: 0 }))
    } else {
        Some(
            (
                negative,
                Magnitude {
                    mantissa: 0x10_0000_0000_0000 + fraction,
                    shift: (exponent - 1) as u32,
                },
            ),
        )
    }
}

/// A whole number other than zero is more than zero in single precision.
pub proof fn lemma_whole_single_positive(n: nat)
    requires
        0 < n,
    ensures
        whole_single(n) > 0,
{
    vstd::arithmetic::power2::lemma_pow2_pos(1074);
    assert(n * one() >= 1) by (nonlinear_arith)
        requires
            n > 0,
            one() > 0,
    ;
    lemma_nearest_positive(n * one(), 1, 24);
}

/// A whole number other than zero is more than zero in double precision.
pub proof fn lemma_whole_positive(n: nat)
    requires
        0 < n,
    ensures
        whole(n) > 0,
{
    vstd::arithmetic::power2::lemma_pow2_pos(1074);
    assert(n * one() >= 1) by (nonlinear_arith)
        requires
            n > 0,
            one() > 0,
    ;
    lemma_nearest_positive(n * one(), 1, 53);
}

/// What is at least one unit rounds to more than zero.
pub proof fn lemma_nearest_positive(num: nat, den: nat, bits: nat)
    requires
        num >= den > 0,
        2 <= bits,
    ensures
        nearest_in(num, den, bits) > 0,
{
    lemma_nearest_positive_from(num, den, bits, 0);
}

proof fn lemma_nearest_positive_from(num: nat, den: nat, bits: nat, k: nat)
    requires
        num >= den > 0,
        2 <= bits,
        k <= 2046,
        shift_from(num, den, bits, 0) == shift_from(num, den, bits, k),
        k > 0 ==> num >= den * pow2((k - 1 + bits) as nat),
    ensures
        nearest_in(num, den, bits) > 0,
    decreases 2046 - k,
{
    vstd::arithmetic::power2::lemma_pow2_pos(2098);
    if k >= 2046 {
    } else if num < den * pow2(k + bits) {
        let step = den * pow2(k);
        vstd::arithmetic::power2::lemma_pow2_pos(k);
        assert(step > 0) by (nonlinear_arith)
            requires
                step == den * pow2(k),
                den > 0,
                pow2(k) > 0,
        ;
        assert(num >= step) by {
            if k == 0 {
                vstd::arithmetic::power2::lemma2_to64();
                assert(den * pow2(0) == den) by (nonlinear_arith)
                    requires
                        pow2(0) == 1,
                ;
            } else {
                vstd::arithmetic::power2::lemma_pow2_strictly_increases(k, (k - 1 + bits) as nat);
                assert(den * pow2(k) <= den * pow2((k - 1 + bits) as nat)) by (nonlinear_arith)
                    requires
                        pow2(k) <= pow2((k - 1 + bits) as nat),
                ;
            }
        }
        vstd::arithmetic::div_mod::lemma_div_non_zero(num as int, step as int);
        assert(round_even(num, step) > 0);
        assert(round_even(num, step) * pow2(k) > 0) by (nonlinear_arith)
            requires
                round_even(num, step) > 0,
                pow2(k) > 0,
        ;
    } else {
        lemma_nearest_positive_from(num, den, bits, k + 1);
    }
}

proof fn lemma_shift_grows(a: nat, b: nat, den: nat, bits: nat, k: nat)
    requires
        a <= b,
    ensures
        shift_from(a, den, bits, k) <= shift_from(b, den, bits, k),
        k <= 2046 ==> k <= shift_from(a, den, bits, k) <= 2046,
        shift_from(a, den, bits, k) < 2046 ==> a < den * pow2(
            shift_from(a, den, bits, k) + bits,
        ),
        k < shift_from(b, den, bits, k) <= 2046 ==> b >= den * pow2(
            (shift_from(b, den, bits, k) - 1 + bits) as nat,
        ),
    decreases 2046 - k,
{
    if k < 2046 {
        lemma_shift_grows(a, b, den, bits, k + 1);
        lemma_shift_grows(a, a, den, bits, k + 1);
        lemma_shift_grows(b, b, den, bits, k + 1);
    }
}

proof fn lemma_round_even_grows(a: nat, b: nat, step: nat)
    requires
        a <= b,
        step > 0,
    ensures
        round_even(a, step) <= round_even(b, step),
        a / step <= round_even(a, step) <= a / step + 1,
{
    vstd::arithmetic::div_mod::lemma_div_is_ordered(a as int, b as int, step as int);
    if a / step == b / step {
        vstd::arithmetic::div_mod::lemma_fundamental_div_mod(a as int, step as int);
        vstd::arithmetic::div_mod::lemma_fundamental_div_mod(b as int, step as int);
    }
}

/// What is not less does not become less when it is rounded.
pub proof fn lemma_nearest_grows(a: nat, b: nat, den: nat, bits: nat)
    requires
        a <= b,
        den > 0,
        bits > 0,
    ensures
        nearest_in(a, den, bits) <= nearest_in(b, den, bits) <= infinity(),
{
    let ka = shift_from(a, den, bits, 0);
    let kb = shift_from(b, den, bits, 0);
    lemma_shift_grows(a, b, den, bits, 0);
    if kb < 2046 {
        vstd::arithmetic::power2::lemma_pow2_pos(ka);
        vstd::arithmetic::power2::lemma_pow2_pos(kb);
        let pa = pow2(ka);
        let pb = pow2(kb);
        let sa = den * pa;
        let sb = den * pb;
        assert(sa > 0 && sb > 0) by (nonlinear_arith)
            requires
                den > 0,
                pa > 0,
                pb > 0,
                sa == den * pa,
                sb == den * pb,
        ;
        let ra = round_even(a, sa);
        let rb = round_even(b, sb);
        if ka == kb {
            lemma_round_even_grows(a, b, sa);
            assert(ra * pa <= rb * pb) by (nonlinear_arith)
                requires
                    ra <= rb,
                    pa == pb,
            ;
        } else {
            let top = pow2(bits);
            let half = pow2((bits - 1) as nat);
            vstd::arithmetic::power2::lemma_pow2_adds(ka, bits);
            vstd::arithmetic::power2::lemma_pow2_adds(kb, (bits - 1) as nat);
            assert(den * (pa * top) == top * sa) by (nonlinear_arith)
                requires
                    sa == den * pa,
            ;
            assert(den * (pb * half) == half * sb) by (nonlinear_arith)
                requires
                    sb == den * pb,
            ;
            lemma_round_even_grows(a, a, sa);
            lemma_round_even_grows(b, b, sb);
            lemma_at_most(a, sa, top);
            vstd::arithmetic::div_mod::lemma_div_is_ordered(
                (half * sb) as int,
                b as int,
                sb as int,
            );
            vstd::arithmetic::div_mod::lemma_div_by_multiple(half as int, sb as int);
            assert(half <= rb);
            if ka + bits < kb + bits - 1 {
                vstd::arithmetic::power2::lemma_pow2_strictly_increases(
                    ka + bits,
                    (kb + bits - 1) as nat,
                );
            }
            assert(ra * pa <= rb * pb) by (nonlinear_arith)
                requires
                    ra <= top,
                    half <= rb,
                    pa * top <= pb * half,
            ;
        }
    }
}

proof fn lemma_at_most(a: nat, step: nat, top: nat)
    requires
        step > 0,
        a < top * step,
    ensures
        round_even(a, step) <= top,
{
    vstd::arithmetic::div_mod::lemma_fundamental_div_mod(a as int, step as int);
    assert(a / step < top) by (nonlinear_arith)
        requires
            a == step * (a / step) + a % step,
            a < top * step,
            step > 0,
    ;
}

/// What is not less stays so as a double.
pub proof fn lemma_whole_grows(a: nat, b: nat)
    requires
        a <= b,
    ensures
        whole(a) <= whole(b),
{
    assert(a * one() <= b * one()) by (nonlinear_arith)
        requires
            a <= b,
    ;
    lemma_nearest_grows(a * one(), b * one(), 1, 53);
}

/// What is not less stays so when both are divided.
pub proof fn lemma_quotient_grows(a: nat, b: nat, c: nat)
    requires
        a <= b,
        c > 0,
    ensures
        quotient(a, c) <= quotient(b, c),
{
    assert(a * one() <= b * one()) by (nonlinear_arith)
        requires
            a <= b,
    ;
    lemma_nearest_grows(a * one(), b * one(), c, 53);
}

/// What is not less stays so when both are multiplied.
pub proof fn lemma_product_grows(a: nat, b: nat, c: nat)
    requires
        a <= b,
    ensures
        product(a, c) <= product(b, c),
{
    vstd::arithmetic::power2::lemma_pow2_pos(1074);
    assert(a * c <= b * c) by (nonlinear_arith)
        requires
            a <= b,
    ;
    lemma_nearest_grows(a * c, b * c, one(), 53);
}

/// What is not less has no smaller integer part.
pub proof fn lemma_truncated_grows(a: nat, b: nat)
    requires
        a <= b,
    ensures
        truncated(a) <= truncated(b),
{
    vstd::arithmetic::power2::lemma_pow2_pos(1074);
    vstd::arithmetic::div_mod::lemma_div_is_ordered(a as int, b as int, one() as int);
}

proof fn lemma_shift_at_most(num: nat, den: nat, bits: nat, k: nat, j: nat)
    requires
        k <= j < 2046,
        num < den * pow2(j + bits),
    ensures
        shift_from(num, den, bits, k) <= j,
    decreases j - k,
{
    if k < j {
        lemma_shift_at_most(num, den, bits, k + 1, j);
    }
}

/// A number that has few enough significant bits is rounded to itself.
pub proof fn law_nearest_keeps_what_fits(m: nat, j: nat, den: nat, bits: nat)
    requires
        m < pow2(bits),
        j < 2046,
        den > 0,
        m * pow2(j) < infinity(),
    ensures
        nearest_in(m * pow2(j) * den, den, bits) == m * pow2(j),
{
    let v = m * pow2(j);
    let num = v * den;
    vstd::arithmetic::power2::lemma_pow2_pos(j);
    vstd::arithmetic::power2::lemma_pow2_adds(j, bits);
    assert(num < den * pow2(j + bits)) by (nonlinear_arith)
        requires
            num == m * pow2(j) * den,
            m < pow2(bits),
            pow2(j) > 0,
            den > 0,
            pow2(j + bits) == pow2(j) * pow2(bits),
    ;
    lemma_shift_at_most(num, den, bits, 0, j);
    let k = shift_from(num, den, bits, 0);
    let rest = pow2((j - k) as nat);
    vstd::arithmetic::power2::lemma_pow2_pos(k);
    vstd::arithmetic::power2::lemma_pow2_adds(k, (j - k) as nat);
    let step = den * pow2(k);
    assert(num == (m * rest) * step && step > 0) by (nonlinear_arith)
        requires
            num == m * pow2(j) * den,
            pow2(j) == pow2(k) * rest,
            step == den * pow2(k),
            den > 0,
            pow2(k) > 0,
    ;
    vstd::arithmetic::div_mod::lemma_div_by_multiple((m * rest) as int, step as int);
    vstd::arithmetic::div_mod::lemma_mod_multiples_basic((m * rest) as int, step as int);
    assert(m * rest * pow2(k) == v) by (nonlinear_arith)
        requires
            v == m * pow2(j),
            pow2(j) == pow2(k) * rest,
    ;
}

proof fn lemma_ties_are_even(num: nat, step: nat)
    requires
        step > 0,
    ensures
        2 * distance((round_even(num, step) * step) as int, num as int) == step ==> round_even(
            num,
            step,
        ) % 2 == 0,
{
    let f = num / step;
    vstd::arithmetic::div_mod::lemma_fundamental_div_mod(num as int, step as int);
    assert((f + 1) * step == f * step + step) by (nonlinear_arith);
    assert(step * f == f * step) by (nonlinear_arith);
}

/// The distance between two numbers.
pub open spec fn distance(a: int, b: int) -> int {
    if a >= b {
        a - b
    } else {
        b - a
    }
}

proof fn lemma_round_even_is_nearest(num: nat, step: nat, q: nat)
    requires
        step > 0,
    ensures
        distance((round_even(num, step) * step) as int, num as int) <= distance(
            (q * step) as int,
            num as int,
        ),
        2 * distance((round_even(num, step) * step) as int, num as int) <= step,
{
    let f = num / step;
    let r = num % step;
    vstd::arithmetic::div_mod::lemma_fundamental_div_mod(num as int, step as int);
    assert((f + 1) * step == f * step + step) by (nonlinear_arith);
    assert(step * f == f * step) by (nonlinear_arith);
    if q <= f {
        assert(q * step <= f * step) by (nonlinear_arith)
            requires
                q <= f,
        ;
    } else {
        assert(q * step >= (f + 1) * step) by (nonlinear_arith)
            requires
                q >= f + 1,
        ;
    }
}

pub open spec fn shifted(n: nat, k: nat) -> nat {
    n * pow2(k)
}

/// A rounded quotient is within half of the exact one.
pub proof fn lemma_round_even_is_near(num: nat, step: nat)
    requires
        step > 0,
    ensures
        2 * distance((round_even(num, step) * step) as int, num as int) <= step,
        round_even(num, step) <= num / step + 1,
        (num / step) * step <= num,
        num / step <= num,
{
    lemma_round_even_is_nearest(num, step, 0);
    vstd::arithmetic::div_mod::lemma_fundamental_div_mod(num as int, step as int);
    vstd::arithmetic::div_mod::lemma_div_is_ordered_by_denominator(num as int, 1, step as int);
    assert(step * (num / step) == (num / step) * step) by (nonlinear_arith);
}

/// What a number is rounded to is a number of the asked significant bits, and no
/// other such number is nearer; halfway between two it is the even one.
pub proof fn law_nearest_is_nearest(num: nat, den: nat, bits: nat, m: nat, j: nat)
    requires
        den > 0,
        bits > 0,
        m < pow2(bits),
        nearest_in(num, den, bits) < infinity(),
    ensures
        distance((nearest_in(num, den, bits) * den) as int, num as int) <= distance(
            (m * pow2(j) * den) as int,
            num as int,
        ),
        exists|n: nat, k: nat|
            n <= pow2(bits) && nearest_in(num, den, bits) == #[trigger] shifted(n, k) && (2
                * distance((shifted(n, k) * den) as int, num as int) == den * pow2(k) ==> n % 2
                == 0),
{
    let k = shift_from(num, den, bits, 0);
    lemma_shift_grows(num, num, den, bits, 0);
    vstd::arithmetic::power2::lemma_pow2_pos(k);
    vstd::arithmetic::power2::lemma_pow2_pos(j);
    let pk = pow2(k);
    let step = den * pk;
    assert(step > 0) by (nonlinear_arith)
        requires
            den > 0,
            pk > 0,
            step == den * pk,
    ;
    let r = round_even(num, step);
    let y = m * pow2(j);
    assert(r * pk * den == r * step) by (nonlinear_arith)
        requires
            step == den * pk,
    ;
    vstd::arithmetic::power2::lemma_pow2_adds(k, bits);
    assert(den * pow2(k + bits) == pow2(bits) * step) by (nonlinear_arith)
        requires
            pow2(k + bits) == pk * pow2(bits),
            step == den * pk,
    ;
    lemma_at_most(num, step, pow2(bits));
    assert(nearest_in(num, den, bits) == shifted(r, k));
    lemma_ties_are_even(num, step);
    if j >= k {
        let rest = pow2((j - k) as nat);
        vstd::arithmetic::power2::lemma_pow2_adds(k, (j - k) as nat);
        lemma_round_even_is_nearest(num, step, m * rest);
        assert(m * rest * step == y * den) by (nonlinear_arith)
            requires
                y == m * pow2(j),
                pow2(j) == pk * rest,
                step == den * pk,
        ;
    } else {
        let half = pow2((bits - 1) as nat);
        lemma_round_even_is_nearest(num, step, half);
        vstd::arithmetic::power2::lemma_pow2_adds(k, (bits - 1) as nat);
        vstd::arithmetic::power2::lemma_pow2_adds(j, bits);
        if j + bits < k + bits - 1 {
            vstd::arithmetic::power2::lemma_pow2_strictly_increases(
                j + bits,
                (k - 1 + bits) as nat,
            );
        }
        assert(half * step == den * pow2((k - 1 + bits) as nat)) by (nonlinear_arith)
            requires
                pow2((k - 1 + bits) as nat) == pk * half,
                step == den * pk,
        ;
        assert(y * den <= den * pow2(j + bits)) by (nonlinear_arith)
            requires
                y == m * pow2(j),
                m < pow2(bits),
                pow2(j + bits) == pow2(j) * pow2(bits),
        ;
        assert(den * pow2(j + bits) <= den * pow2((k - 1 + bits) as nat)) by (nonlinear_arith)
            requires
                pow2(j + bits) <= pow2((k - 1 + bits) as nat),
        ;
    }
}

proof fn lemma_below_infinity(n: nat)
    requires
        n <= pow2(64),
    ensures
        n * one() < infinity(),
        one() > 0,
{
    vstd::arithmetic::power2::lemma_pow2_pos(1074);
    vstd::arithmetic::power2::lemma_pow2_adds(64, 1074);
    vstd::arithmetic::power2::lemma_pow2_strictly_increases(1138, 2098);
    assert(n * one() <= pow2(64) * pow2(1074)) by (nonlinear_arith)
        requires
            n <= pow2(64),
            one() == pow2(1074),
    ;
}

/// Whole numbers below 2^53 are doubles.
pub proof fn law_whole_is_exact(n: nat)
    requires
        n < 0x20_0000_0000_0000,
    ensures
        whole(n) == n * one(),
        one() > 0,
        whole(n) < infinity(),
{
    vstd::arithmetic::power2::lemma2_to64_rest();
    lemma_below_infinity(n);
    law_nearest_keeps_what_fits(n, 1074, 1, 53);
}

/// Whole numbers below 2^24 are numbers in single precision.
pub proof fn law_whole_single_is_exact(n: nat)
    requires
        n < 0x100_0000,
    ensures
        whole_single(n) == n * one(),
        one() > 0,
        whole_single(n) < infinity(),
{
    vstd::arithmetic::power2::lemma2_to64();
    vstd::arithmetic::power2::lemma2_to64_rest();
    lemma_below_infinity(n);
    law_nearest_keeps_what_fits(n, 1074, 1, 24);
}

/// Arithmetic on whole numbers below 2^53 is exact, and they are read back.
pub proof fn law_whole_numbers_are_computed_exactly(a: nat, b: nat)
    requires
        a + b < 0x20_0000_0000_0000,
        a * b < 0x20_0000_0000_0000,
    ensures
        sum(whole(a), whole(b)) == whole(a + b),
        product(whole(a), whole(b)) == whole(a * b),
        b > 0 ==> quotient(whole(a * b), whole(b)) == whole(a),
        truncated(whole(a)) == a,
        rounded(whole(a)) == a,
{
    vstd::arithmetic::power2::lemma2_to64_rest();
    law_whole_is_exact(a);
    law_whole_is_exact(b);
    law_whole_is_exact(a + b);
    law_whole_is_exact(a * b);
    let o = one();
    assert(a * o + b * o == (a + b) * o) by (nonlinear_arith);
    law_nearest_keeps_what_fits(a + b, 1074, 1, 53);
    assert((a * o) * (b * o) == (a * b) * o * o) by (nonlinear_arith);
    law_nearest_keeps_what_fits(a * b, 1074, o, 53);
    if b > 0 {
        assert(b * o > 0 && (a * b) * o * o == a * o * (b * o)) by (nonlinear_arith)
            requires
                b > 0,
                o > 0,
        ;
        law_nearest_keeps_what_fits(a, 1074, b * o, 53);
    }
    vstd::arithmetic::div_mod::lemma_div_by_multiple(a as int, o as int);
    assert((2 * (a * o) + o) == a * (2 * o) + o) by (nonlinear_arith);
    vstd::arithmetic::div_mod::lemma_fundamental_div_mod_converse(
        (2 * (a * o) + o) as int,
        (2 * o) as int,
        a as int,
        o as int,
    );
}

/// Nothing over something is nothing, and so is nothing times something.
pub proof fn lemma_zero(a: nat, b: nat)
    requires
        a > 0,
    ensures
        quotient(0, a) == 0,
        b < infinity() ==> product(0, b) == 0,
        b < infinity() ==> truncated(product(quotient(0, a), b)) == 0,
        nearest(0, a) == 0,
{
    vstd::arithmetic::power2::lemma_pow2_pos(1074);
    vstd::arithmetic::power2::lemma_pow2_pos(2098);
    vstd::arithmetic::power2::lemma_pow2_pos(53);
    law_nearest_keeps_what_fits(0, 0, a, 53);
    law_nearest_keeps_what_fits(0, 0, one(), 53);
    assert(0 * pow2(0) * a == 0) by (nonlinear_arith);
    assert(0 * pow2(0) * one() == 0) by (nonlinear_arith);
    assert(0 * one() == 0);
    assert(0 * b == 0);
    assert(0 * pow2(0) == 0);
}

/// Every 64-bit number is finite as a double.
pub proof fn lemma_whole_is_finite(n: nat)
    requires
        n <= u64::MAX,
    ensures
        whole(n) < infinity(),
{
    vstd::arithmetic::power2::lemma2_to64();
    vstd::arithmetic::power2::lemma2_to64_rest();
    vstd::arithmetic::power2::lemma_pow2_adds(64, 1074);
    vstd::arithmetic::power2::lemma_pow2_strictly_increases(1138, 2098);
    lemma_whole_grows(n, pow2(64));
    law_nearest_keeps_what_fits(1, 1138, 1, 53);
    assert(pow2(64) * one() == 1 * pow2(1138) * 1);
}

/// Equal fractions are rounded alike.
pub proof fn law_equal_fractions_are_rounded_alike(num: nat, den: nat, bits: nat, c: nat)
    requires
        den > 0,
        c > 0,
    ensures
        nearest_in(c * num, c * den, bits) == nearest_in(num, den, bits),
{
    lemma_shift_scales(num, den, bits, c, 0);
    let k = shift_from(num, den, bits, 0);
    vstd::arithmetic::power2::lemma_pow2_pos(k);
    let step = den * pow2(k);
    assert(c * den * pow2(k) == c * step) by (nonlinear_arith)
        requires
            step == den * pow2(k),
    ;
    assert(step > 0 && c * step > 0) by (nonlinear_arith)
        requires
            step == den * pow2(k),
            den > 0,
            pow2(k) > 0,
            c > 0,
    ;
    let q = num / step;
    let r = num % step;
    vstd::arithmetic::div_mod::lemma_fundamental_div_mod(num as int, step as int);
    assert(c * num == (c * step) * q + c * r && c * r < c * step) by (nonlinear_arith)
        requires
            num == step * q + r,
            r < step,
            c > 0,
    ;
    assert((c * step) * q == q * (c * step)) by (nonlinear_arith);
    vstd::arithmetic::div_mod::lemma_fundamental_div_mod_converse(
        (c * num) as int,
        (c * step) as int,
        q as int,
        (c * r) as int,
    );
    assert(2 * (c * r) > c * step <==> 2 * r > step) by (nonlinear_arith)
        requires
            c > 0,
    ;
    assert(2 * (c * r) == c * step <==> 2 * r == step) by (nonlinear_arith)
        requires
            c > 0,
    ;
}

proof fn lemma_shift_scales(num: nat, den: nat, bits: nat, c: nat, k: nat)
    requires
        c > 0,
    ensures
        shift_from(c * num, c * den, bits, k) == shift_from(num, den, bits, k),
    decreases 2046 - k,
{
    if k < 2046 {
        assert(c * num < c * den * pow2(k + bits) <==> num < den * pow2(k + bits))
            by (nonlinear_arith)
            requires
                c > 0,
        ;
        lemma_shift_scales(num, den, bits, c, k + 1);
    }
}

/// A part in single precision is that of what is done in the total, rounded once, as
/// long as both are below 2^24: nothing, everything, and in between what is nearest.
pub proof fn law_fractions_are_parts(done: nat, total: nat)
    requires
        0 < total < 0x100_0000,
        done <= total,
    ensures
        fraction(done, total) == nearest_single(done * one(), total),
        fraction(0, total) == 0,
        fraction(total, total) == one(),
        fraction(done, total) <= one(),
{
    vstd::arithmetic::power2::lemma2_to64();
    vstd::arithmetic::power2::lemma2_to64_rest();
    vstd::arithmetic::power2::lemma_pow2_pos(2098);
    law_whole_single_is_exact(done);
    law_whole_single_is_exact(total);
    law_whole_single_is_exact(0);
    let o = one();
    assert(done * o * o == o * (done * o)) by (nonlinear_arith);
    assert(total * o == o * total) by (nonlinear_arith);
    law_equal_fractions_are_rounded_alike(done * o, total, 24, o);
    assert(total * o * o == o * (total * o)) by (nonlinear_arith);
    law_equal_fractions_are_rounded_alike(total * o, total, 24, o);
    law_equal_fractions_are_rounded_alike(0, total, 24, o);
    vstd::arithmetic::power2::lemma_pow2_strictly_increases(1074, 2098);
    law_nearest_keeps_what_fits(1, 1074, total, 24);
    assert(1 * pow2(1074) * total == total * o) by (nonlinear_arith)
        requires
            o == pow2(1074),
    ;
    law_nearest_keeps_what_fits(0, 0, total, 24);
    assert(0 * pow2(0) * total == 0) by (nonlinear_arith);
    assert(done * o <= total * o) by (nonlinear_arith)
        requires
            done <= total,
    ;
    lemma_nearest_grows(done * o, total * o, total, 24);
    assert(0 * o == 0 && 0 * o * o == 0 && o * 0 == 0);
}

/// A part is never more where less is done.
pub proof fn law_fractions_grow(a: nat, b: nat, total: nat)
    requires
        a <= b,
        0 < total,
    ensures
        fraction(a, total) <= fraction(b, total) <= one(),
{
    lemma_whole_single_positive(total);
    assert(a * one() <= b * one()) by (nonlinear_arith)
        requires
            a <= b,
    ;
    lemma_nearest_grows(a * one(), b * one(), 1, 24);
    assert(whole_single(a) * one() <= whole_single(b) * one()) by (nonlinear_arith)
        requires
            whole_single(a) <= whole_single(b),
    ;
    lemma_nearest_grows(
        whole_single(a) * one(),
        whole_single(b) * one(),
        whole_single(total),
        24,
    );
}

/// A whole percentage is a hundred times its part.
pub proof fn law_everything_is_a_hundred_percent()
    ensures
        percent_of(one()) == 100 * one(),
        percent_of(0) == 0,
{
    vstd::arithmetic::power2::lemma2_to64();
    vstd::arithmetic::power2::lemma2_to64_rest();
    vstd::arithmetic::power2::lemma_pow2_pos(2098);
    law_whole_single_is_exact(100);
    law_whole_single_is_exact(0);
    assert(one() * 100 == 100 * one());
    assert(0 * one() == 0);
}

/// The sum of two whole numbers below 2^53 is exact.
pub proof fn lemma_sum_of_wholes(a: nat, b: nat)
    requires
        a + b < 0x20_0000_0000_0000,
    ensures
        sum(whole(a), whole(b)) == whole(a + b),
{
    vstd::arithmetic::power2::lemma2_to64_rest();
    law_whole_is_exact(a);
    law_whole_is_exact(b);
    law_whole_is_exact(a + b);
    let o = one();
    assert(a * o + b * o == (a + b) * o) by (nonlinear_arith);
    law_nearest_keeps_what_fits(a + b, 1074, 1, 53);
}

/// A larger summand gives no smaller sum.
pub proof fn lemma_sum_grows(a: nat, b: nat, c: nat)
    requires
        a <= b,
    ensures
        sum(a, c) <= sum(b, c),
        sum(c, a) <= sum(c, b),
{
    lemma_nearest_grows(a + c, b + c, 1, 53);
}

/// A non-negative double other than NaN.
#[derive(Clone, Copy, Debug)]
pub struct Magnitude {
    mantissa: u64,
    shift: u32,
}

impl View for Magnitude {
    type V = nat;

    closed spec fn view(&self) -> nat {
        self.mantissa as nat * pow2(self.shift as nat)
    }
}

fn is_zero(a: &Vec<u32>) -> (r: bool)
    ensures
        r == (wide::value(a@) == 0),
{
    let one: Vec<u32> = wide::from_u64(1);
    match wide::minus(a, &one) {
        Some(_) => false,
        None => true,
    }
}

proof fn lemma_shift_from_skips(num: nat, den: nat, bits: nat, k: nat, to: nat)
    requires
        k < to <= 2046,
        num >= den * pow2((to - 1 + bits) as nat),
    ensures
        shift_from(num, den, bits, k) == shift_from(num, den, bits, to),
    decreases to - k,
{
    if k < to - 1 {
        vstd::arithmetic::power2::lemma_pow2_strictly_increases(k + bits, (to - 1 + bits) as nat);
        assert(den * pow2(k + bits) <= den * pow2((to - 1 + bits) as nat)) by (nonlinear_arith)
            requires
                pow2(k + bits) <= pow2((to - 1 + bits) as nat),
        ;
        lemma_shift_from_skips(num, den, bits, k + 1, to);
    }
}

/// The shift that two lengths in limbs suggest: that of the difference between
/// them, less the significant bits and two limbs. It is 0 where the difference is
/// too small, and where it is beyond what a double can hold.
pub open spec fn suggested_shift(num_limbs: nat, den_limbs: nat, bits: nat) -> nat {
    let limbs = num_limbs - den_limbs;
    if limbs <= 60 && 32 * limbs > bits + 64 {
        (32 * limbs - bits - 64) as nat
    } else {
        0
    }
}

/// A shift from which the search for the right one can begin, near to it: the one
/// that the lengths suggest, unless the number is too small for it.
fn first_shift(num: &Vec<u32>, den: &Vec<u32>, bits: u32) -> (r: u32)
    requires
        bits <= 53,
    ensures
        r <= 2046,
        ({
            let k = suggested_shift(num@.len(), den@.len(), bits as nat);
            r == if k > 0 && wide::value(num@) >= wide::value(den@) * pow2(
                (k - 1 + bits) as nat,
            ) {
                k
            } else {
                0
            }
        }),
        shift_from(wide::value(num@), wide::value(den@), bits as nat, 0) == shift_from(
            wide::value(num@),
            wide::value(den@),
            bits as nat,
            r as nat,
        ),
{
    if num.len() <= den.len() || num.len() - den.len() > 60 {
        return 0;
    }
    let limbs: u32 = (num.len() - den.len()) as u32;
    if limbs * 32 <= bits + 64 {
        return 0;
    }
    let k: u32 = limbs * 32 - bits - 64;
    let low: Vec<u32> = wide::shift_left(den, k - 1 + bits);
    match wide::minus(num, &low) {
        Some(_) => {
            proof {
                lemma_shift_from_skips(
                    wide::value(num@),
                    wide::value(den@),
                    bits as nat,
                    0,
                    k as nat,
                );
            }
            k
        },
        None => 0,
    }
}

/// The number of at most `bits` significant bits nearest to `num / den` units.
fn nearest_of(num: &Vec<u32>, den: &Vec<u32>, bits: u32) -> (r: Magnitude)
    requires
        wide::value(den@) > 0,
        1 <= bits <= 53,
    ensures
        r@ == nearest_in(wide::value(num@), wide::value(den@), bits as nat),
{
    let ghost n = wide::value(num@);
    let ghost d = wide::value(den@);
    let ghost b = bits as nat;
    let mut k: u32 = first_shift(num, den, bits);
    let mut step: Vec<u32> = wide::shift_left(den, k);
    let mut top: Vec<u32> = wide::shift_left(den, k + bits);
    let mut large: bool = true;
    while large && k < 2046
        invariant
            k <= 2046,
            bits <= 53,
            b == bits,
            n == wide::value(num@),
            d == wide::value(den@),
            shift_from(n, d, b, 0) == shift_from(n, d, b, k as nat),
            wide::value(step@) == d * pow2(k as nat),
            wide::value(top@) == d * pow2((k + bits) as nat),
            !large ==> k < 2046 && n < d * pow2((k + bits) as nat),
        decreases 2046 - k, (if large {
            1int
        } else {
            0
        }),
    {
        match wide::minus(num, &top) {
            None => {
                large = false;
            },
            Some(_) => {
                proof {
                    vstd::arithmetic::power2::lemma_pow2_unfold((k + 1) as nat);
                    vstd::arithmetic::power2::lemma_pow2_unfold((k + bits + 1) as nat);
                    assert(d * pow2(k as nat) * 2 == d * (2 * pow2(k as nat))) by (nonlinear_arith);
                    assert(d * pow2((k + bits) as nat) * 2 == d * (2 * pow2((k + bits) as nat)))
                        by (nonlinear_arith);
                }
                step = wide::mul_add(&step, 2, 0);
                top = wide::mul_add(&top, 2, 0);
                k += 1;
            },
        }
    }
    proof {
        vstd::arithmetic::power2::lemma2_to64();
    }
    if k >= 2046 {
        return Magnitude { mantissa: 1, shift: 2098 };
    }
    proof {
        vstd::arithmetic::power2::lemma_pow2_pos(k as nat);
        vstd::arithmetic::power2::lemma_pow2_adds(k as nat, b);
        assert(d * (pow2(k as nat) * pow2(b)) == (d * pow2(k as nat)) * pow2(b))
            by (nonlinear_arith);
        assert(d * pow2(k as nat) > 0) by (nonlinear_arith)
            requires
                d > 0,
                pow2(k as nat) > 0,
        ;
        vstd::arithmetic::power2::lemma2_to64_rest();
        if bits < 53 {
            vstd::arithmetic::power2::lemma_pow2_strictly_increases(b, 53);
        }
    }
    let (q, rest) = wide::divide(num, &step, bits);
    let ghost s = wide::value(step@);
    proof {
        vstd::arithmetic::div_mod::lemma_fundamental_div_mod_converse(
            n as int,
            s as int,
            q as int,
            wide::value(rest@) as int,
        );
    }
    let twice: Vec<u32> = wide::mul_add(&rest, 2, 0);
    let up: bool = match wide::minus(&twice, &step) {
        Some(over) => !is_zero(&over) || q % 2 == 1,
        None => false,
    };
    let m: u64 = if up {
        q + 1
    } else {
        q
    };
    assert(m == round_even(n, s));
    proof {
        vstd::arithmetic::power2::lemma_pow2_adds(53, 2045);
        if k < 2045 {
            vstd::arithmetic::power2::lemma_pow2_strictly_increases(k as nat, 2045);
        }
        assert(m as nat * pow2(k as nat) <= pow2(53) * pow2(k as nat)) by (nonlinear_arith)
            requires
                m as nat <= pow2(53),
        ;
        if k < 2045 {
            assert(pow2(53) * pow2(k as nat) < pow2(53) * pow2(2045)) by (nonlinear_arith)
                requires
                    pow2(k as nat) < pow2(2045),
                    pow2(53) > 0,
            ;
        } else if m < pow2(53) {
            assert(m as nat * pow2(2045) < pow2(53) * pow2(2045)) by (nonlinear_arith)
                requires
                    m as nat <= pow2(53) - 1,
                    pow2(2045) > 0,
            ;
        }
    }
    if k == 2045 && m == 0x20_0000_0000_0000 {
        return Magnitude { mantissa: 1, shift: 2098 };
    }
    Magnitude { mantissa: m, shift: k }
}

impl Magnitude {
    #[verifier::type_invariant]
    spec fn well_formed(self) -> bool {
        self.mantissa <= 0x20_0000_0000_0000 && self.shift <= 2098
    }

    fn to_wide(&self) -> (r: Vec<u32>)
        ensures
            wide::value(r@) == self@,
    {
        let m: Vec<u32> = wide::from_u64(self.mantissa);
        wide::shift_left(&m, self.shift)
    }

    pub fn zero() -> (r: Magnitude)
        ensures
            r@ == 0,
    {
        Magnitude { mantissa: 0, shift: 0 }
    }

    pub fn infinite() -> (r: Magnitude)
        ensures
            r@ == infinity(),
    {
        Magnitude { mantissa: 1, shift: 2098 }
    }

    /// The double nearest to `n`.
    pub fn from_u64(n: u64) -> (r: Magnitude)
        ensures
            r@ == whole(n as nat),
    {
        let w: Vec<u32> = wide::from_u64(n);
        let num: Vec<u32> = wide::shift_left(&w, 1074);
        let den: Vec<u32> = wide::from_u64(1);
        nearest_of(&num, &den, 53)
    }

    /// The double nearest to `n / d`.
    pub fn ratio(n: u64, d: u64) -> (r: Magnitude)
        requires
            d > 0,
        ensures
            r@ == nearest(n as nat * one(), d as nat),
    {
        let w: Vec<u32> = wide::from_u64(n);
        let num: Vec<u32> = wide::shift_left(&w, 1074);
        let den: Vec<u32> = wide::from_u64(d);
        nearest_of(&num, &den, 53)
    }

    /// The double nearest to `n / d`, for numbers of any size.
    pub(crate) fn wide_ratio(n: &Vec<u32>, d: &Vec<u32>) -> (r: Magnitude)
        requires
            wide::value(d@) > 0,
        ensures
            r@ == nearest(wide::value(n@) * one(), wide::value(d@)),
    {
        let num: Vec<u32> = wide::shift_left(n, 1074);
        nearest_of(&num, d, 53)
    }

    pub fn is_infinite(&self) -> (r: bool)
        ensures
            r == (self@ >= infinity()),
    {
        let a: Vec<u32> = self.to_wide();
        let one: Vec<u32> = wide::from_u64(1);
        let top: Vec<u32> = wide::shift_left(&one, 2098);
        proof {
            assert(1 * pow2(2098) == pow2(2098));
        }
        match wide::minus(&a, &top) {
            Some(_) => true,
            None => false,
        }
    }

    pub fn is_zero(&self) -> (r: bool)
        ensures
            r == (self@ == 0),
    {
        proof {
            vstd::arithmetic::power2::lemma_pow2_pos(self.shift as nat);
            assert(self.mantissa as nat * pow2(self.shift as nat) == 0 <==> self.mantissa == 0)
                by (nonlinear_arith)
                requires
                    pow2(self.shift as nat) > 0,
            ;
        }
        self.mantissa == 0
    }

    /// Whether the number is less than `n`.
    pub fn is_below(&self, n: u64) -> (r: bool)
        ensures
            r == (self@ < n as nat * one()),
    {
        let a: Vec<u32> = self.to_wide();
        let w: Vec<u32> = wide::from_u64(n);
        let b: Vec<u32> = wide::shift_left(&w, 1074);
        match wide::minus(&a, &b) {
            Some(_) => false,
            None => true,
        }
    }

    pub fn times(&self, other: &Magnitude) -> (r: Magnitude)
        ensures
            r@ == product(self@, other@),
    {
        if self.is_infinite() || other.is_infinite() {
            return Magnitude::infinite();
        }
        proof {
            use_type_invariant(self);
            use_type_invariant(other);
        }
        let a: Vec<u32> = wide::from_u64(self.mantissa);
        let low: u32 = (other.mantissa % 0x8000_0000) as u32;
        let high: u32 = (other.mantissa / 0x8000_0000) as u32;
        let x: Vec<u32> = wide::mul_add(&a, low, 0);
        let y: Vec<u32> = wide::mul_add(&a, high, 0);
        let z: Vec<u32> = wide::shift_left(&y, 31);
        let m: Vec<u32> = wide::plus(&x, &z);
        let num: Vec<u32> = wide::shift_left(&m, self.shift + other.shift);
        let unit: Vec<u32> = wide::from_u64(1);
        let den: Vec<u32> = wide::shift_left(&unit, 1074);
        proof {
            vstd::arithmetic::power2::lemma2_to64();
            let (p, q) = (pow2(self.shift as nat), pow2(other.shift as nat));
            let (u, v) = (self.mantissa as nat, other.mantissa as nat);
            assert(u * low + (u * high) * 0x8000_0000 == u * v) by (nonlinear_arith)
                requires
                    v == low + 0x8000_0000 * high,
            ;
            vstd::arithmetic::power2::lemma_pow2_adds(self.shift as nat, other.shift as nat);
            assert((u * v) * (p * q) == (u * p) * (v * q)) by (nonlinear_arith);
            assert(1 * pow2(1074) == pow2(1074));
            vstd::arithmetic::power2::lemma_pow2_pos(1074);
        }
        nearest_of(&num, &den, 53)
    }

    pub fn plus(&self, other: &Magnitude) -> (r: Magnitude)
        ensures
            r@ == sum(self@, other@),
    {
        let a: Vec<u32> = self.to_wide();
        let b: Vec<u32> = other.to_wide();
        let num: Vec<u32> = wide::plus(&a, &b);
        let den: Vec<u32> = wide::from_u64(1);
        nearest_of(&num, &den, 53)
    }

    pub fn over(&self, other: &Magnitude) -> (r: Magnitude)
        requires
            other@ > 0,
        ensures
            r@ == quotient(self@, other@),
    {
        if other.is_infinite() {
            return Magnitude::zero();
        }
        if self.is_infinite() {
            return Magnitude::infinite();
        }
        let a: Vec<u32> = self.to_wide();
        let den: Vec<u32> = other.to_wide();
        let num: Vec<u32> = wide::shift_left(&a, 1074);
        nearest_of(&num, &den, 53)
    }

    /// The integer part, as far as it fits.
    pub fn truncate(&self) -> (r: u64)
        ensures
            r == truncated(self@),
    {
        let a: Vec<u32> = self.to_wide();
        proof {
            vstd::arithmetic::power2::lemma_pow2_pos(1074);
        }
        floor_of(&a, 1074)
    }

    /// The nearest integer, halves up, as far as it fits.
    pub fn round(&self) -> (r: u64)
        ensures
            r == rounded(self@),
    {
        let a: Vec<u32> = self.to_wide();
        let twice: Vec<u32> = wide::mul_add(&a, 2, 0);
        let unit: Vec<u32> = wide::from_u64(1);
        let half: Vec<u32> = wide::shift_left(&unit, 1074);
        let num: Vec<u32> = wide::plus(&twice, &half);
        proof {
            assert(1 * pow2(1074) == pow2(1074));
            vstd::arithmetic::power2::lemma_pow2_unfold(1075);
        }
        floor_of(&num, 1075)
    }

    /// `self * scale`, rounded to the nearest integer, ties to even, as far as it fits.
    pub fn round_scaled(&self, scale: u32) -> (r: u64)
        ensures
            r == scaled_round(self@, scale as nat),
    {
        let a: Vec<u32> = self.to_wide();
        let num: Vec<u32> = wide::mul_add(&a, scale, 0);
        let q: u64 = floor_of(&num, 1074);
        let unit: Vec<u32> = wide::from_u64(1);
        let step: Vec<u32> = wide::shift_left(&unit, 1074);
        let whole: Vec<u32> = wide::from_u64(q);
        let below: Vec<u32> = wide::shift_left(&whole, 1074);
        let ghost n = wide::value(num@);
        let ghost d = one();
        proof {
            vstd::arithmetic::power2::lemma_pow2_pos(1074);
            assert(1 * pow2(1074) == pow2(1074));
            vstd::arithmetic::div_mod::lemma_fundamental_div_mod(n as int, d as int);
            vstd::arithmetic::mul::lemma_mul_is_commutative(d as int, n as int / d as int);
        }
        match wide::minus(&num, &below) {
            Some(rest) => {
                // The quotient may have been cut to what fits.
                match wide::minus(&rest, &step) {
                    Some(_) => {
                        proof {
                            if n / d <= u64::MAX {
                                assert(q == n / d);
                                assert(wide::value(rest@) == n % d);
                                assert(false);
                            }
                        }
                        u64::MAX
                    },
                    None => {
                        proof {
                            if n / d > u64::MAX {
                                assert(n / d * d >= (u64::MAX + 1) * d) by (nonlinear_arith)
                                    requires
                                        n / d >= u64::MAX + 1,
                                        d > 0,
                                ;
                                assert((u64::MAX + 1) * d == u64::MAX * d + d) by (nonlinear_arith);
                                assert(false);
                            }
                            assert(q == n / d);
                            assert(wide::value(rest@) == n % d);
                        }
                        let twice: Vec<u32> = wide::mul_add(&rest, 2, 0);
                        let up: bool = match wide::minus(&twice, &step) {
                            Some(over) => !is_zero(&over) || q % 2 == 1,
                            None => false,
                        };
                        if up && q < u64::MAX {
                            q + 1
                        } else {
                            q
                        }
                    },
                }
            },
            None => {
                proof {
                    assert(q <= n / d);
                    assert(q as nat * d <= n / d * d) by (nonlinear_arith)
                        requires
                            q <= n / d,
                    ;
                    assert(false);
                }
                0
            },
        }
    }

    /// `self - other`, where `other` is not the larger.
    pub fn minus(&self, other: &Magnitude) -> (r: Option<Magnitude>)
        ensures
            match r {
                Some(d) => self@ >= other@ && d@ == nearest((self@ - other@) as nat, 1),
                None => self@ < other@,
            },
    {
        let a: Vec<u32> = self.to_wide();
        let b: Vec<u32> = other.to_wide();
        let den: Vec<u32> = wide::from_u64(1);
        match wide::minus(&a, &b) {
            Some(num) => Some(nearest_of(&num, &den, 53)),
            None => None,
        }
    }

    /// Whether the number is at least `other`.
    pub fn reaches(&self, other: &Magnitude) -> (r: bool)
        ensures
            r == (self@ >= other@),
    {
        let a: Vec<u32> = self.to_wide();
        let b: Vec<u32> = other.to_wide();
        match wide::minus(&a, &b) {
            Some(_) => true,
            None => false,
        }
    }

    /// The larger of two numbers.
    pub fn max(&self, other: &Magnitude) -> (r: Magnitude)
        ensures
            r@ == larger(self@, other@),
    {
        if self.reaches(other) {
            *self
        } else {
            *other
        }
    }

    /// The number one.
    pub fn unit() -> (r: Magnitude)
        ensures
            r@ == one(),
    {
        proof {
            assert(1 * pow2(1074) == pow2(1074));
        }
        Magnitude { mantissa: 1, shift: 1074 }
    }

    /// The number, or one where it is more.
    pub fn capped(&self) -> (r: Magnitude)
        ensures
            r@ == at_most_one(self@),
    {
        let top = Magnitude::unit();
        if top.reaches(self) {
            *self
        } else {
            top
        }
    }

    /// The single-precision number nearest to `n`.
    pub fn single(n: u64) -> (r: Magnitude)
        ensures
            r@ == whole_single(n as nat),
    {
        let w: Vec<u32> = wide::from_u64(n);
        let num: Vec<u32> = wide::shift_left(&w, 1074);
        let den: Vec<u32> = wide::from_u64(1);
        nearest_of(&num, &den, 24)
    }

    /// The single-precision number nearest to `n / d`.
    pub fn single_ratio(n: u64, d: u64) -> (r: Magnitude)
        requires
            d > 0,
        ensures
            r@ == nearest_single(n as nat * one(), d as nat),
    {
        let w: Vec<u32> = wide::from_u64(n);
        let num: Vec<u32> = wide::shift_left(&w, 1074);
        let den: Vec<u32> = wide::from_u64(d);
        nearest_of(&num, &den, 24)
    }

    /// The sum in single precision.
    pub fn plus_single(&self, other: &Magnitude) -> (r: Magnitude)
        ensures
            r@ == nearest_single(self@ + other@, 1),
    {
        let a: Vec<u32> = self.to_wide();
        let b: Vec<u32> = other.to_wide();
        let num: Vec<u32> = wide::plus(&a, &b);
        let den: Vec<u32> = wide::from_u64(1);
        nearest_of(&num, &den, 24)
    }

    /// The quotient in single precision.
    pub fn over_single(&self, other: &Magnitude) -> (r: Magnitude)
        requires
            other@ > 0,
        ensures
            r@ == nearest_single(self@ * one(), other@),
    {
        let a: Vec<u32> = self.to_wide();
        let den: Vec<u32> = other.to_wide();
        let num: Vec<u32> = wide::shift_left(&a, 1074);
        nearest_of(&num, &den, 24)
    }

    /// The number times a hundred, in single precision.
    pub fn percent(&self) -> (r: Magnitude)
        ensures
            r@ == percent_of(self@),
    {
        let a: Vec<u32> = self.to_wide();
        let num: Vec<u32> = wide::mul_add(&a, 100, 0);
        let den: Vec<u32> = wide::from_u64(1);
        nearest_of(&num, &den, 24)
    }

    /// `done / total` in single precision, at most one.
    pub fn fraction_of(done: u64, total: u64) -> (r: Magnitude)
        requires
            total > 0,
        ensures
            r@ == fraction(done as nat, total as nat),
    {
        proof {
            lemma_whole_single_positive(total as nat);
        }
        Magnitude::single(done).over_single(&Magnitude::single(total)).capped()
    }

    /// The bits of the number as a double.
    pub fn to_bits(&self) -> (r: u64)
        ensures
            self@ < infinity() ==> decoded(r) == Some((false, self@)),
            self@ >= infinity() ==> r == 0x7FF0_0000_0000_0000,
    {
        if self.is_infinite() {
            return 0x7FF0_0000_0000_0000;
        }
        proof {
            use_type_invariant(self);
            vstd::arithmetic::power2::lemma2_to64();
        }
        let mut m: u64 = self.mantissa;
        let mut shift: u32 = self.shift;
        if m == 0 {
            proof {
                assert(0 * pow2(0) == 0);
                assert(0 * pow2(self.shift as nat) == 0);
            }
            return 0;
        }
        while m < 0x10_0000_0000_0000 && shift > 0
            invariant
                0 < m <= 0x20_0000_0000_0000,
                shift <= 2098,
                m as nat * pow2(shift as nat) == self@,
            decreases shift,
        {
            proof {
                vstd::arithmetic::power2::lemma_pow2_unfold(shift as nat);
                assert(m as nat * (2 * pow2((shift - 1) as nat)) == (2 * m) as nat * pow2(
                    (shift - 1) as nat,
                )) by (nonlinear_arith);
            }
            m = m * 2;
            shift -= 1;
        }
        if m == 0x20_0000_0000_0000 {
            proof {
                vstd::arithmetic::power2::lemma_pow2_unfold((shift + 1) as nat);
                assert(0x20_0000_0000_0000 * pow2(shift as nat) == 0x10_0000_0000_0000 * (2 * pow2(
                    shift as nat,
                )));
            }
            m = 0x10_0000_0000_0000;
            shift += 1;
        }
        if m < 0x10_0000_0000_0000 {
            return m;
        }
        proof {
            if shift > 2045 {
                // 2^52 * 2^2046 would be infinity.
                vstd::arithmetic::power2::lemma_pow2_adds(52, shift as nat);
                vstd::arithmetic::power2::lemma2_to64_rest();
                if shift > 2046 {
                    vstd::arithmetic::power2::lemma_pow2_strictly_increases(
                        2098,
                        (52 + shift) as nat,
                    );
                }
                assert(m as nat * pow2(shift as nat) >= pow2(52) * pow2(shift as nat))
                    by (nonlinear_arith)
                    requires
                        m as nat >= pow2(52),
                ;
                assert(false);
            }
        }
        let r: u64 = (shift as u64 + 1) * 0x10_0000_0000_0000 + (m - 0x10_0000_0000_0000);
        proof {
            let e = shift as u64 + 1;
            let f = m - 0x10_0000_0000_0000;
            assert(r % 0x8000_0000_0000_0000 == r);
            assert(r / 0x10_0000_0000_0000 == e && r % 0x10_0000_0000_0000 == f)
                by (nonlinear_arith)
                requires
                    r == e * 0x10_0000_0000_0000 + f,
                    0 <= f < 0x10_0000_0000_0000,
            ;
        }
        r
    }
}

/// `a / 2^k`, or the largest 64-bit number where it does not fit.
fn floor_of(a: &Vec<u32>, k: u32) -> (r: u64)
    requires
        k < 10000,
    ensures
        r == (if wide::value(a@) / pow2(k as nat) > u64::MAX {
            u64::MAX
        } else {
            (wide::value(a@) / pow2(k as nat)) as u64
        }),
{
    let ghost n = wide::value(a@);
    let ghost d = pow2(k as nat);
    let unit: Vec<u32> = wide::from_u64(1);
    let den: Vec<u32> = wide::shift_left(&unit, k);
    let limit: Vec<u32> = wide::shift_left(&unit, k + 63);
    proof {
        vstd::arithmetic::power2::lemma_pow2_pos(k as nat);
        vstd::arithmetic::power2::lemma_pow2_adds(k as nat, 63);
        vstd::arithmetic::power2::lemma_pow2_adds(k as nat, 64);
        vstd::arithmetic::power2::lemma2_to64_rest();
        assert(1 * d == d);
        assert(1 * pow2((k + 63) as nat) == pow2((k + 63) as nat));
    }
    match wide::minus(a, &limit) {
        None => {
            let (q, rest) = wide::divide(a, &den, 63);
            proof {
                vstd::arithmetic::div_mod::lemma_fundamental_div_mod_converse(
                    n as int,
                    d as int,
                    q as int,
                    wide::value(rest@) as int,
                );
            }
            q
        },
        Some(more) => {
            // The part above 2^63 is divided alone.
            match wide::minus(&more, &limit) {
                None => {
                    let (q, rest) = wide::divide(&more, &den, 63);
                    proof {
                        assert((q + pow2(63)) * d == q * d + d * pow2(63)) by (nonlinear_arith);
                        vstd::arithmetic::div_mod::lemma_fundamental_div_mod_converse(
                            n as int,
                            d as int,
                            q + pow2(63),
                            wide::value(rest@) as int,
                        );
                    }
                    q + 0x8000_0000_0000_0000
                },
                Some(_) => {
                    proof {
                        assert(d * pow2(63) + d * pow2(63) == pow2(64) * d) by (nonlinear_arith)
                            requires
                                pow2(64) == 2 * pow2(63),
                        ;
                        assert(n >= pow2(64) * d);
                        vstd::arithmetic::div_mod::lemma_div_is_ordered(
                            (pow2(64) * d) as int,
                            n as int,
                            d as int,
                        );
                        vstd::arithmetic::div_mod::lemma_div_multiples_vanish(
                            pow2(64) as int,
                            d as int,
                        );
                        assert(pow2(64) * d == d * pow2(64)) by (nonlinear_arith);
                    }
                    u64::MAX
                },
            }
        },
    }
}

} // verus!
