//! Numbers as text: reading whole and decimal numbers, and writing decimals.

use crate::binary64;
use crate::binary64::Magnitude;
use crate::text;
use crate::wide;
use vstd::arithmetic::power2::pow2;
use vstd::prelude::*;
use vstd::slice::slice_subrange;

verus! {

/// `10^n`.
pub open spec fn tens(n: nat) -> nat
    decreases n,
{
    if n == 0 {
        1
    } else {
        10 * tens((n - 1) as nat)
    }
}

pub open spec fn all_digits(s: Seq<char>) -> bool {
    forall|i: int| 0 <= i < s.len() ==> text::is_digit(#[trigger] s[i])
}

/// The number that decimal digits stand for.
pub open spec fn digits_value(s: Seq<char>) -> nat
    decreases s.len(),
{
    if s.len() == 0 {
        0
    } else {
        10 * digits_value(s.drop_last()) + (s.last() as nat - '0' as nat) as nat
    }
}

/// What follows a leading plus sign, or all of `s`.
pub open spec fn after_plus(s: Seq<char>) -> Seq<char> {
    if s.len() > 0 && s[0] == '+' {
        s.skip(1)
    } else {
        s
    }
}

/// The whole number that `s` reads: digits, perhaps behind a plus sign.
pub open spec fn natural(s: Seq<char>) -> Option<nat> {
    let body = after_plus(s);
    if body.len() > 0 && all_digits(body) {
        Some(digits_value(body))
    } else {
        None
    }
}

/// The whole number that `s` reads, where it is at most `max`.
pub open spec fn natural_to(s: Seq<char>, max: nat) -> Option<nat> {
    match natural(s) {
        Some(n) if n <= max => Some(n),
        _ => None,
    }
}

pub open spec fn as_u64(n: Option<nat>) -> Option<u64> {
    match n {
        Some(n) => Some(n as u64),
        None => None,
    }
}

/// The 64-bit number that `s` reads.
pub open spec fn u64_of(s: Seq<char>) -> Option<u64> {
    as_u64(natural_to(s, u64::MAX as nat))
}

/// What follows a leading sign, or all of `s`.
pub open spec fn after_sign(s: Seq<char>) -> Seq<char> {
    if s.len() > 0 && (s[0] == '+' || s[0] == '-') {
        s.skip(1)
    } else {
        s
    }
}

pub open spec fn is_negative(s: Seq<char>) -> bool {
    s.len() > 0 && s[0] == '-'
}

/// A double: not a number, or a sign and a size in units of `2^-1074`.
pub enum Real {
    Nan,
    Number { negative: bool, units: nat },
}

/// The double nearest to `n * 10^e`.
pub open spec fn scaled(n: nat, e: int) -> nat {
    if e >= 0 {
        binary64::nearest(n * tens(e as nat) * binary64::one(), 1)
    } else {
        binary64::nearest(n * binary64::one(), tens((-e) as nat))
    }
}

/// The exponent that `s` reads: digits, perhaps behind a sign.
pub open spec fn exponent(s: Seq<char>) -> Option<int> {
    let body = after_sign(s);
    if body.len() == 0 || !all_digits(body) {
        None
    } else if is_negative(s) {
        Some(-(digits_value(body) as int))
    } else {
        Some(digits_value(body) as int)
    }
}

/// The digits before the point in `s`, and those behind it.
pub open spec fn around_point(s: Seq<char>) -> (Seq<char>, Seq<char>) {
    match text::find(s, "."@) {
        Some(i) => (s.take(i), s.skip(i + 1)),
        None => (s, Seq::empty()),
    }
}

/// The double that digits with at most one point among them stand for, times `10^e`.
pub open spec fn mantissa(s: Seq<char>, e: int) -> Option<nat> {
    let (a, b) = around_point(s);
    if a.len() + b.len() > 0 && all_digits(a) && all_digits(b) {
        Some(scaled(digits_value(a + b), e - b.len()))
    } else {
        None
    }
}

/// The double that a decimal number without a sign stands for.
pub open spec fn unsigned(s: Seq<char>) -> Option<nat> {
    match text::position(s, seq!['e', 'E']) {
        Some(i) => match exponent(s.skip(i + 1)) {
            Some(e) => mantissa(s.take(i), e),
            None => None,
        },
        None => mantissa(s, 0),
    }
}

/// The double that `s` reads: a decimal number, an infinity or NaN, each
/// perhaps behind a sign.
pub open spec fn real_of(s: Seq<char>) -> Option<Real> {
    let body = after_sign(s);
    let negative = is_negative(s);
    if text::same_ignoring_case(body, "inf"@) || text::same_ignoring_case(body, "infinity"@) {
        Some(Real::Number { negative, units: binary64::infinity() })
    } else if text::same_ignoring_case(body, "nan"@) {
        Some(Real::Nan)
    } else {
        match unsigned(body) {
            Some(units) => Some(Real::Number { negative, units }),
            None => None,
        }
    }
}

impl Real {
    /// Less than zero.
    pub open spec fn below_zero(self) -> bool {
        self matches Real::Number { negative, units } && negative && units > 0
    }

    /// Zero or less.
    pub open spec fn not_above_zero(self) -> bool {
        self matches Real::Number { negative, units } && (negative || units == 0)
    }

    /// More than zero.
    pub open spec fn above_zero(self) -> bool {
        self matches Real::Number { negative, units } && !negative && units > 0
    }

    /// Less than the whole number `n`.
    pub open spec fn below(self, n: nat) -> bool {
        self matches Real::Number { negative, units } && ((negative && (units > 0 || n > 0)) || (
        !negative && units < n * binary64::one()))
    }

    /// The product with a non-negative double.
    pub open spec fn times(self, b: nat) -> Real {
        match self {
            Real::Nan => Real::Nan,
            Real::Number { negative, units } => Real::Number {
                negative,
                units: binary64::product(units, b),
            },
        }
    }

    /// The 64-bit number that is left when the fraction is dropped: zero for NaN
    /// and below zero, the largest one where it does not fit.
    pub open spec fn to_u64(self) -> u64 {
        match self {
            Real::Number { negative: false, units } => binary64::truncated(units),
            _ => 0,
        }
    }

    /// As `to_u64`, of the nearest whole number.
    pub open spec fn to_u64_rounded(self) -> u64 {
        match self {
            Real::Number { negative: false, units } => binary64::rounded(units),
            _ => 0,
        }
    }
}

/// A double.
#[derive(Clone, Copy, Debug)]
pub enum Reading {
    Nan,
    Number { negative: bool, size: Magnitude },
}

impl View for Reading {
    type V = Real;

    open spec fn view(&self) -> Real {
        match *self {
            Reading::Nan => Real::Nan,
            Reading::Number { negative, size } => Real::Number { negative, units: size@ },
        }
    }
}

pub open spec fn reading_view(r: Option<Reading>) -> Option<Real> {
    match r {
        Some(x) => Some(x@),
        None => None,
    }
}

impl Reading {
    /// The double with the given bits.
    pub fn from_bits(bits: u64) -> (r: Reading)
        ensures
            r@ == (match binary64::decoded(bits) {
                Some((negative, units)) => Real::Number { negative, units },
                None => Real::Nan,
            }),
    {
        match binary64::decode(bits) {
            Some((negative, size)) => Reading::Number { negative, size },
            None => Reading::Nan,
        }
    }

    pub fn is_below_zero(&self) -> (r: bool)
        ensures
            r == self@.below_zero(),
    {
        match self {
            Reading::Nan => false,
            Reading::Number { negative, size } => *negative && !size.is_zero(),
        }
    }

    pub fn is_not_above_zero(&self) -> (r: bool)
        ensures
            r == self@.not_above_zero(),
    {
        match self {
            Reading::Nan => false,
            Reading::Number { negative, size } => *negative || size.is_zero(),
        }
    }

    pub fn is_above_zero(&self) -> (r: bool)
        ensures
            r == self@.above_zero(),
    {
        match self {
            Reading::Nan => false,
            Reading::Number { negative, size } => !*negative && !size.is_zero(),
        }
    }

    pub fn is_below(&self, n: u64) -> (r: bool)
        ensures
            r == self@.below(n as nat),
    {
        match self {
            Reading::Nan => false,
            Reading::Number { negative, size } => if *negative {
                n > 0 || !size.is_zero()
            } else {
                size.is_below(n)
            },
        }
    }

    pub fn times(&self, b: &Magnitude) -> (r: Reading)
        ensures
            r@ == self@.times(b@),
    {
        match self {
            Reading::Nan => Reading::Nan,
            Reading::Number { negative, size } => Reading::Number {
                negative: *negative,
                size: size.times(b),
            },
        }
    }

    pub fn to_u64(&self) -> (r: u64)
        ensures
            r == self@.to_u64(),
    {
        match self {
            Reading::Nan => 0,
            Reading::Number { negative, size } => if *negative {
                0
            } else {
                size.truncate()
            },
        }
    }

    pub fn to_u64_rounded(&self) -> (r: u64)
        ensures
            r == self@.to_u64_rounded(),
    {
        match self {
            Reading::Nan => 0,
            Reading::Number { negative, size } => if *negative {
                0
            } else {
                size.round()
            },
        }
    }
}

proof fn lemma_tens(n: nat)
    ensures
        tens(n) > 0,
        tens(n) >= pow2(3 * n),
    decreases n,
{
    vstd::arithmetic::power2::lemma2_to64();
    if n > 0 {
        lemma_tens((n - 1) as nat);
        vstd::arithmetic::power2::lemma_pow2_adds(3, (3 * n - 3) as nat);
    }
}

proof fn lemma_tens_adds(a: nat, b: nat)
    ensures
        tens(a + b) == tens(a) * tens(b),
    decreases b,
{
    if b == 0 {
        assert(tens(a) * 1 == tens(a));
    } else {
        lemma_tens_adds(a, (b - 1) as nat);
        assert(tens(a) * (10 * tens((b - 1) as nat)) == 10 * (tens(a) * tens((b - 1) as nat)))
            by (nonlinear_arith);
    }
}

pub proof fn lemma_digits_value_push(s: Seq<char>, i: int)
    requires
        0 <= i < s.len(),
    ensures
        digits_value(s.take(i + 1)) == 10 * digits_value(s.take(i)) + (s[i] as nat
            - '0' as nat) as nat,
{
    assert(s.take(i + 1).drop_last() =~= s.take(i));
}

proof fn lemma_digits_value_prefix(s: Seq<char>, i: int)
    requires
        0 <= i <= s.len(),
    ensures
        digits_value(s.take(i)) <= digits_value(s),
    decreases s.len() - i,
{
    if i == s.len() {
        assert(s.take(i) =~= s);
    } else {
        lemma_digits_value_push(s, i);
        lemma_digits_value_prefix(s, i + 1);
    }
}

proof fn lemma_digits_value_bound(s: Seq<char>)
    requires
        all_digits(s),
    ensures
        digits_value(s) < tens(s.len()),
    decreases s.len(),
{
    if s.len() > 0 {
        assert(text::is_digit(s.last()));
        assert forall|i: int| 0 <= i < s.drop_last().len() implies text::is_digit(
            #[trigger] s.drop_last()[i],
        ) by {
            assert(text::is_digit(s[i]));
        }
        lemma_digits_value_bound(s.drop_last());
    }
}

pub fn digits_only(s: &[char]) -> (r: bool)
    ensures
        r == all_digits(s@),
{
    let mut i: usize = 0;
    while i < s.len()
        invariant
            i <= s.len(),
            forall|j: int| 0 <= j < i ==> text::is_digit(#[trigger] s@[j]),
        decreases s.len() - i,
    {
        if !text::is_ascii_digit(s[i]) {
            assert(!text::is_digit(s@[i as int]));
            return false;
        }
        i += 1;
    }
    true
}

/// The number that digits stand for, where it is at most `max`.
fn bounded_value(s: &[char], max: u64) -> (r: Option<u64>)
    requires
        all_digits(s@),
    ensures
        r == (if digits_value(s@) <= max {
            Some(digits_value(s@) as u64)
        } else {
            None
        }),
{
    let mut n: u64 = 0;
    let mut i: usize = 0;
    assert(s@.take(0) =~= Seq::<char>::empty());
    while i < s.len()
        invariant
            i <= s.len(),
            all_digits(s@),
            n == digits_value(s@.take(i as int)),
            n <= max,
        decreases s.len() - i,
    {
        assert(text::is_digit(s@[i as int]));
        let d: u64 = (s[i] as u32 - '0' as u32) as u64;
        proof {
            lemma_digits_value_push(s@, i as int);
            lemma_digits_value_prefix(s@, i + 1);
        }
        if n > max / 10 || d > max - n * 10 {
            return None;
        }
        n = n * 10 + d;
        i += 1;
    }
    assert(s@.take(s@.len() as int) =~= s@);
    Some(n)
}

/// Reads a whole number that is at most `max`.
pub fn read_natural(s: &[char], max: u64) -> (r: Option<u64>)
    ensures
        r == as_u64(natural_to(s@, max as nat)),
{
    let body = if s.len() > 0 && s[0] == '+' {
        slice_subrange(s, 1, s.len())
    } else {
        s
    };
    proof {
        if s@.len() > 0 && s@[0] == '+' {
            assert(body@ =~= s@.skip(1));
        }
        assert(body@ == after_plus(s@));
    }
    if body.len() == 0 || !digits_only(body) {
        return None;
    }
    bounded_value(body, max)
}

/// Reads a 64-bit number.
pub fn read_u64(s: &[char]) -> (r: Option<u64>)
    ensures
        r == u64_of(s@),
{
    read_natural(s, u64::MAX)
}

/// Reads digits as a number of any size, behind what has been read of it before.
fn read_wide(seen: Vec<u32>, before: Ghost<Seq<char>>, s: &[char]) -> (r: Vec<u32>)
    requires
        all_digits(s@),
        wide::value(seen@) == digits_value(before@),
    ensures
        wide::value(r@) == digits_value(before@ + s@),
{
    let mut n: Vec<u32> = seen;
    let mut i: usize = 0;
    assert(before@ + s@.take(0) =~= before@);
    while i < s.len()
        invariant
            i <= s.len(),
            all_digits(s@),
            wide::value(n@) == digits_value(before@ + s@.take(i as int)),
        decreases s.len() - i,
    {
        assert(text::is_digit(s@[i as int]));
        let d: u32 = s[i] as u32 - '0' as u32;
        let next: Vec<u32> = wide::mul_add(&n, 10, d);
        assert((before@ + s@.take(i + 1)).drop_last() =~= before@ + s@.take(i as int));
        n = next;
        i += 1;
    }
    assert(before@ + s@.take(s@.len() as int) =~= before@ + s@);
    n
}

/// The number that digits stand for, or some number above `2^100` where it is
/// that large.
fn capped_value(s: &[char]) -> (r: u128)
    requires
        all_digits(s@),
    ensures
        r <= 0x10_0000_0000_0000_0000_0000_0000_0000,
        r == digits_value(s@) || (r > 0x10_0000_0000_0000_0000_0000_0000 && digits_value(s@)
            > 0x10_0000_0000_0000_0000_0000_0000),
{
    let mut n: u128 = 0;
    let mut i: usize = 0;
    assert(s@.take(0) =~= Seq::<char>::empty());
    while i < s.len()
        invariant
            i <= s.len(),
            all_digits(s@),
            n == digits_value(s@.take(i as int)),
            n <= 0x10_0000_0000_0000_0000_0000_0000,
        decreases s.len() - i,
    {
        assert(text::is_digit(s@[i as int]));
        let d: u128 = (s[i] as u32 - '0' as u32) as u128;
        proof {
            lemma_digits_value_push(s@, i as int);
            lemma_digits_value_prefix(s@, i + 1);
        }
        n = n * 10 + d;
        if n > 0x10_0000_0000_0000_0000_0000_0000 {
            return n;
        }
        i += 1;
    }
    assert(s@.take(s@.len() as int) =~= s@);
    n
}

proof fn lemma_overflow(num: nat, k: nat)
    requires
        num >= pow2(2099),
    ensures
        binary64::shift_from(num, 1, 53, k) == 2046,
    decreases 2046 - k,
{
    if k < 2046 {
        if k + 53 < 2099 {
            vstd::arithmetic::power2::lemma_pow2_strictly_increases(k + 53, 2099);
        }
        lemma_overflow(num, k + 1);
    }
}

proof fn lemma_scaled_large(n: nat, e: int)
    requires
        n > 0,
        e > 400,
    ensures
        scaled(n, e) == binary64::infinity(),
{
    lemma_tens(e as nat);
    vstd::arithmetic::power2::lemma_pow2_strictly_increases(1025, (3 * e) as nat);
    vstd::arithmetic::power2::lemma_pow2_adds(1025, 1074);
    let num = n * tens(e as nat) * binary64::one();
    assert(n * tens(e as nat) >= tens(e as nat)) by (nonlinear_arith)
        requires
            n > 0,
    ;
    assert(num >= pow2(1025) * pow2(1074)) by (nonlinear_arith)
        requires
            num == n * tens(e as nat) * pow2(1074),
            n * tens(e as nat) >= pow2(1025),
    ;
    lemma_overflow(num, 0);
}

proof fn lemma_nearest_tiny(num: nat, den: nat)
    requires
        2 * num < den,
    ensures
        binary64::nearest(num, den) == 0,
{
    vstd::arithmetic::power2::lemma2_to64();
    vstd::arithmetic::power2::lemma2_to64_rest();
    vstd::arithmetic::power2::lemma_pow2_pos(2098);
    assert(num < den * pow2(53)) by (nonlinear_arith)
        requires
            num < den,
            pow2(53) >= 1,
    ;
    assert(den * pow2(0) == den) by (nonlinear_arith)
        requires
            pow2(0) == 1,
    ;
    vstd::arithmetic::div_mod::lemma_basic_div(num as int, den as int);
    vstd::arithmetic::div_mod::lemma_small_mod(num, den);
    assert(0 * pow2(0) == 0);
}

proof fn lemma_scaled_small(n: nat, len: nat, e: int)
    requires
        n < tens(len),
        e < -(len + 400),
    ensures
        scaled(n, e) == 0,
{
    let extra = (-e - len) as nat;
    lemma_tens_adds(len, extra);
    lemma_tens(extra);
    lemma_tens(len);
    vstd::arithmetic::power2::lemma_pow2_strictly_increases(1075, 3 * extra);
    vstd::arithmetic::power2::lemma_pow2_unfold(1075);
    let num = n * binary64::one();
    let den = tens((-e) as nat);
    assert(2 * num < den) by (nonlinear_arith)
        requires
            num == n * pow2(1074),
            n < tens(len),
            den == tens(len) * tens(extra),
            tens(extra) >= 2 * pow2(1074),
            pow2(1074) >= 0,
            tens(len) > 0,
            tens(extra) > 0,
    ;
    lemma_nearest_tiny(num, den);
}

/// The double nearest to `n * 10^e`, where `n` has at most `len` digits.
fn scale(n: &Vec<u32>, len: usize, e: i128) -> (r: Magnitude)
    requires
        wide::value(n@) < tens(len as nat),
    ensures
        r@ == scaled(wide::value(n@), e as int),
{
    let ghost v = wide::value(n@);
    let one: Vec<u32> = wide::from_u64(1);
    match wide::minus(n, &one) {
        None => {
            proof {
                assert(v == 0);
                lemma_tens((if e >= 0 { e as nat } else { (-e) as nat }));
                if e >= 0 {
                    assert(0 * tens(e as nat) == 0);
                    assert(0 * binary64::one() == 0);
                    lemma_nearest_tiny(0, 1);
                } else {
                    assert(0 * binary64::one() == 0);
                    lemma_nearest_tiny(0, tens((-e) as nat));
                }
            }
            return Magnitude::zero();
        },
        Some(_) => {},
    }
    if e > 400 {
        proof {
            lemma_scaled_large(v, e as int);
        }
        return Magnitude::infinite();
    }
    if e < -(len as i128 + 400) {
        proof {
            lemma_scaled_small(v, len as nat, e as int);
        }
        return Magnitude::zero();
    }
    if e >= 0 {
        let mut m: Vec<u32> = wide::mul_add(n, 1, 0);
        let mut i: i128 = 0;
        proof {
            assert(v * tens(0) == v);
        }
        while i < e
            invariant
                0 <= i <= e <= 400,
                v == wide::value(n@),
                wide::value(m@) == v * tens(i as nat),
            decreases e - i,
        {
            proof {
                assert(v * tens(i as nat) * 10 == v * (10 * tens(i as nat))) by (nonlinear_arith);
            }
            m = wide::mul_add(&m, 10, 0);
            i += 1;
        }
        Magnitude::wide_ratio(&m, &one)
    } else {
        proof {
            lemma_tens((-e) as nat);
        }
        let mut d: Vec<u32> = wide::from_u64(1);
        let mut i: i128 = 0;
        while i > e
            invariant
                e <= i <= 0,
                wide::value(d@) == tens((-i) as nat),
            decreases i - e,
        {
            d = wide::mul_add(&d, 10, 0);
            i -= 1;
        }
        Magnitude::wide_ratio(n, &d)
    }
}

fn read_exponent(s: &[char]) -> (r: Option<(bool, u128)>)
    ensures
        match r {
            Some((negative, n)) => exponent(s@) matches Some(e) && n
                <= 0x10_0000_0000_0000_0000_0000_0000_0000 && ({
                let x = if negative {
                    -(n as int)
                } else {
                    n as int
                };
                ||| x == e
                ||| n > 0x10_0000_0000_0000_0000_0000_0000 && !negative && e
                    > 0x10_0000_0000_0000_0000_0000_0000
                ||| n > 0x10_0000_0000_0000_0000_0000_0000 && negative && e
                    < -0x10_0000_0000_0000_0000_0000_0000
            }),
            None => exponent(s@) is None,
        },
{
    let signed: bool = s.len() > 0 && (s[0] == '+' || s[0] == '-');
    let negative: bool = s.len() > 0 && s[0] == '-';
    let body = if signed {
        slice_subrange(s, 1, s.len())
    } else {
        s
    };
    proof {
        if signed {
            assert(body@ =~= s@.skip(1));
        }
        assert(body@ == after_sign(s@));
    }
    if body.len() == 0 || !digits_only(body) {
        return None;
    }
    Some((negative, capped_value(body)))
}

fn read_mantissa(s: &[char], negative: bool, e: u128, exact: Ghost<int>) -> (r: Option<Magnitude>)
    requires
        e <= 0x10_0000_0000_0000_0000_0000_0000_0000,
        ({
            let x = if negative {
                -(e as int)
            } else {
                e as int
            };
            ||| x == exact@
            ||| e > 0x10_0000_0000_0000_0000_0000_0000 && !negative && exact@
                > 0x10_0000_0000_0000_0000_0000_0000
            ||| e > 0x10_0000_0000_0000_0000_0000_0000 && negative && exact@
                < -0x10_0000_0000_0000_0000_0000_0000
        }),
    ensures
        match r {
            Some(m) => mantissa(s@, exact@) == Some(m@),
            None => mantissa(s@, exact@) is None,
        },
{
    proof {
        reveal_strlit(".");
    }
    let (a, b) = match text::find_str(s, ".") {
        Some(i) => (slice_subrange(s, 0, i), slice_subrange(s, i + 1, s.len())),
        None => (s, slice_subrange(s, s.len(), s.len())),
    };
    proof {
        let (x, y) = around_point(s@);
        assert(a@ =~= x);
        assert(b@ =~= y);
    }
    if (a.len() == 0 && b.len() == 0) || !digits_only(a) || !digits_only(b) {
        return None;
    }
    let zero: Vec<u32> = Vec::new();
    let high: Vec<u32> = read_wide(zero, Ghost(Seq::empty()), a);
    proof {
        assert(Seq::<char>::empty() + a@ =~= a@);
    }
    let n: Vec<u32> = read_wide(high, Ghost(a@), b);
    let shift: i128 = if negative {
        -(e as i128) - b.len() as i128
    } else {
        e as i128 - b.len() as i128
    };
    let ghost all = a@ + b@;
    proof {
        assert forall|i: int| 0 <= i < all.len() implies text::is_digit(#[trigger] all[i]) by {
            if i < a@.len() {
                assert(text::is_digit(a@[i]));
            } else {
                assert(text::is_digit(b@[i - a@.len()]));
            }
        }
        lemma_digits_value_bound(all);
        assert(all.len() <= s@.len());
        let v = wide::value(n@);
        if shift != exact@ - b@.len() {
            // Both exponents are far out, on the same side.
            lemma_tens_monotone(all.len(), s@.len());
            if v == 0 {
                lemma_scaled_zero(shift as int);
                lemma_scaled_zero(exact@ - b@.len());
            } else if negative {
                lemma_scaled_small(v, all.len(), shift as int);
                lemma_scaled_small(v, all.len(), exact@ - b@.len());
            } else {
                lemma_scaled_large(v, shift as int);
                lemma_scaled_large(v, exact@ - b@.len());
            }
        }
    }
    Some(scale(&n, a.len() + b.len(), shift))
}

proof fn lemma_scaled_zero(e: int)
    ensures
        scaled(0, e) == 0,
{
    assert(0 * binary64::one() == 0);
    if e >= 0 {
        assert(0 * tens(e as nat) == 0);
        lemma_nearest_tiny(0, 1);
    } else {
        lemma_tens((-e) as nat);
        lemma_nearest_tiny(0, tens((-e) as nat));
    }
}

proof fn lemma_tens_monotone(a: nat, b: nat)
    requires
        a <= b,
    ensures
        tens(a) <= tens(b),
    decreases b,
{
    if a < b {
        lemma_tens_monotone(a, (b - 1) as nat);
    }
}

/// Reads a double.
pub fn read_real(s: &[char]) -> (r: Option<Reading>)
    ensures
        reading_view(r) == real_of(s@),
{
    let signed: bool = s.len() > 0 && (s[0] == '+' || s[0] == '-');
    let negative: bool = s.len() > 0 && s[0] == '-';
    let body = if signed {
        slice_subrange(s, 1, s.len())
    } else {
        s
    };
    proof {
        if signed {
            assert(body@ =~= s@.skip(1));
        }
        assert(body@ == after_sign(s@));
    }
    if text::is_ignoring_case(body, "inf") || text::is_ignoring_case(body, "infinity") {
        return Some(Reading::Number { negative, size: Magnitude::infinite() });
    }
    if text::is_ignoring_case(body, "nan") {
        return Some(Reading::Nan);
    }
    let marks: [char; 2] = ['e', 'E'];
    assert(marks@ =~= seq!['e', 'E']);
    let size = match text::position_of(body, marks.as_slice()) {
        Some(i) => {
            let head = slice_subrange(body, 0, i);
            let tail = slice_subrange(body, i + 1, body.len());
            assert(head@ =~= body@.take(i as int));
            assert(tail@ =~= body@.skip(i + 1));
            match read_exponent(tail) {
                Some((below, e)) => read_mantissa(head, below, e, Ghost(exponent(tail@).unwrap())),
                None => None,
            }
        },
        None => read_mantissa(body, false, 0, Ghost(0)),
    };
    match size {
        Some(size) => Some(Reading::Number { negative, size }),
        None => None,
    }
}

// ── Writing ──

pub open spec fn digit(n: nat) -> char {
    ('0' as u32 + n) as char
}

/// `n` in decimal digits.
pub open spec fn decimal(n: nat) -> Seq<char>
    decreases n,
{
    if n < 10 {
        seq![digit(n)]
    } else {
        decimal(n / 10).push(digit(n % 10))
    }
}

/// `n` in decimal digits, at least two of them.
pub open spec fn two_digits(n: nat) -> Seq<char> {
    if n < 10 {
        seq!['0', digit(n)]
    } else {
        decimal(n)
    }
}

/// `s` behind as many zeros as make it `width` characters.
pub open spec fn zero_padded(s: Seq<char>, width: nat) -> Seq<char>
    decreases width,
{
    if s.len() >= width {
        s
    } else {
        seq!['0'] + zero_padded(s, (width - 1) as nat)
    }
}

/// A double with one or two decimals: the exact value, rounded to the nearest
/// tenth or hundredth, ties to even.
pub open spec fn fixed(units: nat, places: nat) -> Seq<char> {
    let n = binary64::scaled_round(units, tens(places)) as nat;
    decimal(n / tens(places)) + seq!['.'] + zero_padded(decimal(n % tens(places)), places)
}

fn digit_char(n: u64) -> (r: char)
    requires
        n < 10,
    ensures
        r == digit(n as nat),
{
    if n == 0 {
        '0'
    } else if n == 1 {
        '1'
    } else if n == 2 {
        '2'
    } else if n == 3 {
        '3'
    } else if n == 4 {
        '4'
    } else if n == 5 {
        '5'
    } else if n == 6 {
        '6'
    } else if n == 7 {
        '7'
    } else if n == 8 {
        '8'
    } else {
        '9'
    }
}

/// Appends a number in decimal digits.
pub fn push_decimal(out: &mut Vec<char>, n: u64)
    ensures
        final(out)@ == old(out)@ + decimal(n as nat),
    decreases n,
{
    if n >= 10 {
        push_decimal(out, n / 10);
    }
    let ghost before = out@;
    out.push(digit_char(n % 10));
    proof {
        if n >= 10 {
            assert(out@ =~= old(out)@ + decimal((n / 10) as nat).push(digit((n % 10) as nat)));
        } else {
            assert(out@ =~= old(out)@ + seq![digit(n as nat)]);
        }
    }
}

/// Appends a number in decimal digits, at least two of them.
pub fn push_two_digits(out: &mut Vec<char>, n: u64)
    ensures
        final(out)@ == old(out)@ + two_digits(n as nat),
{
    if n < 10 {
        out.push('0');
        out.push(digit_char(n));
        assert(out@ =~= old(out)@ + seq!['0', digit(n as nat)]);
    } else {
        push_decimal(out, n);
    }
}

/// Appends a double with one decimal.
pub fn push_tenths(out: &mut Vec<char>, m: &Magnitude)
    ensures
        final(out)@ == old(out)@ + fixed(m@, 1),
{
    let n: u64 = m.round_scaled(10);
    proof {
        reveal_with_fuel(tens, 2);
        reveal_with_fuel(zero_padded, 2);
    }
    push_decimal(out, n / 10);
    out.push('.');
    push_decimal(out, n % 10);
    proof {
        let f = decimal((n % 10) as nat);
        assert(f.len() == 1);
        assert(zero_padded(f, 1) == f);
        assert(out@ =~= old(out)@ + fixed(m@, 1));
    }
}

/// Appends a double with two decimals.
pub fn push_hundredths(out: &mut Vec<char>, m: &Magnitude)
    ensures
        final(out)@ == old(out)@ + fixed(m@, 2),
{
    let n: u64 = m.round_scaled(100);
    proof {
        reveal_with_fuel(tens, 3);
        reveal_with_fuel(zero_padded, 3);
        reveal_with_fuel(decimal, 3);
    }
    push_decimal(out, n / 100);
    out.push('.');
    push_two_digits(out, n % 100);
    proof {
        let f = decimal((n % 100) as nat);
        if n % 100 < 10 {
            assert(zero_padded(f, 2) =~= seq!['0', digit((n % 100) as nat)]);
        } else {
            assert(f.len() == 2);
            assert(zero_padded(f, 2) == f);
        }
        assert(out@ =~= old(out)@ + fixed(m@, 2));
    }
}

// ── What is written and what is read ──

proof fn lemma_digit(k: nat)
    requires
        k < 10,
    ensures
        text::is_digit(digit(k)),
        digit(k) as nat - '0' as nat == k,
        digit(k) != '+' && digit(k) != '-' && digit(k) != '.' && digit(k) != 'e' && digit(k) != 'E',
        digit(k) != '/',
        !text::is_space(digit(k)),
{
}

/// A number that is written in digits is read back.
pub proof fn law_decimal_is_read_back(n: nat)
    ensures
        decimal(n).len() > 0,
        all_digits(decimal(n)),
        digits_value(decimal(n)) == n,
        natural(decimal(n)) == Some(n),
        n <= u64::MAX ==> u64_of(decimal(n)) == Some(n as u64),
        n < 10 ==> decimal(n).len() == 1,
    decreases n,
{
    if n < 10 {
        lemma_digit(n);
        assert(decimal(n).drop_last() =~= Seq::empty());
        assert(decimal(n).last() == digit(n));
        assert(digits_value(Seq::<char>::empty()) == 0);
        assert(digits_value(decimal(n)) == (digit(n) as nat - '0' as nat) as nat);
    } else {
        law_decimal_is_read_back(n / 10);
        lemma_digit(n % 10);
        let s = decimal(n);
        assert(s.drop_last() =~= decimal(n / 10));
        assert(s.last() == digit(n % 10));
        assert(digits_value(s) == 10 * digits_value(decimal(n / 10)) + (n % 10));
        assert forall|i: int| 0 <= i < s.len() implies text::is_digit(#[trigger] s[i]) by {
            if i < s.len() - 1 {
                assert(s[i] == decimal(n / 10)[i]);
            }
        }
    }
    assert(text::is_digit(decimal(n)[0]));
}

/// Two numbers that are written alike are the same.
pub proof fn law_decimals_differ(a: nat, b: nat)
    requires
        decimal(a) == decimal(b),
    ensures
        a == b,
{
    law_decimal_is_read_back(a);
    law_decimal_is_read_back(b);
}

/// Digits hold none of the marks that numbers are read by.
pub proof fn lemma_digits_have_no_marks(s: Seq<char>)
    requires
        all_digits(s),
    ensures
        !s.contains('.') && !s.contains('/') && !s.contains('e') && !s.contains('E')
            && !s.contains(',') && !s.contains(':'),
        forall|i: int| 0 <= i < s.len() ==> !text::is_space(#[trigger] s[i]),
        text::position(s, seq!['e', 'E']) is None,
    decreases s.len(),
{
    if s.len() > 0 {
        assert(text::is_digit(s[0]));
        assert(!seq!['e', 'E'].contains(s[0]));
        assert forall|i: int| 0 <= i < s.skip(1).len() implies text::is_digit(
            #[trigger] s.skip(1)[i],
        ) by {
            assert(s.skip(1)[i] == s[i + 1]);
        }
        lemma_digits_have_no_marks(s.skip(1));
    }
    assert forall|c: char| #![trigger s.contains(c)] s.contains(c) implies text::is_digit(c) by {
        let i = choose|i: int| 0 <= i < s.len() && s[i] == c;
        assert(text::is_digit(s[i]));
    }
}

/// A whole number that is written in digits is read as the double nearest to it.
pub proof fn law_whole_numbers_are_read_as_doubles(n: nat)
    ensures
        real_of(decimal(n)) == Some(Real::Number { negative: false, units: binary64::whole(n) }),
        unsigned(decimal(n)) == Some(binary64::whole(n)),
{
    let s = decimal(n);
    law_decimal_is_read_back(n);
    lemma_digits_have_no_marks(s);
    assert(text::is_digit(s[0]));
    reveal_strlit("inf");
    reveal_strlit("infinity");
    reveal_strlit("nan");
    reveal_strlit(".");
    assert(text::ascii_lower(s[0]) == s[0]);
    assert(!text::same_ignoring_case(s, "inf"@)) by {
        if text::same_ignoring_case(s, "inf"@) {
            assert(text::ascii_lower(s[0]) == text::ascii_lower("inf"@[0]));
        }
    }
    assert(!text::same_ignoring_case(s, "infinity"@)) by {
        if text::same_ignoring_case(s, "infinity"@) {
            assert(text::ascii_lower(s[0]) == text::ascii_lower("infinity"@[0]));
        }
    }
    assert(!text::same_ignoring_case(s, "nan"@)) by {
        if text::same_ignoring_case(s, "nan"@) {
            assert(text::ascii_lower(s[0]) == text::ascii_lower("nan"@[0]));
        }
    }
    assert("."@ =~= seq!['.']);
    text::lemma_no_split(s, '.');
    assert(text::find(s, "."@) is None);
    assert(s + Seq::<char>::empty() =~= s);
    assert(tens(0) == 1);
    assert(n * tens(0) * binary64::one() == n * binary64::one()) by (nonlinear_arith)
        requires
            tens(0) == 1,
    ;
}

/// A whole number with decimals has zeros for them.
pub proof fn law_whole_numbers_have_zero_decimals(n: nat)
    requires
        n <= 0xffff_ffff_ffff,
    ensures
        fixed(n * binary64::one(), 1) == decimal(n) + seq!['.', '0'],
        fixed(n * binary64::one(), 2) == decimal(n) + seq!['.', '0', '0'],
{
    let o = binary64::one();
    vstd::arithmetic::power2::lemma_pow2_pos(1074);
    reveal_with_fuel(tens, 3);
    assert(tens(1) == 10);
    assert(tens(2) == 100);
    vstd::arithmetic::div_mod::lemma_div_by_multiple((n * 10) as int, o as int);
    vstd::arithmetic::div_mod::lemma_mod_multiples_basic((n * 10) as int, o as int);
    vstd::arithmetic::div_mod::lemma_div_by_multiple((n * 100) as int, o as int);
    vstd::arithmetic::div_mod::lemma_mod_multiples_basic((n * 100) as int, o as int);
    assert(n * o * 10 == n * 10 * o) by (nonlinear_arith);
    assert(n * o * 100 == n * 100 * o) by (nonlinear_arith);
    assert(binary64::scaled_round(n * o, 10) == n * 10);
    assert(binary64::scaled_round(n * o, 100) == n * 100);
    reveal_with_fuel(zero_padded, 3);
    assert(decimal(0) =~= seq!['0']);
    assert(zero_padded(decimal(0), 1) =~= seq!['0']);
    assert(zero_padded(decimal(0), 2) =~= seq!['0', '0']);
    assert((n * 10) / 10 == n && (n * 10) % 10 == 0);
    assert((n * 100) / 100 == n && (n * 100) % 100 == 0);
    assert(fixed(n * o, 1) =~= decimal(n) + seq!['.', '0']);
    assert(fixed(n * o, 2) =~= decimal(n) + seq!['.', '0', '0']);
}

/// A number with decimals is within half of the last of them: `q` tenths or hundredths
/// are written as the whole ones, a point and the rest.
pub proof fn law_decimals_are_near(units: nat, places: nat) -> (q: nat)
    requires
        1 <= places <= 2,
        units <= 0xffff_ffff_ffff * binary64::one(),
    ensures
        fixed(units, places) == decimal(q / tens(places)) + seq!['.'] + zero_padded(
            decimal(q % tens(places)),
            places,
        ),
        2 * binary64::distance((q * binary64::one()) as int, (units * tens(places)) as int)
            <= binary64::one(),
{
    let o = binary64::one();
    vstd::arithmetic::power2::lemma_pow2_pos(1074);
    reveal_with_fuel(tens, 3);
    let t = tens(places);
    assert(t == 10 || t == 100);
    let n = binary64::round_even(units * t, o);
    binary64::lemma_round_even_is_near(units * t, o);
    assert(units * t <= 0xffff_ffff_ffff * o * t) by (nonlinear_arith)
        requires
            units <= 0xffff_ffff_ffff * o,
    ;
    assert(n <= u64::MAX) by (nonlinear_arith)
        requires
            units * t <= 0xffff_ffff_ffff * o * t,
            t <= 100,
            o > 0,
            n <= (units * t) / o + 1,
            (units * t) / o <= (units * t),
            (units * t) / o * o <= units * t,
    ;
    n
}

} // verus!
